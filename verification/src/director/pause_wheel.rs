use vstd::prelude::*;
use crate::command_queue::{CommandQueue, CommandView};

verus! {

/// Stance chosen on the pause wheel.
#[derive(Debug, Clone, Copy, PartialEq, Eq, Structural)]
pub enum Stance {
    Brace,
    Vault,
}

impl Default for Stance {
    fn default() -> (r: Self)
        ensures
            r == Stance::Brace,
    {
        Stance::Brace
    }
}

/// Tool slot chosen on the pause wheel.
#[derive(Debug, Clone, Copy, PartialEq, Eq, Structural)]
pub enum ToolSlot {
    A,
    B,
}

impl Default for ToolSlot {
    fn default() -> (r: Self)
        ensures
            r == ToolSlot::A,
    {
        ToolSlot::A
    }
}

/// The meter value of a stance.
pub open spec fn stance_code(stance: Stance) -> i32 {
    match stance {
        Stance::Brace => 0,
        Stance::Vault => 1,
    }
}

/// The meter value of a tool slot.
pub open spec fn tool_code(tool: ToolSlot) -> i32 {
    match tool {
        ToolSlot::A => 0,
        ToolSlot::B => 1,
    }
}

/// The meter value of a flag.
pub open spec fn flag_code(flag: bool) -> i32 {
    if flag {
        1
    } else {
        0
    }
}

/// Choices made on the pause wheel.
#[derive(Debug, Clone, Copy, PartialEq, Eq, Structural)]
pub struct WheelState {
    pub stance: Stance,
    pub tool: ToolSlot,
    pub overwatch: bool,
    pub move_mode: bool,
    pub slowmo_enabled: bool,
}

impl Default for WheelState {
    fn default() -> (r: Self)
        ensures
            r == (WheelState {
                stance: Stance::Brace,
                tool: ToolSlot::A,
                overwatch: false,
                move_mode: false,
                slowmo_enabled: false,
            }),
    {
        WheelState {
            stance: Stance::Brace,
            tool: ToolSlot::A,
            overwatch: false,
            move_mode: false,
            slowmo_enabled: false,
        }
    }
}

impl WheelState {
    /// Selects `stance`; a change is metered as `wheel_stance`.
    pub fn set_stance(&mut self, queue: &mut CommandQueue, stance: Stance)
        ensures
            *final(self) == (WheelState { stance, ..*old(self) }),
            final(queue).commands() == (if old(self).stance != stance {
                old(queue).commands().push(
                    CommandView::Meter { key: "wheel_stance"@, value: stance_code(stance) },
                )
            } else {
                old(queue).commands()
            }),
    {
        if self.stance != stance {
            self.stance = stance;
            let code: i32 = match stance {
                Stance::Brace => 0,
                Stance::Vault => 1,
            };
            queue.meter("wheel_stance", code);
        }
    }

    /// Selects `tool`; a change is metered as `wheel_tool`.
    pub fn set_tool(&mut self, queue: &mut CommandQueue, tool: ToolSlot)
        ensures
            *final(self) == (WheelState { tool, ..*old(self) }),
            final(queue).commands() == (if old(self).tool != tool {
                old(queue).commands().push(
                    CommandView::Meter { key: "wheel_tool"@, value: tool_code(tool) },
                )
            } else {
                old(queue).commands()
            }),
    {
        if self.tool != tool {
            self.tool = tool;
            let code: i32 = match tool {
                ToolSlot::A => 0,
                ToolSlot::B => 1,
            };
            queue.meter("wheel_tool", code);
        }
    }

    /// Switches overwatch; a change is metered as `wheel_overwatch`.
    pub fn set_overwatch(&mut self, queue: &mut CommandQueue, enabled: bool)
        ensures
            *final(self) == (WheelState { overwatch: enabled, ..*old(self) }),
            final(queue).commands() == (if old(self).overwatch != enabled {
                old(queue).commands().push(
                    CommandView::Meter { key: "wheel_overwatch"@, value: flag_code(enabled) },
                )
            } else {
                old(queue).commands()
            }),
    {
        if self.overwatch != enabled {
            self.overwatch = enabled;
            queue.meter("wheel_overwatch", if enabled { 1 } else { 0 });
        }
    }

    /// Switches move mode; a change is metered as `wheel_move`.
    pub fn set_move_mode(&mut self, queue: &mut CommandQueue, enabled: bool)
        ensures
            *final(self) == (WheelState { move_mode: enabled, ..*old(self) }),
            final(queue).commands() == (if old(self).move_mode != enabled {
                old(queue).commands().push(
                    CommandView::Meter { key: "wheel_move"@, value: flag_code(enabled) },
                )
            } else {
                old(queue).commands()
            }),
    {
        if self.move_mode != enabled {
            self.move_mode = enabled;
            queue.meter("wheel_move", if enabled { 1 } else { 0 });
        }
    }

    /// Switches slow motion; this is not metered.
    pub fn set_slowmo(&mut self, queue: &mut CommandQueue, enabled: bool)
        ensures
            *final(self) == (WheelState { slowmo_enabled: enabled, ..*old(self) }),
            final(queue).commands() == old(queue).commands(),
    {
        if self.slowmo_enabled != enabled {
            self.slowmo_enabled = enabled;
        }
    }
}

/// Single-player hard pause.
#[derive(Debug, Clone, Copy, PartialEq, Eq, Structural)]
pub struct PauseState {
    pub hard_paused_sp: bool,
}

impl Default for PauseState {
    fn default() -> (r: Self)
        ensures
            r == (PauseState { hard_paused_sp: false }),
    {
        PauseState { hard_paused_sp: false }
    }
}

impl PauseState {
    /// Sets the hard pause; a change is metered as `wheel_hard_pause`.
    pub fn set_hard_pause(&mut self, queue: &mut CommandQueue, paused: bool)
        ensures
            final(self).hard_paused_sp == paused,
            final(queue).commands() == (if old(self).hard_paused_sp != paused {
                old(queue).commands().push(
                    CommandView::Meter { key: "wheel_hard_pause"@, value: flag_code(paused) },
                )
            } else {
                old(queue).commands()
            }),
    {
        if self.hard_paused_sp != paused {
            self.hard_paused_sp = paused;
            queue.meter("wheel_hard_pause", if paused { 1 } else { 0 });
        }
    }
}

} // verus!
