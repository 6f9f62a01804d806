use vstd::prelude::*;
use crate::command_queue::{CommandQueue, CommandView};
use super::pause_wheel::{flag_code, stance_code, tool_code, PauseState, Stance, ToolSlot, WheelState};

verus! {

/// One pause-wheel input.
#[derive(Debug, Clone, Copy, PartialEq, Eq, Structural)]
pub enum WheelInputAction {
    SetStance(Stance),
    SetTool(ToolSlot),
    SetOverwatch(bool),
    SetMoveMode(bool),
    SetSlowmo(bool),
    SetHardPause(bool),
}

/// Wheel state, pause state and queued commands, as one value.
pub struct WheelWorld {
    pub wheel: WheelState,
    pub pause: PauseState,
    pub commands: Seq<CommandView>,
}

/// `commands` with a meter entry appended when `changed`.
pub open spec fn meter_if(changed: bool, commands: Seq<CommandView>, key: Seq<char>, value: i32) -> Seq<CommandView> {
    if changed {
        commands.push(CommandView::Meter { key, value })
    } else {
        commands
    }
}

/// Effect of one action; a hard-pause action does nothing unless `allow_hard_pause`.
pub open spec fn apply_action(w: WheelWorld, action: WheelInputAction, allow_hard_pause: bool) -> WheelWorld {
    match action {
        WheelInputAction::SetStance(s) => WheelWorld {
            wheel: WheelState { stance: s, ..w.wheel },
            commands: meter_if(w.wheel.stance != s, w.commands, "wheel_stance"@, stance_code(s)),
            ..w
        },
        WheelInputAction::SetTool(t) => WheelWorld {
            wheel: WheelState { tool: t, ..w.wheel },
            commands: meter_if(w.wheel.tool != t, w.commands, "wheel_tool"@, tool_code(t)),
            ..w
        },
        WheelInputAction::SetOverwatch(b) => WheelWorld {
            wheel: WheelState { overwatch: b, ..w.wheel },
            commands: meter_if(w.wheel.overwatch != b, w.commands, "wheel_overwatch"@, flag_code(b)),
            ..w
        },
        WheelInputAction::SetMoveMode(b) => WheelWorld {
            wheel: WheelState { move_mode: b, ..w.wheel },
            commands: meter_if(w.wheel.move_mode != b, w.commands, "wheel_move"@, flag_code(b)),
            ..w
        },
        WheelInputAction::SetSlowmo(b) => WheelWorld {
            wheel: WheelState { slowmo_enabled: b, ..w.wheel },
            ..w
        },
        WheelInputAction::SetHardPause(b) => if allow_hard_pause {
            WheelWorld {
                pause: PauseState { hard_paused_sp: b },
                commands: meter_if(
                    w.pause.hard_paused_sp != b,
                    w.commands,
                    "wheel_hard_pause"@,
                    flag_code(b),
                ),
                ..w
            }
        } else {
            w
        },
    }
}

/// Effect of a sequence of actions, applied in order.
pub open spec fn apply_actions(w: WheelWorld, actions: Seq<WheelInputAction>, allow_hard_pause: bool) -> WheelWorld
    decreases actions.len(),
{
    if actions.len() == 0 {
        w
    } else {
        apply_action(apply_actions(w, actions.drop_last(), allow_hard_pause), actions.last(), allow_hard_pause)
    }
}

/// Which of the pause-wheel keys are held: 1/2 pick Brace/Vault, 3/4 pick tool A/B,
/// O holds overwatch, M move mode, L slow motion and Space the hard pause.
#[derive(Debug, Clone, Copy, PartialEq, Eq, Structural)]
pub struct WheelKeys {
    pub digit1: bool,
    pub digit2: bool,
    pub digit3: bool,
    pub digit4: bool,
    pub key_o: bool,
    pub key_m: bool,
    pub key_l: bool,
    pub space: bool,
}

/// Effect of the held keys: 2 wins over 1 and 4 over 3; the toggles follow their keys.
pub open spec fn apply_keys(w: WheelWorld, keys: WheelKeys, allow_hard_pause: bool) -> WheelWorld {
    let w1 = if keys.digit2 {
        apply_action(w, WheelInputAction::SetStance(Stance::Vault), true)
    } else if keys.digit1 {
        apply_action(w, WheelInputAction::SetStance(Stance::Brace), true)
    } else {
        w
    };
    let w2 = if keys.digit4 {
        apply_action(w1, WheelInputAction::SetTool(ToolSlot::B), true)
    } else if keys.digit3 {
        apply_action(w1, WheelInputAction::SetTool(ToolSlot::A), true)
    } else {
        w1
    };
    let w3 = apply_action(w2, WheelInputAction::SetOverwatch(keys.key_o), true);
    let w4 = apply_action(w3, WheelInputAction::SetMoveMode(keys.key_m), true);
    let w5 = apply_action(w4, WheelInputAction::SetSlowmo(keys.key_l), true);
    apply_action(w5, WheelInputAction::SetHardPause(keys.space), allow_hard_pause)
}

/// Pause-wheel actions waiting to be applied.
#[derive(Debug)]
pub struct WheelInputQueue {
    actions: Vec<WheelInputAction>,
}

impl WheelInputQueue {
    /// The waiting actions, oldest first.
    pub closed spec fn pending(&self) -> Seq<WheelInputAction> {
        self.actions@
    }

    /// An empty queue.
    pub fn new() -> (r: Self)
        ensures
            r.pending().len() == 0,
    {
        WheelInputQueue { actions: Vec::new() }
    }

    /// Queues one action.
    pub fn push(&mut self, action: WheelInputAction)
        ensures
            final(self).pending() == old(self).pending().push(action),
    {
        self.actions.push(action);
    }

    /// Queues several actions, in order.
    pub fn extend(&mut self, actions: Vec<WheelInputAction>)
        ensures
            final(self).pending() == old(self).pending() + actions@,
    {
        let mut i: usize = 0;
        let ghost start = self.actions@;
        while i < actions.len()
            invariant
                i <= actions@.len(),
                self.actions@ == start + actions@.take(i as int),
            decreases actions.len() - i,
        {
            self.actions.push(actions[i]);
            assert(actions@.take(i + 1) == actions@.take(i as int).push(actions@[i as int]));
            i = i + 1;
        }
        assert(actions@.take(actions@.len() as int) == actions@);
    }

    /// Takes every waiting action out, leaving the queue empty.
    pub fn take(&mut self) -> (r: Vec<WheelInputAction>)
        ensures
            r@ == old(self).pending(),
            final(self).pending().len() == 0,
    {
        let mut out: Vec<WheelInputAction> = Vec::new();
        std::mem::swap(&mut out, &mut self.actions);
        out
    }
}

fn apply_one(
    wheel: &mut WheelState,
    pause: &mut PauseState,
    queue: &mut CommandQueue,
    action: WheelInputAction,
    allow_hard_pause: bool,
)
    ensures
        (WheelWorld { wheel: *final(wheel), pause: *final(pause), commands: final(queue).commands() })
            == apply_action(
            WheelWorld { wheel: *old(wheel), pause: *old(pause), commands: old(queue).commands() },
            action,
            allow_hard_pause,
        ),
{
    match action {
        WheelInputAction::SetStance(stance) => wheel.set_stance(queue, stance),
        WheelInputAction::SetTool(tool) => wheel.set_tool(queue, tool),
        WheelInputAction::SetOverwatch(enabled) => wheel.set_overwatch(queue, enabled),
        WheelInputAction::SetMoveMode(enabled) => wheel.set_move_mode(queue, enabled),
        WheelInputAction::SetSlowmo(enabled) => wheel.set_slowmo(queue, enabled),
        WheelInputAction::SetHardPause(enabled) => {
            if allow_hard_pause {
                pause.set_hard_pause(queue, enabled);
            }
        },
    }
}

/// Applies the queued actions in order and then the held keys, if any; hard pause is
/// only honoured outside multiplayer (`multiplayer` is `None` when there is no leg).
pub fn apply_wheel_inputs(
    wheel: &mut WheelState,
    pause: &mut PauseState,
    command_queue: &mut CommandQueue,
    input_queue: &mut WheelInputQueue,
    multiplayer: Option<bool>,
    keyboard: Option<WheelKeys>,
)
    ensures
        final(input_queue).pending().len() == 0,
        ({
            let allow = match multiplayer {
                Some(m) => !m,
                None => true,
            };
            let after_actions = apply_actions(
                WheelWorld {
                    wheel: *old(wheel),
                    pause: *old(pause),
                    commands: old(command_queue).commands(),
                },
                old(input_queue).pending(),
                allow,
            );
            let expected = match keyboard {
                Some(keys) => apply_keys(after_actions, keys, allow),
                None => after_actions,
            };
            (WheelWorld {
                wheel: *final(wheel),
                pause: *final(pause),
                commands: final(command_queue).commands(),
            }) == expected
        }),
{
    let allow_hard_pause = match multiplayer {
        Some(m) => !m,
        None => true,
    };
    let actions = input_queue.take();
    let ghost w0 = WheelWorld { wheel: *wheel, pause: *pause, commands: command_queue.commands() };
    let mut i: usize = 0;
    while i < actions.len()
        invariant
            i <= actions@.len(),
            (WheelWorld { wheel: *wheel, pause: *pause, commands: command_queue.commands() })
                == apply_actions(w0, actions@.take(i as int), allow_hard_pause),
        decreases actions.len() - i,
    {
        assert(actions@.take(i + 1).drop_last() == actions@.take(i as int));
        apply_one(wheel, pause, command_queue, actions[i], allow_hard_pause);
        i = i + 1;
    }
    assert(actions@.take(actions@.len() as int) == actions@);
    match keyboard {
        Some(keys) => apply_wheel_keys(wheel, pause, command_queue, keys, allow_hard_pause),
        None => {},
    }
}

/// Applies the held keys: 2 wins over 1 and 4 over 3, the toggles follow their keys,
/// and the hard pause follows Space when `allow_hard_pause`.
pub fn apply_wheel_keys(
    wheel: &mut WheelState,
    pause: &mut PauseState,
    command_queue: &mut CommandQueue,
    keys: WheelKeys,
    allow_hard_pause: bool,
)
    ensures
        (WheelWorld { wheel: *final(wheel), pause: *final(pause), commands: final(command_queue).commands() })
            == apply_keys(
            WheelWorld { wheel: *old(wheel), pause: *old(pause), commands: old(command_queue).commands() },
            keys,
            allow_hard_pause,
        ),
{
    if keys.digit2 {
        apply_one(wheel, pause, command_queue, WheelInputAction::SetStance(Stance::Vault), true);
    } else if keys.digit1 {
        apply_one(wheel, pause, command_queue, WheelInputAction::SetStance(Stance::Brace), true);
    }
    if keys.digit4 {
        apply_one(wheel, pause, command_queue, WheelInputAction::SetTool(ToolSlot::B), true);
    } else if keys.digit3 {
        apply_one(wheel, pause, command_queue, WheelInputAction::SetTool(ToolSlot::A), true);
    }
    apply_one(wheel, pause, command_queue, WheelInputAction::SetOverwatch(keys.key_o), true);
    apply_one(wheel, pause, command_queue, WheelInputAction::SetMoveMode(keys.key_m), true);
    apply_one(wheel, pause, command_queue, WheelInputAction::SetSlowmo(keys.key_l), true);
    apply_one(
        wheel,
        pause,
        command_queue,
        WheelInputAction::SetHardPause(keys.space),
        allow_hard_pause,
    );
}

} // verus!
