use vstd::prelude::*;
use crate::command_queue::{Command, CommandView};
use crate::director::spawn::SpawnBudget;

verus! {

/// Whether the director's logs are written.
#[derive(Debug, Clone, Copy, PartialEq, Eq, Structural)]
pub struct LogSwitch {
    pub enabled: bool,
}

/// Turns the director's logs on or off.
pub fn set_enabled(switch: &mut LogSwitch, enabled: bool)
    ensures
        final(switch).enabled == enabled,
{
    switch.enabled = enabled;
}

/// Spawn budget of a tick, as logged.
#[derive(Debug, Clone)]
pub struct SpawnBudgetLog {
    pub tick: u32,
    pub link_id: String,
    pub pp: i32,
    pub weather: String,
    pub budget: Budget,
}

/// A logged budget with an optional note.
#[derive(Debug, Clone)]
pub struct Budget {
    pub enemies: u32,
    pub obstacles: u32,
    pub note: Option<String>,
}

/// A mission outcome, as logged.
#[derive(Debug, Clone)]
pub struct MissionResultLog {
    pub name: String,
    pub outcome: String,
    pub pp_delta: i16,
    pub basis_bp_overlay: i16,
}

/// Summary of a finished leg, as logged.
#[derive(Debug, Clone, Copy, PartialEq, Eq, Structural)]
pub struct PostLegSummaryLog {
    pub danger_delta: i32,
    pub applied_pp_delta: i16,
    pub applied_basis_overlay: i16,
    pub di_bp_after: i16,
    pub basis_bp_after: i16,
}

/// Accepts a spawn-budget record; this build writes none, so it always succeeds.
pub fn write_spawn_budget(log: SpawnBudgetLog) -> (r: Result<(), ()>)
    ensures
        r is Ok,
{
    Ok(())
}

/// Accepts a mission-result record; this build writes none, so it always succeeds.
pub fn write_mission_result(log: MissionResultLog) -> (r: Result<(), ()>)
    ensures
        r is Ok,
{
    Ok(())
}

/// Accepts a leg-summary record; this build writes none, so it always succeeds.
pub fn write_post_leg_summary(log: PostLegSummaryLog) -> (r: Result<(), ()>)
    ensures
        r is Ok,
{
    Ok(())
}

/// One line of `spawn_budget.jsonl`.
#[derive(Debug, Clone)]
pub struct SpawnBudgetEntry {
    pub tick: u32,
    pub link_id: u16,
    pub pp: u16,
    pub weather: String,
    pub budget: SpawnBudget,
}

/// The spawn-budget line to write, or `None` when logging is off.
pub fn log_spawn_budget(switch: &LogSwitch, tick: u32, link_id: u16, pp: u16, weather: &str, budget: &SpawnBudget) -> (r: Option<SpawnBudgetEntry>)
    ensures
        r is Some <==> switch.enabled,
        r matches Some(e) ==> e.tick == tick && e.link_id == link_id && e.pp == pp && e.weather@ == weather@
            && e.budget == *budget,
{
    if !switch.enabled {
        return None;
    }
    Some(SpawnBudgetEntry { tick, link_id, pp, weather: weather.to_owned(), budget: *budget })
}

/// One line of `post_leg_summary.jsonl`.
#[derive(Debug, Clone, Copy, PartialEq, Eq, Structural)]
pub struct PostLegSummaryEntry {
    pub danger_delta: i32,
    pub applied_pp_delta: i16,
    pub applied_basis_overlay: i16,
    pub di_bp_after: i32,
    pub basis_bp_after: i32,
}

/// The leg-summary line to write, or `None` when logging is off.
pub fn log_post_leg_summary(
    switch: &LogSwitch,
    danger_delta: i32,
    applied_pp_delta: i16,
    applied_basis_overlay: i16,
    di_bp_after: i32,
    basis_bp_after: i32,
) -> (r: Option<PostLegSummaryEntry>)
    ensures
        r == (if switch.enabled {
            Some(PostLegSummaryEntry { danger_delta, applied_pp_delta, applied_basis_overlay, di_bp_after, basis_bp_after })
        } else {
            None
        }),
{
    if !switch.enabled {
        return None;
    }
    Some(PostLegSummaryEntry { danger_delta, applied_pp_delta, applied_basis_overlay, di_bp_after, basis_bp_after })
}

/// One line of `leg_duration_tolerance.jsonl`.
#[derive(Debug, Clone, Copy, PartialEq, Eq, Structural)]
pub struct DurationClampEntry {
    pub mission_minutes: u32,
    pub tolerance_ticks: u32,
    pub attempted_tick: u32,
    pub clamped_tick: u32,
}

/// The leg-duration line to write, or `None` when logging is off.
pub fn log_leg_duration_clamped(
    switch: &LogSwitch,
    mission_minutes: u32,
    tolerance_ticks: u32,
    attempted_tick: u32,
    clamped_tick: u32,
) -> (r: Option<DurationClampEntry>)
    ensures
        r == (if switch.enabled {
            Some(DurationClampEntry { mission_minutes, tolerance_ticks, attempted_tick, clamped_tick })
        } else {
            None
        }),
{
    if !switch.enabled {
        return None;
    }
    Some(DurationClampEntry { mission_minutes, tolerance_ticks, attempted_tick, clamped_tick })
}

/// The mission-result line to write, or `None` when logging is off.
pub fn log_mission_result(switch: &LogSwitch, name: &str, outcome: &str, pp_delta: i16, basis_bp_overlay: i16) -> (r: Option<MissionResultLog>)
    ensures
        r is Some <==> switch.enabled,
        r matches Some(e) ==> e.name@ == name@ && e.outcome@ == outcome@ && e.pp_delta == pp_delta
            && e.basis_bp_overlay == basis_bp_overlay,
{
    if !switch.enabled {
        return None;
    }
    Some(MissionResultLog { name: name.to_owned(), outcome: outcome.to_owned(), pp_delta, basis_bp_overlay })
}

/// A replay mismatch, as logged: the tick, the recorded command and the replayed one.
#[derive(Debug, Clone)]
pub struct ReplayMismatchLog {
    pub tick: u32,
    pub expected: Option<Command>,
    pub got: Option<Command>,
}

/// Accepts a replay-mismatch record; this build writes none, so it always succeeds.
pub fn write_replay_mismatch(log: ReplayMismatchLog) -> (r: Result<(), ()>)
    ensures
        r is Ok,
{
    Ok(())
}

/// The view of an optional command.
pub open spec fn opt_command_view(c: Option<Command>) -> Option<CommandView> {
    match c {
        Some(c) => Some(c@),
        None => None,
    }
}

fn copy_command(c: Option<&Command>) -> (r: Option<Command>)
    ensures
        opt_command_view(r) == (match c {
            Some(c) => Some(c@),
            None => None::<CommandView>,
        }),
{
    match c {
        Some(c) => Some(c.duplicate()),
        None => None,
    }
}

/// The replay-mismatch line to write, or `None` when logging is off.
pub fn log_replay_mismatch(
    switch: &LogSwitch,
    tick: u32,
    expected: Option<&Command>,
    actual: Option<&Command>,
) -> (r: Option<ReplayMismatchLog>)
    ensures
        r is Some <==> switch.enabled,
        r matches Some(e) ==> e.tick == tick && opt_command_view(e.expected) == (match expected {
            Some(c) => Some(c@),
            None => None::<CommandView>,
        }) && opt_command_view(e.got) == (match actual {
            Some(c) => Some(c@),
            None => None::<CommandView>,
        }),
{
    if !switch.enabled {
        return None;
    }
    Some(ReplayMismatchLog { tick, expected: copy_command(expected), got: copy_command(actual) })
}

} // verus!
