use vstd::prelude::*;
use crate::economy::types::{Pp, RouteId, Weather};
use crate::logs::m2::PostLegSummaryEntry;
use super::econ_intent::EconIntent;
use super::config::SpawnCfg;
use super::spawn::{
    budget_enemies, compute_spawn_budget, danger_defined, danger_diff_sign, danger_raw, danger_score,
    danger_value, spawn_budget_defined, SpawnBudget,
};
use crate::command_queue::{CommandQueue, CommandView};
use crate::logs::m2::{LogSwitch, MissionResultLog};
use super::missions::{missions_after_step, missions_step_effect, still_active, ActiveMissions, MissionRuntime};

verus! {

/// How a finished leg went.
#[derive(Debug, Clone, Copy, PartialEq, Eq, Structural)]
pub enum Outcome {
    Success,
    Failure,
}

/// Where a leg is.
#[derive(Debug, Clone, Copy, PartialEq, Eq, Structural)]
pub enum LegStatus {
    Loading,
    Running,
    Paused,
    Completed(Outcome),
}

/// The director's view of the current leg.
#[derive(Debug, Clone, Copy, PartialEq, Eq, Structural)]
pub struct DirectorState {
    pub leg_tick: u32,
    pub status: LegStatus,
    pub link_id: RouteId,
    pub weather: Weather,
    pub prior_danger_score: i32,
    pub rng_salt: u64,
}

impl Default for DirectorState {
    fn default() -> (r: Self)
        ensures
            r == (DirectorState {
                leg_tick: 0,
                status: LegStatus::Loading,
                link_id: RouteId(1),
                weather: Weather::Clear,
                prior_danger_score: 0,
                rng_salt: 0,
            }),
    {
        DirectorState {
            leg_tick: 0,
            status: LegStatus::Loading,
            link_id: RouteId(1),
            weather: Weather::Clear,
            prior_danger_score: 0,
            rng_salt: 0,
        }
    }
}

/// Requests made to the director from outside.
#[derive(Debug, Clone, Copy, PartialEq, Eq, Structural)]
pub struct DirectorRequests {
    pub queue_new_leg: bool,
}

/// What the director is told about the next leg.
#[derive(Debug, Clone, Copy, PartialEq, Eq, Structural)]
pub struct DirectorInputs {
    pub world_seed: u64,
    pub link_id: RouteId,
    pub day: u32,
    pub mission_minutes: u32,
    pub density_per_10k: u32,
    pub cadence_per_min: u32,
    pub player_rating: u8,
    pub pp: Pp,
}

impl Default for DirectorInputs {
    fn default() -> (r: Self)
        ensures
            r == (DirectorInputs {
                world_seed: 1,
                link_id: RouteId(1),
                day: 1,
                mission_minutes: 12,
                density_per_10k: 5,
                cadence_per_min: 3,
                player_rating: 50,
                pp: Pp(5000),
            }),
    {
        DirectorInputs {
            world_seed: 1,
            link_id: RouteId(1),
            day: 1,
            mission_minutes: 12,
            density_per_10k: 5,
            cadence_per_min: 3,
            player_rating: 50,
            pp: Pp(5000),
        }
    }
}

/// The director's bookkeeping of a leg's missions, danger and spawns.
#[derive(Debug, Clone, Copy, PartialEq, Eq, Structural)]
pub struct LegProgress {
    pub missions_ready: bool,
    pub missions_total: usize,
    pub missions_resolved: usize,
    pub any_failure: bool,
    pub current_danger_score: i32,
    pub has_prior_danger: bool,
    pub spawns_emitted: bool,
    pub needs_budget_refresh: bool,
    pub spawn_budget: Option<SpawnBudget>,
    pub prior_enemies: Option<u32>,
    pub last_link_id: Option<RouteId>,
    pub spawn_seed: u64,
}

/// Whether a status is a completed leg.
pub open spec fn is_completed(status: LegStatus) -> bool {
    status matches LegStatus::Completed(_)
}

/// The leg is over: some missions were run and all of them resolved.
pub open spec fn leg_finished(state: DirectorState, progress: LegProgress) -> bool {
    progress.missions_total > 0 && progress.missions_resolved >= progress.missions_total && !is_completed(
        state.status,
    )
}

/// End-of-tick clean-up: when every mission of a running leg has resolved, the leg is
/// completed (failed if any mission failed), the danger change is summarised, the danger
/// becomes the prior one, the pending economic intent is cleared and the leg's
/// bookkeeping is reset; then the tick counter advances. Nothing happens while paused.
pub fn cleanup_step(
    state: &mut DirectorState,
    progress: &mut LegProgress,
    econ: &mut EconIntent,
    hard_paused: bool,
) -> (summary: Option<PostLegSummaryEntry>)
    requires
        !hard_paused && leg_finished(*old(state), *old(progress)) ==> i32::MIN <= old(progress).current_danger_score
            - old(state).prior_danger_score <= i32::MAX,
    ensures
        hard_paused ==> *final(state) == *old(state) && *final(progress) == *old(progress) && *final(econ)
            == *old(econ) && summary.is_none(),
        !hard_paused && !leg_finished(*old(state), *old(progress)) ==> {
            &&& *final(state) == (DirectorState {
                leg_tick: if old(state).leg_tick == u32::MAX {
                    u32::MAX
                } else {
                    (old(state).leg_tick + 1) as u32
                },
                ..*old(state)
            })
            &&& *final(progress) == *old(progress)
            &&& *final(econ) == *old(econ)
            &&& summary.is_none()
        },
        !hard_paused && leg_finished(*old(state), *old(progress)) ==> {
            &&& final(state).status == LegStatus::Completed(
                if old(progress).any_failure {
                    Outcome::Failure
                } else {
                    Outcome::Success
                },
            )
            &&& final(state).prior_danger_score == old(progress).current_danger_score
            &&& final(state).leg_tick == (if old(state).leg_tick == u32::MAX {
                u32::MAX
            } else {
                (old(state).leg_tick + 1) as u32
            })
            &&& final(state).link_id == old(state).link_id && final(state).weather == old(state).weather
                && final(state).rng_salt == old(state).rng_salt
            &&& final(progress).has_prior_danger
            &&& !final(progress).missions_ready && !final(progress).spawns_emitted
                && final(progress).needs_budget_refresh && final(progress).spawn_budget.is_none()
            &&& *final(econ) == (EconIntent { pending_pp_delta: 0, pending_basis_overlay_bp: 0 })
            &&& summary == Some(
                PostLegSummaryEntry {
                    danger_delta: (old(progress).current_danger_score - old(state).prior_danger_score) as i32,
                    applied_pp_delta: old(econ).pending_pp_delta,
                    applied_basis_overlay: old(econ).pending_basis_overlay_bp,
                    di_bp_after: 0,
                    basis_bp_after: 0,
                },
            )
        },
{
    if hard_paused {
        return None;
    }
    let completed = match state.status {
        LegStatus::Completed(_) => true,
        _ => false,
    };
    let mut summary: Option<PostLegSummaryEntry> = None;
    if progress.missions_total > 0 && progress.missions_resolved >= progress.missions_total && !completed {
        let outcome = if progress.any_failure {
            Outcome::Failure
        } else {
            Outcome::Success
        };
        state.status = LegStatus::Completed(outcome);
        let danger_delta = progress.current_danger_score - state.prior_danger_score;
        summary = Some(
            PostLegSummaryEntry {
                danger_delta,
                applied_pp_delta: econ.pending_pp_delta,
                applied_basis_overlay: econ.pending_basis_overlay_bp,
                di_bp_after: 0,
                basis_bp_after: 0,
            },
        );
        state.prior_danger_score = progress.current_danger_score;
        progress.has_prior_danger = true;
        econ.clear();
        progress.missions_ready = false;
        progress.spawns_emitted = false;
        progress.spawn_budget = None;
        progress.needs_budget_refresh = true;
    }
    state.leg_tick = state.leg_tick.saturating_add(1);
    summary
}


/// State after a new-leg request: the leg goes back to loading and its bookkeeping is
/// reset (the prior budget is forgotten when the link changes).
pub open spec fn after_new_leg_request(s: DirectorState, p: LegProgress, i: DirectorInputs, requested: bool) -> (DirectorState, LegProgress) {
    if requested {
        (
            DirectorState { status: LegStatus::Loading, ..s },
            LegProgress {
                prior_enemies: if p.last_link_id != Some(i.link_id) {
                    None
                } else {
                    p.prior_enemies
                },
                missions_ready: false,
                spawn_budget: None,
                spawns_emitted: false,
                missions_resolved: 0,
                missions_total: 0,
                any_failure: false,
                needs_budget_refresh: true,
                ..p
            },
        )
    } else {
        (s, p)
    }
}

/// State after preparing a leg with `active` missions on the requested link.
pub open spec fn prepared_leg(s: DirectorState, p: LegProgress, i: DirectorInputs, active: usize) -> (DirectorState, LegProgress) {
    (
        DirectorState { link_id: i.link_id, leg_tick: 0, ..s },
        LegProgress {
            missions_total: active,
            missions_resolved: 0,
            any_failure: false,
            missions_ready: true,
            spawn_budget: None,
            spawns_emitted: false,
            needs_budget_refresh: true,
            last_link_id: Some(i.link_id),
            ..p
        },
    )
}

/// The enemy budget a refresh computes.
pub open spec fn refreshed_enemies(s: DirectorState, p: LegProgress, i: DirectorInputs, cfg: SpawnCfg) -> int {
    budget_enemies(i.pp, s.weather, p.prior_enemies, cfg, None)
}

/// The danger score a refresh computes.
pub open spec fn refreshed_danger(s: DirectorState, p: LegProgress, i: DirectorInputs, cfg: SpawnCfg) -> i32 {
    danger_value(
        danger_raw(
            refreshed_enemies(s, p, i, cfg) as u32,
            i.mission_minutes,
            i.density_per_10k,
            i.cadence_per_min,
        ),
        i.player_rating,
    )
}

/// The director's tick: answers a new-leg request, prepares a loading leg (with `active`
/// configured missions), starts it, and refreshes the spawn budget and danger score
/// when due, metering the danger and, once there is a prior one, the sign of its change.
/// `spawn_seed` is the leg's spawn seed. Nothing happens while paused or without a
/// configuration.
pub open spec fn director_tick_spec(
    s: DirectorState,
    p: LegProgress,
    i: DirectorInputs,
    requested: bool,
    cfg: SpawnCfg,
    active: usize,
    spawn_seed: u64,
    cmds: Seq<CommandView>,
) -> (DirectorState, LegProgress, Seq<CommandView>) {
    let (s1, p1) = after_new_leg_request(s, p, i, requested);
    let (s2, p2) = if !p1.missions_ready && s1.status == LegStatus::Loading {
        prepared_leg(s1, p1, i, active)
    } else {
        (s1, p1)
    };
    if !p2.missions_ready {
        (s2, p2, cmds)
    } else {
        let s3 = if s2.status == LegStatus::Loading {
            DirectorState { status: LegStatus::Running, ..s2 }
        } else {
            s2
        };
        if p2.needs_budget_refresh {
            let enemies = refreshed_enemies(s3, p2, i, cfg) as u32;
            let danger = refreshed_danger(s3, p2, i, cfg);
            let c1 = cmds.push(CommandView::Meter { key: "danger_score"@, value: danger });
            let c2 = if p2.has_prior_danger {
                c1.push(
                    CommandView::Meter {
                        key: "danger_diff"@,
                        value: if danger < s3.prior_danger_score {
                            -1i32
                        } else if danger == s3.prior_danger_score {
                            0i32
                        } else {
                            1i32
                        },
                    },
                )
            } else {
                c1
            };
            (
                DirectorState { rng_salt: spawn_seed, ..s3 },
                LegProgress {
                    spawn_seed,
                    current_danger_score: danger,
                    spawn_budget: Some(SpawnBudget { enemies, obstacles: 0 }),
                    prior_enemies: Some(enemies),
                    spawns_emitted: false,
                    needs_budget_refresh: false,
                    ..p2
                },
                c2,
            )
        } else {
            (s3, p2, cmds)
        }
    }
}

/// The inputs on which a refresh stays within `i32`.
pub open spec fn director_tick_defined(s: DirectorState, p: LegProgress, i: DirectorInputs, requested: bool, cfg: SpawnCfg, active: usize) -> bool {
    let (s1, p1) = after_new_leg_request(s, p, i, requested);
    let (s2, p2) = if !p1.missions_ready && s1.status == LegStatus::Loading {
        prepared_leg(s1, p1, i, active)
    } else {
        (s1, p1)
    };
    &&& spawn_budget_defined(i.pp, s2.weather, cfg, None)
    &&& danger_defined(
        budget_enemies(i.pp, s2.weather, p2.prior_enemies, cfg, None) as u32,
        i.mission_minutes,
        i.density_per_10k,
        i.cadence_per_min,
    )
}

/// Runs the director's tick (see `director_tick_spec`); `cfg` is `None` until the
/// configuration is loaded.
pub fn director_tick(
    state: &mut DirectorState,
    progress: &mut LegProgress,
    inputs: &DirectorInputs,
    requests: &mut DirectorRequests,
    hard_paused: bool,
    cfg: Option<&SpawnCfg>,
    active_missions: usize,
    spawn_seed: u64,
    queue: &mut CommandQueue,
)
    requires
        cfg matches Some(c) ==> director_tick_defined(
            *old(state),
            *old(progress),
            *inputs,
            old(requests).queue_new_leg,
            *c,
            active_missions,
        ),
    ensures
        (hard_paused || cfg.is_none()) ==> *final(state) == *old(state) && *final(progress) == *old(progress)
            && *final(requests) == *old(requests) && final(queue).commands() == old(queue).commands(),
        (!hard_paused && cfg.is_some()) ==> {
            &&& (*final(state), *final(progress), final(queue).commands()) == director_tick_spec(
                *old(state),
                *old(progress),
                *inputs,
                old(requests).queue_new_leg,
                *cfg.unwrap(),
                active_missions,
                spawn_seed,
                old(queue).commands(),
            )
            &&& !final(requests).queue_new_leg
        },
{
    if hard_paused {
        return;
    }
    let cfg = match cfg {
        Some(c) => c,
        None => return,
    };
    if requests.queue_new_leg {
        if progress.last_link_id != Some(inputs.link_id) {
            progress.prior_enemies = None;
        }
        state.status = LegStatus::Loading;
        progress.missions_ready = false;
        progress.spawn_budget = None;
        progress.spawns_emitted = false;
        progress.missions_resolved = 0;
        progress.missions_total = 0;
        progress.any_failure = false;
        progress.needs_budget_refresh = true;
        requests.queue_new_leg = false;
    }
    let loading = match state.status {
        LegStatus::Loading => true,
        _ => false,
    };
    if !progress.missions_ready && loading {
        progress.missions_total = active_missions;
        progress.missions_resolved = 0;
        progress.any_failure = false;
        progress.missions_ready = true;
        progress.spawn_budget = None;
        progress.spawns_emitted = false;
        progress.needs_budget_refresh = true;
        progress.last_link_id = Some(inputs.link_id);
        state.link_id = inputs.link_id;
        state.leg_tick = 0;
    }
    if !progress.missions_ready {
        return;
    }
    if loading {
        state.status = LegStatus::Running;
    }
    if progress.needs_budget_refresh {
        let budget = compute_spawn_budget(inputs.pp, state.weather, progress.prior_enemies, cfg, None);
        let danger = danger_score(
            &budget,
            inputs.mission_minutes,
            inputs.density_per_10k,
            inputs.cadence_per_min,
            inputs.player_rating,
        );
        queue.meter("danger_score", danger);
        if progress.has_prior_danger {
            let diff = danger_diff_sign(danger, state.prior_danger_score);
            queue.meter("danger_diff", diff);
        }
        progress.spawn_seed = spawn_seed;
        progress.current_danger_score = danger;
        state.rng_salt = spawn_seed;
        progress.spawn_budget = Some(budget);
        progress.prior_enemies = Some(budget.enemies);
        progress.spawns_emitted = false;
        progress.needs_budget_refresh = false;
    }
}


/// The director's missions stage: unless paused or unconfigured, the active missions tick
/// once; resolutions are applied and metered, counted (saturating) and any failure is
/// remembered. Returns the log lines to write.
pub fn missions_system(
    runtime: &mut MissionRuntime,
    active: &mut ActiveMissions,
    progress: &mut LegProgress,
    econ: &mut EconIntent,
    queue: &mut CommandQueue,
    logs: &LogSwitch,
    hard_paused: bool,
    configured: bool,
) -> (r: Vec<MissionResultLog>)
    ensures
        (hard_paused || !configured) ==> *final(runtime) == *old(runtime) && *final(active) == *old(active)
            && *final(progress) == *old(progress) && *final(econ) == *old(econ) && final(queue).commands()
            == old(queue).commands() && r@.len() == 0,
        (!hard_paused && configured) ==> {
            let (e, c, n, f) = missions_step_effect(*old(runtime), *old(active), *old(econ), old(queue).commands());
            &&& *final(runtime) == missions_after_step(*old(runtime), *old(active))
            &&& *final(active) == still_active(*old(runtime), *old(active))
            &&& *final(econ) == e
            &&& final(queue).commands() == c
            &&& final(progress).any_failure == (old(progress).any_failure || f)
            &&& final(progress).missions_resolved == (if old(progress).missions_resolved + n > usize::MAX {
                usize::MAX as int
            } else {
                old(progress).missions_resolved + n
            })
            &&& *final(progress) == (LegProgress {
                any_failure: final(progress).any_failure,
                missions_resolved: final(progress).missions_resolved,
                ..*old(progress)
            })
        },
{
    if hard_paused || !configured {
        return Vec::new();
    }
    let (resolved, failed, lines) = runtime.missions_step(active, econ, queue, logs);
    if failed {
        progress.any_failure = true;
    }
    progress.missions_resolved = progress.missions_resolved.saturating_add(resolved);
    lines
}

} // verus!
