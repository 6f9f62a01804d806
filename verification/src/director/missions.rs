use vstd::prelude::*;
use crate::command_queue::{CommandQueue, CommandView};
use crate::economy::types::RouteId;
use super::config::MissionCfg;
use super::econ_intent::EconIntent;
use crate::logs::m2::{log_mission_result, LogSwitch, MissionResultLog};
use super::rng::{
    coin, hash_mission_name, mission_id_of, mission_key, mission_seed, range_u32_result,
    splitmix_advance, wyhash_digest, DetRng,
};

verus! {

/// Outcome of a mission with its economic effect.
#[derive(Debug, Clone, Copy, PartialEq, Eq, Structural)]
pub enum MissionResult {
    Success { pp_delta: i16, basis_bp_overlay: i16 },
    Fail { pp_delta: i16, basis_bp_overlay: i16 },
}

/// A mission that is seeded once and then advanced tick by tick until it resolves.
pub trait Mission {
    /// Prepares the mission from its seed and configuration.
    fn init(&mut self, seed: u64, cfg: &MissionCfg);

    /// Advances the mission by `dt_ticks`; returns the outcome on the tick it resolves.
    fn tick(&mut self, dt_ticks: u32) -> Option<MissionResult>;
}

/// The success outcome configured in `cfg`.
pub open spec fn success_of(cfg: MissionCfg) -> MissionResult {
    MissionResult::Success { pp_delta: cfg.pp_success, basis_bp_overlay: cfg.basis_bp_success }
}

/// The failure outcome configured in `cfg`.
pub open spec fn fail_of(cfg: MissionCfg) -> MissionResult {
    MissionResult::Fail { pp_delta: cfg.pp_fail, basis_bp_overlay: cfg.basis_bp_fail }
}

/// The outcome for `success` under `cfg`.
pub open spec fn outcome_of(cfg: MissionCfg, success: bool) -> MissionResult {
    if success {
        success_of(cfg)
    } else {
        fail_of(cfg)
    }
}

fn success_result(cfg: &MissionCfg) -> (r: MissionResult)
    ensures
        r == success_of(*cfg),
{
    MissionResult::Success { pp_delta: cfg.pp_success, basis_bp_overlay: cfg.basis_bp_success }
}

fn fail_result(cfg: &MissionCfg) -> (r: MissionResult)
    ensures
        r == fail_of(*cfg),
{
    MissionResult::Fail { pp_delta: cfg.pp_fail, basis_bp_overlay: cfg.basis_bp_fail }
}

/// `a + b`, saturating at `u32::MAX`.
pub open spec fn sat_add_u32(a: u32, b: u32) -> u32 {
    if a + b > u32::MAX {
        u32::MAX
    } else {
        (a + b) as u32
    }
}

/// A rain-flag uplink: resolves after 90 to 120 ticks with a coin-flip outcome.
#[derive(Debug, Clone, Copy, PartialEq, Eq, Structural)]
pub struct RainFlagUplink {
    pub cfg: MissionCfg,
    pub resolve_at: u32,
    pub elapsed: u32,
    pub success: bool,
    pub done: bool,
}

/// A Sourvault evacuation: resolves after 120 to 180 ticks with a coin-flip outcome.
#[derive(Debug, Clone, Copy, PartialEq, Eq, Structural)]
pub struct SourvaultEvac {
    pub cfg: MissionCfg,
    pub hazard_budget: u32,
    pub elapsed: u32,
    pub done: bool,
    pub success: bool,
}

/// Breaking the chain: one target falls per ticking step; succeeds when 3 to 7 are down.
#[derive(Debug, Clone, Copy, PartialEq, Eq, Structural)]
pub struct BreakTheChain {
    pub cfg: MissionCfg,
    pub targets: u32,
    pub destroyed: u32,
    pub done: bool,
}

/// Wayleave default: reach 2 to 5 checkpoints (one whenever the elapsed count is a
/// multiple of 40) before a deadline of 150 to 200 ticks.
#[derive(Debug, Clone, Copy, PartialEq, Eq, Structural)]
pub struct WayleaveDefault {
    pub cfg: MissionCfg,
    pub checkpoints: u32,
    pub reached: u32,
    pub deadline: u32,
    pub elapsed: u32,
    pub done: bool,
}

/// An anchor audit: resolves after 100 to 125 ticks with a coin-flip outcome.
#[derive(Debug, Clone, Copy, PartialEq, Eq, Structural)]
pub struct AnchorAudit {
    pub cfg: MissionCfg,
    pub scan_ticks: u32,
    pub elapsed: u32,
    pub done: bool,
    pub success: bool,
}

/// Elapsed count, done flag and outcome after one tick of a mission that resolves once
/// `elapsed` reaches `deadline`.
pub open spec fn timed_tick(
    done: bool,
    elapsed: u32,
    deadline: u32,
    success: bool,
    cfg: MissionCfg,
    dt: u32,
) -> (u32, bool, Option<MissionResult>) {
    if done {
        (elapsed, true, None)
    } else {
        let e = sat_add_u32(elapsed, dt);
        if e >= deadline {
            (e, true, Some(outcome_of(cfg, success)))
        } else {
            (e, false, None)
        }
    }
}

impl RainFlagUplink {
    /// The mission as prepared from `seed` and `cfg`.
    pub open spec fn initial(seed: u64, cfg: MissionCfg) -> RainFlagUplink {
        let (s1, d) = range_u32_result(seed, 0, 30);
        RainFlagUplink { cfg, resolve_at: (90 + d) as u32, elapsed: 0, success: coin(s1), done: false }
    }

    /// The mission after one tick of `dt` ticks, and its outcome if it resolved.
    pub open spec fn ticked(self, dt: u32) -> (RainFlagUplink, Option<MissionResult>) {
        let (e, d, out) = timed_tick(self.done, self.elapsed, self.resolve_at, self.success, self.cfg, dt);
        (RainFlagUplink { elapsed: e, done: d, ..self }, out)
    }
}

impl Default for RainFlagUplink {
    fn default() -> (r: Self)
        ensures
            r == (RainFlagUplink {
                cfg: MissionCfg { pp_success: 0, pp_fail: 0, basis_bp_success: 0, basis_bp_fail: 0 },
                resolve_at: 0,
                elapsed: 0,
                success: false,
                done: false,
            }),
    {
        RainFlagUplink { cfg: MissionCfg::default(), resolve_at: 0, elapsed: 0, success: false, done: false }
    }
}

impl Mission for RainFlagUplink {
    fn init(&mut self, seed: u64, cfg: &MissionCfg)
        ensures
            *final(self) == RainFlagUplink::initial(seed, *cfg),
    {
        self.cfg = *cfg;
        let mut rng = DetRng::from_seed(seed);
        self.resolve_at = 90 + rng.range_u32(0, 30);
        self.elapsed = 0;
        self.success = rng.next_bool();
        self.done = false;
    }

    fn tick(&mut self, dt_ticks: u32) -> (r: Option<MissionResult>)
        ensures
            (*final(self), r) == old(self).ticked(dt_ticks),
    {
        if self.done {
            return None;
        }
        self.elapsed = self.elapsed.saturating_add(dt_ticks);
        if self.elapsed >= self.resolve_at {
            self.done = true;
            if self.success {
                Some(success_result(&self.cfg))
            } else {
                Some(fail_result(&self.cfg))
            }
        } else {
            None
        }
    }
}

impl SourvaultEvac {
    /// The mission as prepared from `seed` and `cfg`.
    pub open spec fn initial(seed: u64, cfg: MissionCfg) -> SourvaultEvac {
        let (s1, d) = range_u32_result(seed, 0, 60);
        SourvaultEvac { cfg, hazard_budget: (120 + d) as u32, elapsed: 0, done: false, success: coin(s1) }
    }

    /// The mission after one tick of `dt` ticks, and its outcome if it resolved.
    pub open spec fn ticked(self, dt: u32) -> (SourvaultEvac, Option<MissionResult>) {
        let (e, d, out) = timed_tick(self.done, self.elapsed, self.hazard_budget, self.success, self.cfg, dt);
        (SourvaultEvac { elapsed: e, done: d, ..self }, out)
    }
}

impl Default for SourvaultEvac {
    fn default() -> (r: Self)
        ensures
            r == (SourvaultEvac {
                cfg: MissionCfg { pp_success: 0, pp_fail: 0, basis_bp_success: 0, basis_bp_fail: 0 },
                hazard_budget: 0,
                elapsed: 0,
                done: false,
                success: false,
            }),
    {
        SourvaultEvac { cfg: MissionCfg::default(), hazard_budget: 0, elapsed: 0, done: false, success: false }
    }
}

impl Mission for SourvaultEvac {
    fn init(&mut self, seed: u64, cfg: &MissionCfg)
        ensures
            *final(self) == SourvaultEvac::initial(seed, *cfg),
    {
        self.cfg = *cfg;
        let mut rng = DetRng::from_seed(seed);
        self.hazard_budget = 120 + rng.range_u32(0, 60);
        self.elapsed = 0;
        self.done = false;
        self.success = rng.next_bool();
    }

    fn tick(&mut self, dt_ticks: u32) -> (r: Option<MissionResult>)
        ensures
            (*final(self), r) == old(self).ticked(dt_ticks),
    {
        if self.done {
            return None;
        }
        self.elapsed = self.elapsed.saturating_add(dt_ticks);
        if self.elapsed >= self.hazard_budget {
            self.done = true;
            if self.success {
                Some(success_result(&self.cfg))
            } else {
                Some(fail_result(&self.cfg))
            }
        } else {
            None
        }
    }
}

impl BreakTheChain {
    /// The mission as prepared from `seed` and `cfg`.
    pub open spec fn initial(seed: u64, cfg: MissionCfg) -> BreakTheChain {
        let (_s1, d) = range_u32_result(seed, 0, 4);
        BreakTheChain { cfg, targets: (3 + d) as u32, destroyed: 0, done: false }
    }

    /// The mission after one tick of `dt` ticks, and its outcome if it resolved: a
    /// ticking step with `dt > 0` brings one more target down.
    pub open spec fn ticked(self, dt: u32) -> (BreakTheChain, Option<MissionResult>) {
        if self.done {
            (self, None)
        } else {
            let step: int = if dt < 1 {
                dt as int
            } else {
                1
            };
            let sum = self.destroyed + step;
            let destroyed = if sum < self.targets {
                sum as u32
            } else {
                self.targets
            };
            if destroyed >= self.targets {
                (BreakTheChain { destroyed, done: true, ..self }, Some(success_of(self.cfg)))
            } else {
                (BreakTheChain { destroyed, ..self }, None)
            }
        }
    }
}

impl Default for BreakTheChain {
    fn default() -> (r: Self)
        ensures
            r == (BreakTheChain {
                cfg: MissionCfg { pp_success: 0, pp_fail: 0, basis_bp_success: 0, basis_bp_fail: 0 },
                targets: 0,
                destroyed: 0,
                done: false,
            }),
    {
        BreakTheChain { cfg: MissionCfg::default(), targets: 0, destroyed: 0, done: false }
    }
}

impl Mission for BreakTheChain {
    fn init(&mut self, seed: u64, cfg: &MissionCfg)
        ensures
            *final(self) == BreakTheChain::initial(seed, *cfg),
    {
        self.cfg = *cfg;
        let mut rng = DetRng::from_seed(seed);
        self.targets = 3 + rng.range_u32(0, 4);
        self.destroyed = 0;
        self.done = false;
    }

    fn tick(&mut self, dt_ticks: u32) -> (r: Option<MissionResult>)
        ensures
            (*final(self), r) == old(self).ticked(dt_ticks),
    {
        if self.done {
            return None;
        }
        let step: u32 = if dt_ticks < 1 {
            dt_ticks
        } else {
            1
        };
        let sum: u64 = self.destroyed as u64 + step as u64;
        self.destroyed = if sum < self.targets as u64 {
            sum as u32
        } else {
            self.targets
        };
        if self.destroyed >= self.targets {
            self.done = true;
            Some(success_result(&self.cfg))
        } else {
            None
        }
    }
}

impl WayleaveDefault {
    /// The mission as prepared from `seed` and `cfg`.
    pub open spec fn initial(seed: u64, cfg: MissionCfg) -> WayleaveDefault {
        let (s1, c) = range_u32_result(seed, 0, 3);
        let (_s2, d) = range_u32_result(s1, 0, 50);
        WayleaveDefault {
            cfg,
            checkpoints: (2 + c) as u32,
            reached: 0,
            deadline: (150 + d) as u32,
            elapsed: 0,
            done: false,
        }
    }

    /// The mission after one tick of `dt` ticks, and its outcome if it resolved.
    pub open spec fn ticked(self, dt: u32) -> (WayleaveDefault, Option<MissionResult>) {
        if self.done {
            (self, None)
        } else {
            let e = sat_add_u32(self.elapsed, dt);
            let reached = if e % 40 == 0 && self.reached < self.checkpoints {
                (self.reached + 1) as u32
            } else {
                self.reached
            };
            let next = WayleaveDefault { elapsed: e, reached, ..self };
            if reached >= self.checkpoints {
                (WayleaveDefault { done: true, ..next }, Some(success_of(self.cfg)))
            } else if e >= self.deadline {
                (WayleaveDefault { done: true, ..next }, Some(fail_of(self.cfg)))
            } else {
                (next, None)
            }
        }
    }
}

impl Default for WayleaveDefault {
    fn default() -> (r: Self)
        ensures
            r == (WayleaveDefault {
                cfg: MissionCfg { pp_success: 0, pp_fail: 0, basis_bp_success: 0, basis_bp_fail: 0 },
                checkpoints: 0,
                reached: 0,
                deadline: 0,
                elapsed: 0,
                done: false,
            }),
    {
        WayleaveDefault {
            cfg: MissionCfg::default(),
            checkpoints: 0,
            reached: 0,
            deadline: 0,
            elapsed: 0,
            done: false,
        }
    }
}

impl Mission for WayleaveDefault {
    fn init(&mut self, seed: u64, cfg: &MissionCfg)
        ensures
            *final(self) == WayleaveDefault::initial(seed, *cfg),
    {
        self.cfg = *cfg;
        let mut rng = DetRng::from_seed(seed);
        self.checkpoints = 2 + rng.range_u32(0, 3);
        self.deadline = 150 + rng.range_u32(0, 50);
        self.reached = 0;
        self.elapsed = 0;
        self.done = false;
    }

    fn tick(&mut self, dt_ticks: u32) -> (r: Option<MissionResult>)
        ensures
            (*final(self), r) == old(self).ticked(dt_ticks),
    {
        if self.done {
            return None;
        }
        self.elapsed = self.elapsed.saturating_add(dt_ticks);
        if self.elapsed % 40 == 0 && self.reached < self.checkpoints {
            self.reached = self.reached + 1;
        }
        if self.reached >= self.checkpoints {
            self.done = true;
            Some(success_result(&self.cfg))
        } else if self.elapsed >= self.deadline {
            self.done = true;
            Some(fail_result(&self.cfg))
        } else {
            None
        }
    }
}

impl AnchorAudit {
    /// The mission as prepared from `seed` and `cfg`.
    pub open spec fn initial(seed: u64, cfg: MissionCfg) -> AnchorAudit {
        let (s1, d) = range_u32_result(seed, 0, 25);
        AnchorAudit { cfg, scan_ticks: (100 + d) as u32, elapsed: 0, done: false, success: coin(s1) }
    }

    /// The mission after one tick of `dt` ticks, and its outcome if it resolved.
    pub open spec fn ticked(self, dt: u32) -> (AnchorAudit, Option<MissionResult>) {
        let (e, d, out) = timed_tick(self.done, self.elapsed, self.scan_ticks, self.success, self.cfg, dt);
        (AnchorAudit { elapsed: e, done: d, ..self }, out)
    }
}

impl Default for AnchorAudit {
    fn default() -> (r: Self)
        ensures
            r == (AnchorAudit {
                cfg: MissionCfg { pp_success: 0, pp_fail: 0, basis_bp_success: 0, basis_bp_fail: 0 },
                scan_ticks: 0,
                elapsed: 0,
                done: false,
                success: false,
            }),
    {
        AnchorAudit { cfg: MissionCfg::default(), scan_ticks: 0, elapsed: 0, done: false, success: false }
    }
}

impl Mission for AnchorAudit {
    fn init(&mut self, seed: u64, cfg: &MissionCfg)
        ensures
            *final(self) == AnchorAudit::initial(seed, *cfg),
    {
        self.cfg = *cfg;
        let mut rng = DetRng::from_seed(seed);
        self.scan_ticks = 100 + rng.range_u32(0, 25);
        self.elapsed = 0;
        self.done = false;
        self.success = rng.next_bool();
    }

    fn tick(&mut self, dt_ticks: u32) -> (r: Option<MissionResult>)
        ensures
            (*final(self), r) == old(self).ticked(dt_ticks),
    {
        if self.done {
            return None;
        }
        self.elapsed = self.elapsed.saturating_add(dt_ticks);
        if self.elapsed >= self.scan_ticks {
            self.done = true;
            if self.success {
                Some(success_result(&self.cfg))
            } else {
                Some(fail_result(&self.cfg))
            }
        } else {
            None
        }
    }
}


/// The five missions of a leg.
#[derive(Debug, Clone, Copy, PartialEq, Eq, Structural)]
pub struct MissionRuntime {
    pub rain_flag: RainFlagUplink,
    pub sourvault: SourvaultEvac,
    pub break_chain: BreakTheChain,
    pub wayleave: WayleaveDefault,
    pub anchor_audit: AnchorAudit,
}

impl Default for MissionRuntime {
    fn default() -> (r: Self)
        ensures
            r.rain_flag.done == false && r.sourvault.done == false && r.break_chain.done == false
                && r.wayleave.done == false && r.anchor_audit.done == false,
    {
        MissionRuntime {
            rain_flag: RainFlagUplink::default(),
            sourvault: SourvaultEvac::default(),
            break_chain: BreakTheChain::default(),
            wayleave: WayleaveDefault::default(),
            anchor_audit: AnchorAudit::default(),
        }
    }
}

/// Seed of the mission called `name` on a link and day.
pub open spec fn mission_seed_for(world_seed: u64, link_id: RouteId, day: u32, name: Seq<char>) -> u64 {
    wyhash_digest(mission_key(world_seed, link_id, day, mission_id_of(name)), 0)
}

/// `rt` with the mission called `name` prepared from `seed` and `cfg`; other names
/// change nothing.
pub open spec fn init_named(rt: MissionRuntime, name: Seq<char>, cfg: MissionCfg, seed: u64) -> MissionRuntime {
    if name == "rain_flag"@ {
        MissionRuntime { rain_flag: RainFlagUplink::initial(seed, cfg), ..rt }
    } else if name == "sourvault"@ {
        MissionRuntime { sourvault: SourvaultEvac::initial(seed, cfg), ..rt }
    } else if name == "break_chain"@ {
        MissionRuntime { break_chain: BreakTheChain::initial(seed, cfg), ..rt }
    } else if name == "wayleave"@ {
        MissionRuntime { wayleave: WayleaveDefault::initial(seed, cfg), ..rt }
    } else if name == "anchor_audit"@ {
        MissionRuntime { anchor_audit: AnchorAudit::initial(seed, cfg), ..rt }
    } else {
        rt
    }
}

/// `rt` after preparing every configured mission in order.
pub open spec fn init_all_spec(
    rt: MissionRuntime,
    world_seed: u64,
    link_id: RouteId,
    day: u32,
    cfgs: Seq<(String, MissionCfg)>,
) -> MissionRuntime
    decreases cfgs.len(),
{
    if cfgs.len() == 0 {
        rt
    } else {
        let prev = init_all_spec(rt, world_seed, link_id, day, cfgs.drop_last());
        let (name, cfg) = cfgs.last();
        init_named(prev, name@, cfg, mission_seed_for(world_seed, link_id, day, name@))
    }
}

fn name_is(name: &String, expected: &str) -> (r: bool)
    ensures
        r == (name@ == expected@),
{
    *name == expected.to_owned()
}

/// Economic intent and metered commands after one mission's tick outcome.
pub open spec fn apply_outcome(
    econ: EconIntent,
    cmds: Seq<CommandView>,
    name: Seq<char>,
    result: Option<MissionResult>,
    current_tick: u32,
) -> (EconIntent, Seq<CommandView>) {
    match result {
        None => (econ, cmds),
        Some(outcome) => {
            let (pp, basis, flag) = match outcome {
                MissionResult::Success { pp_delta, basis_bp_overlay } => (pp_delta, basis_bp_overlay, 1i32),
                MissionResult::Fail { pp_delta, basis_bp_overlay } => (pp_delta, basis_bp_overlay, 0i32),
            };
            (
                EconIntent {
                    pending_pp_delta: (econ.pending_pp_delta + pp) as i16,
                    pending_basis_overlay_bp: (econ.pending_basis_overlay_bp + basis) as i16,
                },
                cmds.push(CommandView::Meter { key: "pp_delta"@, value: pp as i32 }).push(
                    CommandView::Meter { key: "basis_bp_overlay"@, value: basis as i32 },
                ).push(CommandView::Meter { key: "mission_result"@, value: flag }).push(
                    CommandView::Meter {
                        key: "mission_id"@,
                        value: (mission_id_of(name) & 0x7FFF_FFFFu64) as i32,
                    },
                ).push(CommandView::Meter { key: "mission_resolve_tick"@, value: current_tick as i32 }),
            )
        },
    }
}

/// Whether adding the outcome's deltas to `econ` stays within `i16`.
pub open spec fn outcome_fits(econ: EconIntent, result: Option<MissionResult>) -> bool {
    match result {
        None => true,
        Some(MissionResult::Success { pp_delta, basis_bp_overlay }) | Some(
            MissionResult::Fail { pp_delta, basis_bp_overlay },
        ) => i16::MIN <= econ.pending_pp_delta + pp_delta <= i16::MAX && i16::MIN
            <= econ.pending_basis_overlay_bp + basis_bp_overlay <= i16::MAX,
    }
}

/// Every mission after one tick of `dt` ticks.
pub open spec fn runtime_ticked(rt: MissionRuntime, dt: u32) -> MissionRuntime {
    MissionRuntime {
        rain_flag: rt.rain_flag.ticked(dt).0,
        sourvault: rt.sourvault.ticked(dt).0,
        break_chain: rt.break_chain.ticked(dt).0,
        wayleave: rt.wayleave.ticked(dt).0,
        anchor_audit: rt.anchor_audit.ticked(dt).0,
    }
}

/// Intent and commands after recording the five outcomes of one tick, in mission order.
pub open spec fn tick_all_effect(
    rt: MissionRuntime,
    dt: u32,
    current_tick: u32,
    econ: EconIntent,
    cmds: Seq<CommandView>,
) -> (EconIntent, Seq<CommandView>) {
    let (e1, c1) = apply_outcome(econ, cmds, "rain_flag"@, rt.rain_flag.ticked(dt).1, current_tick);
    let (e2, c2) = apply_outcome(e1, c1, "sourvault"@, rt.sourvault.ticked(dt).1, current_tick);
    let (e3, c3) = apply_outcome(e2, c2, "break_chain"@, rt.break_chain.ticked(dt).1, current_tick);
    let (e4, c4) = apply_outcome(e3, c3, "wayleave"@, rt.wayleave.ticked(dt).1, current_tick);
    apply_outcome(e4, c4, "anchor_audit"@, rt.anchor_audit.ticked(dt).1, current_tick)
}

/// Whether recording the five outcomes of one tick keeps the intent within `i16`.
pub open spec fn tick_all_fits(rt: MissionRuntime, dt: u32, econ: EconIntent) -> bool {
    let e0 = econ;
    let e1 = apply_outcome(e0, Seq::empty(), "rain_flag"@, rt.rain_flag.ticked(dt).1, 0).0;
    let e2 = apply_outcome(e1, Seq::empty(), "sourvault"@, rt.sourvault.ticked(dt).1, 0).0;
    let e3 = apply_outcome(e2, Seq::empty(), "break_chain"@, rt.break_chain.ticked(dt).1, 0).0;
    let e4 = apply_outcome(e3, Seq::empty(), "wayleave"@, rt.wayleave.ticked(dt).1, 0).0;
    &&& outcome_fits(e0, rt.rain_flag.ticked(dt).1)
    &&& outcome_fits(e1, rt.sourvault.ticked(dt).1)
    &&& outcome_fits(e2, rt.break_chain.ticked(dt).1)
    &&& outcome_fits(e3, rt.wayleave.ticked(dt).1)
    &&& outcome_fits(e4, rt.anchor_audit.ticked(dt).1)
}

fn record_outcome(
    name: &str,
    result: Option<MissionResult>,
    current_tick: u32,
    queue: &mut CommandQueue,
    econ: &mut EconIntent,
)
    requires
        outcome_fits(*old(econ), result),
    ensures
        (*final(econ), final(queue).commands()) == apply_outcome(
            *old(econ),
            old(queue).commands(),
            name@,
            result,
            current_tick,
        ),
{
    match result {
        None => {},
        Some(outcome) => {
            let mission_hash = hash_mission_name(name);
            let mission_key = (mission_hash & 0x7FFF_FFFF) as i32;
            let (pp_delta, basis_bp_overlay, success_flag) = match outcome {
                MissionResult::Success { pp_delta, basis_bp_overlay } => (pp_delta, basis_bp_overlay, 1i32),
                MissionResult::Fail { pp_delta, basis_bp_overlay } => (pp_delta, basis_bp_overlay, 0i32),
            };
            econ.pending_pp_delta = econ.pending_pp_delta + pp_delta;
            econ.pending_basis_overlay_bp = econ.pending_basis_overlay_bp + basis_bp_overlay;
            queue.meter("pp_delta", pp_delta as i32);
            queue.meter("basis_bp_overlay", basis_bp_overlay as i32);
            queue.meter("mission_result", success_flag);
            queue.meter("mission_id", mission_key);
            queue.meter("mission_resolve_tick", current_tick as i32);
        },
    }
}

impl MissionRuntime {
    /// Prepares every configured mission, in order, from the seed derived from the world
    /// seed, link, day and the mission's name; unknown names are ignored.
    pub fn init_all(&mut self, world_seed: u64, link_id: RouteId, day: u32, cfgs: &[(String, MissionCfg)])
        ensures
            *final(self) == init_all_spec(*old(self), world_seed, link_id, day, cfgs@),
    {
        let mut i: usize = 0;
        while i < cfgs.len()
            invariant
                i <= cfgs@.len(),
                *self == init_all_spec(*old(self), world_seed, link_id, day, cfgs@.take(i as int)),
            decreases cfgs.len() - i,
        {
            assert(cfgs@.take(i + 1).drop_last() == cfgs@.take(i as int));
            let name = &cfgs[i].0;
            let cfg = &cfgs[i].1;
            let mission_id = hash_mission_name(name.as_str());
            let seed = mission_seed(world_seed, link_id, day, mission_id);
            if name_is(name, "rain_flag") {
                self.rain_flag.init(seed, cfg);
            } else if name_is(name, "sourvault") {
                self.sourvault.init(seed, cfg);
            } else if name_is(name, "break_chain") {
                self.break_chain.init(seed, cfg);
            } else if name_is(name, "wayleave") {
                self.wayleave.init(seed, cfg);
            } else if name_is(name, "anchor_audit") {
                self.anchor_audit.init(seed, cfg);
            }
            i = i + 1;
        }
        assert(cfgs@.take(cfgs@.len() as int) == cfgs@);
    }

    /// Advances every mission by `dt_ticks`, in a fixed order; each resolution adds its
    /// deltas to `econ` and meters its effect, outcome, id and tick.
    pub fn tick_all(&mut self, current_tick: u32, dt_ticks: u32, queue: &mut CommandQueue, econ: &mut EconIntent)
        requires
            tick_all_fits(*old(self), dt_ticks, *old(econ)),
        ensures
            *final(self) == runtime_ticked(*old(self), dt_ticks),
            (*final(econ), final(queue).commands()) == tick_all_effect(
                *old(self),
                dt_ticks,
                current_tick,
                *old(econ),
                old(queue).commands(),
            ),
    {
        let r1 = self.rain_flag.tick(dt_ticks);
        let r2 = self.sourvault.tick(dt_ticks);
        let r3 = self.break_chain.tick(dt_ticks);
        let r4 = self.wayleave.tick(dt_ticks);
        let r5 = self.anchor_audit.tick(dt_ticks);
        record_outcome("rain_flag", r1, current_tick, queue, econ);
        record_outcome("sourvault", r2, current_tick, queue, econ);
        record_outcome("break_chain", r3, current_tick, queue, econ);
        record_outcome("wayleave", r4, current_tick, queue, econ);
        record_outcome("anchor_audit", r5, current_tick, queue, econ);
    }
}


/// A resolved mission stays resolved: further ticks report nothing and change nothing.
pub proof fn lemma_resolved_missions_stay_quiet(rt: MissionRuntime, dt: u32)
    requires
        rt.rain_flag.done,
        rt.sourvault.done,
        rt.break_chain.done,
        rt.wayleave.done,
        rt.anchor_audit.done,
    ensures
        runtime_ticked(rt, dt) == rt,
        rt.rain_flag.ticked(dt).1.is_none(),
        rt.sourvault.ticked(dt).1.is_none(),
        rt.break_chain.ticked(dt).1.is_none(),
        rt.wayleave.ticked(dt).1.is_none(),
        rt.anchor_audit.ticked(dt).1.is_none(),
{
}

/// A tick that reports an outcome leaves the mission resolved, so each mission reports
/// at most once.
pub proof fn lemma_outcome_resolves(rt: MissionRuntime, dt: u32)
    ensures
        rt.rain_flag.ticked(dt).1 is Some ==> rt.rain_flag.ticked(dt).0.done,
        rt.sourvault.ticked(dt).1 is Some ==> rt.sourvault.ticked(dt).0.done,
        rt.break_chain.ticked(dt).1 is Some ==> rt.break_chain.ticked(dt).0.done,
        rt.wayleave.ticked(dt).1 is Some ==> rt.wayleave.ticked(dt).0.done,
        rt.anchor_audit.ticked(dt).1 is Some ==> rt.anchor_audit.ticked(dt).0.done,
{
}

/// Missions prepared from a seed start unresolved, with their durations and targets in
/// the documented ranges.
pub proof fn lemma_initial_ranges(seed: u64, cfg: MissionCfg)
    ensures
        90 <= RainFlagUplink::initial(seed, cfg).resolve_at <= 120,
        120 <= SourvaultEvac::initial(seed, cfg).hazard_budget <= 180,
        3 <= BreakTheChain::initial(seed, cfg).targets <= 7,
        2 <= WayleaveDefault::initial(seed, cfg).checkpoints <= 5,
        150 <= WayleaveDefault::initial(seed, cfg).deadline <= 200,
        100 <= AnchorAudit::initial(seed, cfg).scan_ticks <= 125,
        !RainFlagUplink::initial(seed, cfg).done && !SourvaultEvac::initial(seed, cfg).done
            && !BreakTheChain::initial(seed, cfg).done && !WayleaveDefault::initial(seed, cfg).done
            && !AnchorAudit::initial(seed, cfg).done,
{
    lemma_range_bounds(seed, 0, 30);
    lemma_range_bounds(seed, 0, 60);
    lemma_range_bounds(seed, 0, 4);
    lemma_range_bounds(seed, 0, 3);
    lemma_range_bounds(range_u32_result(seed, 0, 3).0, 0, 50);
    lemma_range_bounds(seed, 0, 25);
}

proof fn lemma_range_bounds(s: u64, low: u32, high: u32)
    requires
        low < high,
        high - low < u32::MAX,
    ensures
        low <= range_u32_result(s, low, high).1 <= high,
{
    let m = (crate::director::rng::splitmix_mix(splitmix_advance(s)) as u32) as int;
    let span = (high - low + 1) as u32;
    assert(m % (span as int) < span);
}


/// `a + b` limited to the `i16` range.
pub open spec fn sat_add_i16(a: i16, b: i16) -> i16 {
    if a + b > i16::MAX {
        i16::MAX
    } else if a + b < i16::MIN {
        i16::MIN
    } else {
        (a + b) as i16
    }
}

fn saturating_add_i16(a: i16, b: i16) -> (r: i16)
    ensures
        r == sat_add_i16(a, b),
{
    let sum = a as i32 + b as i32;
    if sum > 0x7FFF {
        0x7FFF
    } else if sum < -0x8000 {
        -0x8000
    } else {
        sum as i16
    }
}

/// The deltas and success flag of an outcome.
pub open spec fn outcome_parts(result: MissionResult) -> (i16, i16, bool) {
    match result {
        MissionResult::Success { pp_delta, basis_bp_overlay } => (pp_delta, basis_bp_overlay, true),
        MissionResult::Fail { pp_delta, basis_bp_overlay } => (pp_delta, basis_bp_overlay, false),
    }
}

/// Intent and commands after applying one mission's outcome: the deltas are added
/// (saturating) and metered.
pub open spec fn applied_result(econ: EconIntent, cmds: Seq<CommandView>, result: MissionResult) -> (EconIntent, Seq<CommandView>) {
    let (pp, basis, _success) = outcome_parts(result);
    (
        EconIntent {
            pending_pp_delta: sat_add_i16(econ.pending_pp_delta, pp),
            pending_basis_overlay_bp: sat_add_i16(econ.pending_basis_overlay_bp, basis),
        },
        cmds.push(CommandView::Meter { key: "pp_delta"@, value: pp as i32 }).push(
            CommandView::Meter { key: "basis_bp_overlay"@, value: basis as i32 },
        ),
    )
}

/// Adds a mission's outcome to the pending intent (saturating) and meters its deltas;
/// returns the log line for it (outcome `success` or `fail`) when logging is on.
pub fn apply_mission_result(
    name: &str,
    result: MissionResult,
    econ: &mut EconIntent,
    queue: &mut CommandQueue,
    logs: &LogSwitch,
) -> (r: Option<MissionResultLog>)
    ensures
        (*final(econ), final(queue).commands()) == applied_result(*old(econ), old(queue).commands(), result),
        r is Some <==> logs.enabled,
        r matches Some(e) ==> e.name@ == name@ && e.outcome@ == (if outcome_parts(result).2 {
            "success"@
        } else {
            "fail"@
        }) && e.pp_delta == outcome_parts(result).0 && e.basis_bp_overlay == outcome_parts(result).1,
{
    let (pp_delta, basis_bp_overlay, success) = match result {
        MissionResult::Success { pp_delta, basis_bp_overlay } => (pp_delta, basis_bp_overlay, true),
        MissionResult::Fail { pp_delta, basis_bp_overlay } => (pp_delta, basis_bp_overlay, false),
    };
    econ.pending_pp_delta = saturating_add_i16(econ.pending_pp_delta, pp_delta);
    econ.pending_basis_overlay_bp = saturating_add_i16(econ.pending_basis_overlay_bp, basis_bp_overlay);
    queue.meter("pp_delta", pp_delta as i32);
    queue.meter("basis_bp_overlay", basis_bp_overlay as i32);
    let label = if success {
        "success"
    } else {
        "fail"
    };
    log_mission_result(logs, name, label, pp_delta, basis_bp_overlay)
}

fn is_failure(result: MissionResult) -> (r: bool)
    ensures
        r == !outcome_parts(result).2,
{
    match result {
        MissionResult::Success { .. } => false,
        MissionResult::Fail { .. } => true,
    }
}

/// Which of the five missions are still running on the current leg.
#[derive(Debug, Clone, Copy, PartialEq, Eq, Structural)]
pub struct ActiveMissions {
    pub rain_flag: bool,
    pub sourvault: bool,
    pub break_chain: bool,
    pub wayleave: bool,
    pub anchor_audit: bool,
}

/// One mission's part of a missions step: an active mission ticks once; its outcome, if
/// any, is applied. Returns the intent, commands, whether it resolved and whether it failed.
pub open spec fn slot_step(
    active: bool,
    outcome: Option<MissionResult>,
    econ: EconIntent,
    cmds: Seq<CommandView>,
) -> (EconIntent, Seq<CommandView>, bool, bool) {
    if !active {
        (econ, cmds, false, false)
    } else {
        match outcome {
            None => (econ, cmds, false, false),
            Some(result) => {
                let (e, c) = applied_result(econ, cmds, result);
                (e, c, true, !outcome_parts(result).2)
            },
        }
    }
}

/// Intent, commands, number resolved and whether any failed after one missions step.
pub open spec fn missions_step_effect(
    rt: MissionRuntime,
    active: ActiveMissions,
    econ: EconIntent,
    cmds: Seq<CommandView>,
) -> (EconIntent, Seq<CommandView>, int, bool) {
    let (e1, c1, r1, f1) = slot_step(active.rain_flag, rt.rain_flag.ticked(1).1, econ, cmds);
    let (e2, c2, r2, f2) = slot_step(active.sourvault, rt.sourvault.ticked(1).1, e1, c1);
    let (e3, c3, r3, f3) = slot_step(active.break_chain, rt.break_chain.ticked(1).1, e2, c2);
    let (e4, c4, r4, f4) = slot_step(active.wayleave, rt.wayleave.ticked(1).1, e3, c3);
    let (e5, c5, r5, f5) = slot_step(active.anchor_audit, rt.anchor_audit.ticked(1).1, e4, c4);
    (
        e5,
        c5,
        (if r1 { 1int } else { 0int }) + (if r2 { 1int } else { 0int }) + (if r3 { 1int } else { 0int })
            + (if r4 { 1int } else { 0int }) + (if r5 { 1int } else { 0int }),
        f1 || f2 || f3 || f4 || f5,
    )
}

/// The active missions after a step: the ones that resolved drop out.
pub open spec fn still_active(rt: MissionRuntime, active: ActiveMissions) -> ActiveMissions {
    ActiveMissions {
        rain_flag: active.rain_flag && rt.rain_flag.ticked(1).1.is_none(),
        sourvault: active.sourvault && rt.sourvault.ticked(1).1.is_none(),
        break_chain: active.break_chain && rt.break_chain.ticked(1).1.is_none(),
        wayleave: active.wayleave && rt.wayleave.ticked(1).1.is_none(),
        anchor_audit: active.anchor_audit && rt.anchor_audit.ticked(1).1.is_none(),
    }
}

/// The missions after a step: active ones ticked once, the others untouched.
pub open spec fn missions_after_step(rt: MissionRuntime, active: ActiveMissions) -> MissionRuntime {
    MissionRuntime {
        rain_flag: if active.rain_flag { rt.rain_flag.ticked(1).0 } else { rt.rain_flag },
        sourvault: if active.sourvault { rt.sourvault.ticked(1).0 } else { rt.sourvault },
        break_chain: if active.break_chain { rt.break_chain.ticked(1).0 } else { rt.break_chain },
        wayleave: if active.wayleave { rt.wayleave.ticked(1).0 } else { rt.wayleave },
        anchor_audit: if active.anchor_audit { rt.anchor_audit.ticked(1).0 } else { rt.anchor_audit },
    }
}

fn record_slot(
    active: bool,
    outcome: Option<MissionResult>,
    name: &str,
    econ: &mut EconIntent,
    queue: &mut CommandQueue,
    logs: &LogSwitch,
    lines: &mut Vec<MissionResultLog>,
    resolved: &mut usize,
    failed: &mut bool,
)
    requires
        *old(resolved) < 5,
    ensures
        ({
            let (e, c, did, fail) = slot_step(active, outcome, *old(econ), old(queue).commands());
            &&& *final(econ) == e
            &&& final(queue).commands() == c
            &&& *final(resolved) == *old(resolved) + (if did { 1int } else { 0int })
            &&& *final(failed) == (*old(failed) || fail)
            &&& final(lines)@.len() == old(lines)@.len() + (if did && logs.enabled { 1int } else { 0int })
        }),
{
    if !active {
        return;
    }
    match outcome {
        None => {},
        Some(result) => {
            let line = apply_mission_result(name, result, econ, queue, logs);
            match line {
                Some(l) => lines.push(l),
                None => {},
            }
            *resolved = *resolved + 1;
            *failed = *failed || is_failure(result);
        },
    }
}

impl MissionRuntime {
    /// One fixed tick of the active missions, in a fixed order: each ticks once; an
    /// outcome is applied to `econ` and metered, and its mission drops out of `active`.
    /// Returns how many resolved, whether any failed, and the log lines to write.
    #[verifier::rlimit(60)]
    #[verifier::spinoff_prover]
    pub fn missions_step(
        &mut self,
        active: &mut ActiveMissions,
        econ: &mut EconIntent,
        queue: &mut CommandQueue,
        logs: &LogSwitch,
    ) -> (r: (usize, bool, Vec<MissionResultLog>))
        ensures
            *final(self) == missions_after_step(*old(self), *old(active)),
            *final(active) == still_active(*old(self), *old(active)),
            ({
                let (e, c, n, f) = missions_step_effect(*old(self), *old(active), *old(econ), old(queue).commands());
                &&& *final(econ) == e
                &&& final(queue).commands() == c
                &&& r.0 as int == n
                &&& r.1 == f
            }),
            logs.enabled ==> r.2@.len() == r.0,
            !logs.enabled ==> r.2@.len() == 0,
    {
        let mut lines: Vec<MissionResultLog> = Vec::new();
        let mut resolved: usize = 0;
        let mut failed = false;
        let o1 = if active.rain_flag { self.rain_flag.tick(1) } else { None };
        record_slot(active.rain_flag, o1, "rain_flag", econ, queue, logs, &mut lines, &mut resolved, &mut failed);
        if o1.is_some() {
            active.rain_flag = false;
        }
        let o2 = if active.sourvault { self.sourvault.tick(1) } else { None };
        record_slot(active.sourvault, o2, "sourvault", econ, queue, logs, &mut lines, &mut resolved, &mut failed);
        if o2.is_some() {
            active.sourvault = false;
        }
        let o3 = if active.break_chain { self.break_chain.tick(1) } else { None };
        record_slot(active.break_chain, o3, "break_chain", econ, queue, logs, &mut lines, &mut resolved, &mut failed);
        if o3.is_some() {
            active.break_chain = false;
        }
        let o4 = if active.wayleave { self.wayleave.tick(1) } else { None };
        record_slot(active.wayleave, o4, "wayleave", econ, queue, logs, &mut lines, &mut resolved, &mut failed);
        if o4.is_some() {
            active.wayleave = false;
        }
        let o5 = if active.anchor_audit { self.anchor_audit.tick(1) } else { None };
        record_slot(active.anchor_audit, o5, "anchor_audit", econ, queue, logs, &mut lines, &mut resolved, &mut failed);
        if o5.is_some() {
            active.anchor_audit = false;
        }
        (resolved, failed, lines)
    }
}

/// A rain-flag uplink after `k` ticks of one tick each.
pub open spec fn rain_flag_after(m: RainFlagUplink, k: nat) -> RainFlagUplink
    decreases k,
{
    if k == 0 {
        m
    } else {
        rain_flag_after(m, (k - 1) as nat).ticked(1).0
    }
}

/// An unresolved rain-flag uplink that has not started, ticked one tick at a time,
/// stays unresolved and silent before its resolve tick, reports its outcome (success or
/// failure with the configured deltas) on exactly that tick, and is silent after it.
pub proof fn lemma_rain_flag_ticks(m: RainFlagUplink, k: nat)
    requires
        !m.done,
        m.elapsed == 0,
        m.resolve_at >= 1,
    ensures
        rain_flag_after(m, k).cfg == m.cfg,
        rain_flag_after(m, k).success == m.success,
        rain_flag_after(m, k).resolve_at == m.resolve_at,
        k < m.resolve_at ==> {
            let a = rain_flag_after(m, k);
            &&& !a.done
            &&& a.elapsed == k
            &&& k + 1 < m.resolve_at ==> a.ticked(1).1 is None
            &&& k + 1 == m.resolve_at ==> a.ticked(1).1 == Some(outcome_of(m.cfg, m.success))
                && a.ticked(1).0.done
        },
        k >= m.resolve_at ==> rain_flag_after(m, k).done && rain_flag_after(m, k).ticked(1).1 is None,
    decreases k,
{
    if k > 0 {
        lemma_rain_flag_ticks(m, (k - 1) as nat);
    }
}

/// A freshly prepared rain-flag uplink resolves on a tick between 90 and 120: ticked one
/// tick at a time, it is silent before that tick, reports success or failure with the
/// configured deltas on it, and is silent after it.
pub proof fn lemma_rain_flag_resolves_on_time(seed: u64, cfg: MissionCfg, k: nat)
    ensures
        90 <= RainFlagUplink::initial(seed, cfg).resolve_at <= 120,
        k < RainFlagUplink::initial(seed, cfg).resolve_at ==> {
            let a = rain_flag_after(RainFlagUplink::initial(seed, cfg), k);
            &&& !a.done
            &&& a.elapsed == k
            &&& k + 1 < RainFlagUplink::initial(seed, cfg).resolve_at ==> a.ticked(1).1 is None
            &&& k + 1 == RainFlagUplink::initial(seed, cfg).resolve_at ==> {
                ||| a.ticked(1).1 == Some(
                    MissionResult::Success { pp_delta: cfg.pp_success, basis_bp_overlay: cfg.basis_bp_success },
                )
                ||| a.ticked(1).1 == Some(
                    MissionResult::Fail { pp_delta: cfg.pp_fail, basis_bp_overlay: cfg.basis_bp_fail },
                )
            }
        },
        k >= RainFlagUplink::initial(seed, cfg).resolve_at ==> rain_flag_after(
            RainFlagUplink::initial(seed, cfg),
            k,
        ).ticked(1).1 is None,
{
    lemma_initial_ranges(seed, cfg);
    lemma_rain_flag_ticks(RainFlagUplink::initial(seed, cfg), k);
}

/// Some configuration entry is named `name`.
pub open spec fn names_mission(cfgs: Seq<(String, MissionCfg)>, name: Seq<char>) -> bool {
    exists|i: int| 0 <= i < cfgs.len() && (#[trigger] cfgs[i]).0@ == name
}

proof fn lemma_mission_names_distinct()
    ensures
        "rain_flag"@ != "sourvault"@,
        "rain_flag"@ != "break_chain"@,
        "rain_flag"@ != "wayleave"@,
        "rain_flag"@ != "anchor_audit"@,
        "sourvault"@ != "break_chain"@,
        "sourvault"@ != "wayleave"@,
        "sourvault"@ != "anchor_audit"@,
        "break_chain"@ != "wayleave"@,
        "break_chain"@ != "anchor_audit"@,
        "wayleave"@ != "anchor_audit"@,
{
    reveal_strlit("rain_flag");
    reveal_strlit("sourvault");
    reveal_strlit("break_chain");
    reveal_strlit("wayleave");
    reveal_strlit("anchor_audit");
    assert("rain_flag"@[0] != "sourvault"@[0]);
    assert("rain_flag"@[0] != "break_chain"@[0]);
    assert("rain_flag"@[0] != "wayleave"@[0]);
    assert("rain_flag"@[0] != "anchor_audit"@[0]);
    assert("sourvault"@[0] != "break_chain"@[0]);
    assert("sourvault"@[0] != "wayleave"@[0]);
    assert("sourvault"@[0] != "anchor_audit"@[0]);
    assert("break_chain"@[0] != "wayleave"@[0]);
    assert("break_chain"@[0] != "anchor_audit"@[0]);
    assert("wayleave"@[0] != "anchor_audit"@[0]);
}

/// The five missions of `a` and `b` agree where `cfgs` names them, and `a`'s are those of
/// `base` where it does not.
pub open spec fn prepared_alike(
    a: MissionRuntime,
    b: MissionRuntime,
    base: MissionRuntime,
    cfgs: Seq<(String, MissionCfg)>,
) -> bool {
    &&& names_mission(cfgs, "rain_flag"@) ==> a.rain_flag == b.rain_flag
    &&& !names_mission(cfgs, "rain_flag"@) ==> a.rain_flag == base.rain_flag
    &&& names_mission(cfgs, "sourvault"@) ==> a.sourvault == b.sourvault
    &&& !names_mission(cfgs, "sourvault"@) ==> a.sourvault == base.sourvault
    &&& names_mission(cfgs, "break_chain"@) ==> a.break_chain == b.break_chain
    &&& !names_mission(cfgs, "break_chain"@) ==> a.break_chain == base.break_chain
    &&& names_mission(cfgs, "wayleave"@) ==> a.wayleave == b.wayleave
    &&& !names_mission(cfgs, "wayleave"@) ==> a.wayleave == base.wayleave
    &&& names_mission(cfgs, "anchor_audit"@) ==> a.anchor_audit == b.anchor_audit
    &&& !names_mission(cfgs, "anchor_audit"@) ==> a.anchor_audit == base.anchor_audit
}

proof fn lemma_names_push(cfgs: Seq<(String, MissionCfg)>, nm: Seq<char>)
    requires
        cfgs.len() > 0,
    ensures
        names_mission(cfgs, nm) == (names_mission(cfgs.drop_last(), nm) || cfgs.last().0@ == nm),
{
    let t = cfgs.drop_last();
    if names_mission(cfgs, nm) {
        let i = choose|i: int| 0 <= i < cfgs.len() && (#[trigger] cfgs[i]).0@ == nm;
        if i < t.len() {
            assert(t[i] == cfgs[i]);
        }
    }
    if names_mission(t, nm) {
        let i = choose|i: int| 0 <= i < t.len() && (#[trigger] t[i]).0@ == nm;
        assert(cfgs[i] == t[i]);
    }
    if cfgs.last().0@ == nm {
        assert(cfgs[cfgs.len() - 1].0@ == nm);
    }
}

/// Preparing the missions forgets what they were before: from any two runtimes, every
/// mission named in `cfgs` comes out the same, and every mission not named is left as it
/// was (names other than the five missions' are ignored).
#[verifier::spinoff_prover]
pub proof fn lemma_init_all_forgets_prior(
    rt1: MissionRuntime,
    rt2: MissionRuntime,
    world_seed: u64,
    link_id: RouteId,
    day: u32,
    cfgs: Seq<(String, MissionCfg)>,
)
    ensures
        prepared_alike(
            init_all_spec(rt1, world_seed, link_id, day, cfgs),
            init_all_spec(rt2, world_seed, link_id, day, cfgs),
            rt1,
            cfgs,
        ),
    decreases cfgs.len(),
{
    if cfgs.len() > 0 {
        let t = cfgs.drop_last();
        lemma_init_all_forgets_prior(rt1, rt2, world_seed, link_id, day, t);
        let (nm, cfg) = cfgs.last();
        lemma_mission_names_distinct();
        lemma_names_push(cfgs, "rain_flag"@);
        lemma_names_push(cfgs, "sourvault"@);
        lemma_names_push(cfgs, "break_chain"@);
        lemma_names_push(cfgs, "wayleave"@);
        lemma_names_push(cfgs, "anchor_audit"@);
        let p1 = init_all_spec(rt1, world_seed, link_id, day, t);
        let p2 = init_all_spec(rt2, world_seed, link_id, day, t);
        let seed = mission_seed_for(world_seed, link_id, day, nm@);
        assert(init_all_spec(rt1, world_seed, link_id, day, cfgs) == init_named(p1, nm@, cfg, seed));
        assert(init_all_spec(rt2, world_seed, link_id, day, cfgs) == init_named(p2, nm@, cfg, seed));
    }
}

/// A rain-flag uplink reports exactly when it is unresolved and its elapsed time (saturating)
/// reaches its duration; it is then resolved, and its outcome is the one its seeded coin
/// drew: success with the success deltas, or failure with the failure deltas.
pub proof fn lemma_rain_flag_outcome(m: RainFlagUplink, dt: u32)
    ensures
        m.ticked(dt).1 is Some <==> (!m.done && (if m.elapsed + dt > u32::MAX {
            u32::MAX as int
        } else {
            m.elapsed + dt
        }) >= m.resolve_at),
        m.ticked(dt).1 is Some ==> m.ticked(dt).0.done,
        m.done ==> m.ticked(dt).0 == m,
        m.ticked(dt).1 is Some && m.success ==> m.ticked(dt).1 == Some(
            MissionResult::Success { pp_delta: m.cfg.pp_success, basis_bp_overlay: m.cfg.basis_bp_success },
        ),
        m.ticked(dt).1 is Some && !m.success ==> m.ticked(dt).1 == Some(
            MissionResult::Fail { pp_delta: m.cfg.pp_fail, basis_bp_overlay: m.cfg.basis_bp_fail },
        ),
{
}

/// A Sourvault evacuation reports exactly when it is unresolved and its elapsed time (saturating)
/// reaches its duration; it is then resolved, and its outcome is the one its seeded coin
/// drew: success with the success deltas, or failure with the failure deltas.
pub proof fn lemma_sourvault_outcome(m: SourvaultEvac, dt: u32)
    ensures
        m.ticked(dt).1 is Some <==> (!m.done && (if m.elapsed + dt > u32::MAX {
            u32::MAX as int
        } else {
            m.elapsed + dt
        }) >= m.hazard_budget),
        m.ticked(dt).1 is Some ==> m.ticked(dt).0.done,
        m.done ==> m.ticked(dt).0 == m,
        m.ticked(dt).1 is Some && m.success ==> m.ticked(dt).1 == Some(
            MissionResult::Success { pp_delta: m.cfg.pp_success, basis_bp_overlay: m.cfg.basis_bp_success },
        ),
        m.ticked(dt).1 is Some && !m.success ==> m.ticked(dt).1 == Some(
            MissionResult::Fail { pp_delta: m.cfg.pp_fail, basis_bp_overlay: m.cfg.basis_bp_fail },
        ),
{
}

/// A anchor audit reports exactly when it is unresolved and its elapsed time (saturating)
/// reaches its duration; it is then resolved, and its outcome is the one its seeded coin
/// drew: success with the success deltas, or failure with the failure deltas.
pub proof fn lemma_anchor_audit_outcome(m: AnchorAudit, dt: u32)
    ensures
        m.ticked(dt).1 is Some <==> (!m.done && (if m.elapsed + dt > u32::MAX {
            u32::MAX as int
        } else {
            m.elapsed + dt
        }) >= m.scan_ticks),
        m.ticked(dt).1 is Some ==> m.ticked(dt).0.done,
        m.done ==> m.ticked(dt).0 == m,
        m.ticked(dt).1 is Some && m.success ==> m.ticked(dt).1 == Some(
            MissionResult::Success { pp_delta: m.cfg.pp_success, basis_bp_overlay: m.cfg.basis_bp_success },
        ),
        m.ticked(dt).1 is Some && !m.success ==> m.ticked(dt).1 == Some(
            MissionResult::Fail { pp_delta: m.cfg.pp_fail, basis_bp_overlay: m.cfg.basis_bp_fail },
        ),
{
}

/// Breaking the chain can only succeed: it reports, with the success deltas, exactly on
/// the ticking step (`dt > 0`) that brings its last target down.
pub proof fn lemma_break_chain_outcome(m: BreakTheChain, dt: u32)
    requires
        m.destroyed <= m.targets,
    ensures
        m.ticked(dt).1 is Some <==> (!m.done && m.destroyed + (if dt > 0 { 1int } else { 0 }) >= m.targets),
        m.ticked(dt).1 is Some ==> m.ticked(dt).1 == Some(
            MissionResult::Success { pp_delta: m.cfg.pp_success, basis_bp_overlay: m.cfg.basis_bp_success },
        ) && m.ticked(dt).0.done && m.ticked(dt).0.destroyed == m.targets,
{
}

/// A wayleave default succeeds, with the success deltas, on the tick its last checkpoint
/// is reached, and otherwise fails, with the failure deltas, once its deadline passes.
pub proof fn lemma_wayleave_outcome(m: WayleaveDefault, dt: u32)
    ensures
        m.ticked(dt).1 == Some(
            MissionResult::Success { pp_delta: m.cfg.pp_success, basis_bp_overlay: m.cfg.basis_bp_success },
        ) ==> !m.done && m.ticked(dt).0.reached >= m.checkpoints,
        m.ticked(dt).1 == Some(
            MissionResult::Fail { pp_delta: m.cfg.pp_fail, basis_bp_overlay: m.cfg.basis_bp_fail },
        ) ==> !m.done && m.ticked(dt).0.reached < m.checkpoints && m.ticked(dt).0.elapsed >= m.deadline,
        !m.done && m.ticked(dt).0.reached >= m.checkpoints ==> m.ticked(dt).1 == Some(
            MissionResult::Success { pp_delta: m.cfg.pp_success, basis_bp_overlay: m.cfg.basis_bp_success },
        ),
        !m.done && m.ticked(dt).0.reached < m.checkpoints && m.ticked(dt).0.elapsed >= m.deadline
            ==> m.ticked(dt).1 == Some(
            MissionResult::Fail { pp_delta: m.cfg.pp_fail, basis_bp_overlay: m.cfg.basis_bp_fail },
        ),
        m.ticked(dt).1 is Some || m.done || (m.ticked(dt).0.reached < m.checkpoints && m.ticked(dt).0.elapsed < m.deadline),
{
}

} // verus!
