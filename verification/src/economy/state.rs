use vstd::prelude::*;
use super::basis::{
    basis_next_spec, basis_step, basis_terms_fit, driver_terms, driver_terms_sum, fits_i32, terms_fit,
    update_basis,
    BasisDrivers,
};
use super::di::{decay_overlay_spec, di_cfg_ok, di_next, di_next_spec, draws_after, step_di, DiState};
use super::interest::{accrue_interest_per_leg, accrue_spec, interest_fits, interest_in_range};
use super::money::{clamp_i64, MoneyCents};
use super::planting::{
    apply_planting_pull, kept_plantings, planting_fits, planting_in_range, pull_pp_spec, total_pull,
    PendingPlanting,
};
use super::rng::{econ_stream, lemma_state_after_add, noise_sample, noise_seq, state_after, DetRng};
use super::rot::{convert_rot_to_debt, rot_conversion_spec};
use super::rulepack::Rulepack;
use super::table::{
    insert_sorted, lemma_lookup_after_insert, lookup, sorted_keys, BpEntry, BpTable,
};
use super::types::{BasisBp, CommodityId, EconomyDay, HubId, Pp, Weather};
use crate::save::v1_1::copy_plantings;

verus! {

/// The whole economy: daily indices per commodity, bases per hub and commodity, player
/// power, stored rot, plantings and debt.
pub struct EconState {
    pub day: EconomyDay,
    /// Daily index per commodity, keyed by commodity id.
    pub di_bp: BpTable,
    pub di_overlay_bp: i32,
    /// Basis per hub and commodity, keyed by `basis_key(hub, commodity)`.
    pub basis_bp: BpTable,
    pub pp: Pp,
    pub rot_u16: u16,
    pub pending_planting: Vec<PendingPlanting>,
    pub debt_cents: MoneyCents,
    pub last_clamp_hit: bool,
}

/// Key of a hub's basis for a commodity: ordered by hub, then commodity.
pub open spec fn basis_key(hub: HubId, commodity: int) -> u32 {
    (hub.0 as int * 65536 + commodity) as u32
}

/// Key of a hub's basis for a commodity.
pub fn basis_key_of(hub: HubId, commodity: CommodityId) -> (r: u32)
    ensures
        r == basis_key(hub, commodity.0 as int),
        r as int == hub.0 as int * 65536 + commodity.0 as int,
{
    (hub.0 as u32) * 65536 + commodity.0 as u32
}

impl EconState {
    /// Both tables are sorted and every index key is a commodity id.
    pub open spec fn wf(&self) -> bool {
        &&& self.di_bp.wf()
        &&& self.basis_bp.wf()
        &&& forall|i: int| 0 <= i < self.di_bp@.len() ==> #[trigger] self.di_bp@[i].key <= u16::MAX
    }
}

impl EconState {
    /// Whether the state is well formed: both tables sorted, every index key a commodity id.
    pub fn check_wf(&self) -> (r: bool)
        ensures
            r == self.wf(),
    {
        if !self.di_bp.check_wf() || !self.basis_bp.check_wf() {
            return false;
        }
        let n = self.di_bp.len();
        let mut i: usize = 0;
        while i < n
            invariant
                i <= n,
                n == self.di_bp@.len(),
                forall|j: int| 0 <= j < i ==> #[trigger] self.di_bp@[j].key <= u16::MAX,
            decreases n - i,
        {
            if self.di_bp.entry_at(i).key > 0xFFFF {
                return false;
            }
            i = i + 1;
        }
        true
    }
}

impl Default for EconState {
    fn default() -> (r: Self)
        ensures
            r.wf(),
            r.day.0 == 0,
            r.di_bp@.len() == 0,
            r.di_overlay_bp == 0,
            r.basis_bp@.len() == 0,
            r.pp.0 == 0,
            r.rot_u16 == 0,
            r.pending_planting@.len() == 0,
            r.debt_cents.0 == 0,
            !r.last_clamp_hit,
    {
        EconState {
            day: EconomyDay(0),
            di_bp: BpTable::new(),
            di_overlay_bp: 0,
            basis_bp: BpTable::new(),
            pp: Pp(0),
            rot_u16: 0,
            pending_planting: Vec::new(),
            debt_cents: MoneyCents(0),
            last_clamp_hit: false,
        }
    }
}

/// A commodity's index or basis after a step.
#[derive(Clone, Copy, Debug, PartialEq, Eq, Structural)]
pub struct CommodityDelta {
    pub commodity: CommodityId,
    pub value: BasisBp,
}

/// How many draws a named generator made during a step.
#[derive(Clone, Debug)]
pub struct RngCursor {
    pub label: String,
    pub draws: u32,
}

impl RngCursor {
    /// A cursor for the generator called `label`.
    pub fn new(label: &str, draws: u32) -> (r: Self)
        ensures
            r.label@ == label@,
            r.draws == draws,
    {
        RngCursor { label: label.to_owned(), draws }
    }

    /// A copy of this cursor.
    pub fn duplicate(&self) -> (r: Self)
        ensures
            r.label@ == self.label@,
            r.draws == self.draws,
    {
        RngCursor { label: self.label.clone(), draws: self.draws }
    }
}

/// The labels and draw counts of a list of cursors.
pub open spec fn cursor_views(s: Seq<RngCursor>) -> Seq<(Seq<char>, u32)> {
    s.map_values(|c: RngCursor| (c.label@, c.draws))
}

/// A copy of a list of cursors.
pub fn copy_cursors(v: &Vec<RngCursor>) -> (r: Vec<RngCursor>)
    ensures
        cursor_views(r@) == cursor_views(v@),
{
    let mut out: Vec<RngCursor> = Vec::new();
    let mut i: usize = 0;
    while i < v.len()
        invariant
            i <= v@.len(),
            cursor_views(out@) == cursor_views(v@.take(i as int)),
        decreases v.len() - i,
    {
        let c = v[i].duplicate();
        let ghost before = out@;
        out.push(c);
        assert(cursor_views(out@) =~= cursor_views(before).push((c.label@, c.draws)));
        assert(v@.take(i + 1) =~= v@.take(i as int).push(v@[i as int]));
        assert(cursor_views(v@.take(i + 1)) =~= cursor_views(v@.take(i as int)).push((v@[i as int].label@, v@[i as int].draws)));
        i = i + 1;
    }
    assert(v@.take(v@.len() as int) == v@);
    out
}

/// Which quantity ran into a bound.
#[derive(Clone, Copy, Debug, PartialEq, Eq, Structural)]
pub enum ClampSource {
    Di,
    Basis,
}

/// Which bound was reached.
#[derive(Clone, Copy, Debug, PartialEq, Eq, Structural)]
pub enum ClampKind {
    AbsMin,
    AbsMax,
    PerDay,
}

/// A bound reached by one commodity during a step (logged as `source:commodity:kind`).
#[derive(Clone, Copy, Debug, PartialEq, Eq, Structural)]
pub struct ClampHit {
    pub source: ClampSource,
    pub commodity: CommodityId,
    pub kind: ClampKind,
}

/// The text of one decimal digit.
pub open spec fn digit_text(d: nat) -> Seq<char> {
    if d == 0 {
        "0"@
    } else if d == 1 {
        "1"@
    } else if d == 2 {
        "2"@
    } else if d == 3 {
        "3"@
    } else if d == 4 {
        "4"@
    } else if d == 5 {
        "5"@
    } else if d == 6 {
        "6"@
    } else if d == 7 {
        "7"@
    } else if d == 8 {
        "8"@
    } else {
        "9"@
    }
}

/// `n` in decimal, without leading zeros.
pub open spec fn decimal_text(n: nat) -> Seq<char>
    decreases n,
{
    if n < 10 {
        digit_text(n)
    } else {
        decimal_text(n / 10) + digit_text(n % 10)
    }
}

/// The log text of a clamp hit: `source:commodity:kind`, as in `basis:3:per_day`.
pub open spec fn clamp_label(hit: ClampHit) -> Seq<char> {
    let source = match hit.source {
        ClampSource::Di => "di"@,
        ClampSource::Basis => "basis"@,
    };
    let kind = match hit.kind {
        ClampKind::AbsMin => "abs_min"@,
        ClampKind::AbsMax => "abs_max"@,
        ClampKind::PerDay => "per_day"@,
    };
    source + ":"@ + decimal_text(hit.commodity.0 as nat) + ":"@ + kind
}

fn digit_str(d: u16) -> (r: &'static str)
    requires
        d < 10,
    ensures
        r@ == digit_text(d as nat),
{
    if d == 0 {
        "0"
    } else if d == 1 {
        "1"
    } else if d == 2 {
        "2"
    } else if d == 3 {
        "3"
    } else if d == 4 {
        "4"
    } else if d == 5 {
        "5"
    } else if d == 6 {
        "6"
    } else if d == 7 {
        "7"
    } else if d == 8 {
        "8"
    } else {
        "9"
    }
}

fn push_decimal(s: &mut String, n: u16)
    ensures
        final(s)@ == old(s)@ + decimal_text(n as nat),
    decreases n,
{
    if n >= 10 {
        push_decimal(s, n / 10);
    }
    s.append(digit_str(n % 10));
}

impl ClampHit {
    /// The log text of this hit: `source:commodity:kind`.
    pub fn label(&self) -> (r: String)
        ensures
            r@ == clamp_label(*self),
    {
        let mut s = String::new();
        match self.source {
            ClampSource::Di => s.append("di"),
            ClampSource::Basis => s.append("basis"),
        }
        s.append(":");
        push_decimal(&mut s, self.commodity.0);
        s.append(":");
        match self.kind {
            ClampKind::AbsMin => s.append("abs_min"),
            ClampKind::AbsMax => s.append("abs_max"),
            ClampKind::PerDay => s.append("per_day"),
        }
        s
    }
}

/// Everything one economy step changed.
#[derive(Clone, Debug)]
pub struct EconDelta {
    pub day: EconomyDay,
    pub hub: HubId,
    pub di: Vec<CommodityDelta>,
    pub basis: Vec<CommodityDelta>,
    pub pp_before: Pp,
    pub pp_after: Pp,
    pub rot_before: u16,
    pub rot_after: u16,
    pub debt_before: MoneyCents,
    pub interest_delta: MoneyCents,
    pub debt_after: MoneyCents,
    pub clamps_hit: Vec<ClampHit>,
    pub rng_cursors: Vec<RngCursor>,
}

/// Which parts of the economy a step advances.
#[derive(Clone, Copy, Debug, PartialEq, Eq, Structural)]
pub enum EconStepScope {
    /// The global updates (indices, player power, debt, day counter), then the basis of
    /// the given hub.
    GlobalAndHub,
    /// Only the basis of the given hub, for further hubs on a day already advanced.
    HubOnly,
}

/// The bounds a value reached after an update: an absolute bound (the minimum taking
/// precedence), and the daily cap when it is positive and the move equals it.
pub open spec fn clamp_hits(
    source: ClampSource,
    commodity: CommodityId,
    previous: int,
    updated: int,
    per_day: int,
    abs_min: int,
    abs_max: int,
) -> Seq<ClampHit> {
    let bound = if updated == abs_min {
        seq![ClampHit { source, commodity, kind: ClampKind::AbsMin }]
    } else if updated == abs_max {
        seq![ClampHit { source, commodity, kind: ClampKind::AbsMax }]
    } else {
        Seq::empty()
    };
    let diff = updated - previous;
    let daily = if per_day > 0 && (diff == per_day || diff == -per_day) {
        seq![ClampHit { source, commodity, kind: ClampKind::PerDay }]
    } else {
        Seq::empty()
    };
    bound + daily
}

/// `updated - previous` and its absolute value can be computed in `i32` for every
/// `updated` in `[lo, hi]`.
pub open spec fn diff_fits(previous: int, lo: int, hi: int) -> bool {
    i32::MIN < lo - previous && hi - previous <= i32::MAX && i32::MIN < previous - hi
}

fn note_clamps(
    clamps: &mut Vec<ClampHit>,
    source: ClampSource,
    commodity: CommodityId,
    previous: BasisBp,
    updated: BasisBp,
    per_day: i32,
    abs_min: i32,
    abs_max: i32,
)
    requires
        per_day > 0 ==> diff_fits(previous.0 as int, updated.0 as int, updated.0 as int),
    ensures
        final(clamps)@ == old(clamps)@ + clamp_hits(
            source,
            commodity,
            previous.0 as int,
            updated.0 as int,
            per_day as int,
            abs_min as int,
            abs_max as int,
        ),
{
    let ghost start = clamps@;
    if updated.0 == abs_min {
        clamps.push(ClampHit { source, commodity, kind: ClampKind::AbsMin });
    } else if updated.0 == abs_max {
        clamps.push(ClampHit { source, commodity, kind: ClampKind::AbsMax });
    }
    let ghost mid = clamps@;
    if per_day > 0 {
        let diff = updated.0 - previous.0;
        let magnitude = if diff < 0 {
            -diff
        } else {
            diff
        };
        if magnitude == per_day {
            clamps.push(ClampHit { source, commodity, kind: ClampKind::PerDay });
        }
    }
    assert(clamps@ == start + clamp_hits(
        source,
        commodity,
        previous.0 as int,
        updated.0 as int,
        per_day as int,
        abs_min as int,
        abs_max as int,
    ));
}

/// The indices after one day with the given noise samples (one per commodity, in order).
pub open spec fn di_after(old: Seq<BpEntry>, overlay: int, rp: Rulepack, noise: Seq<int>) -> Seq<BpEntry> {
    Seq::new(
        old.len(),
        |i: int|
            BpEntry {
                key: old[i].key,
                value: BasisBp(di_next_spec(old[i].value.0 as int, overlay, rp.di, noise[i]) as i32),
            },
    )
}

/// Bounds reached by the first `n` indices during the step.
pub open spec fn di_clamps(old: Seq<BpEntry>, new: Seq<BpEntry>, rp: Rulepack, n: nat) -> Seq<ClampHit>
    decreases n,
{
    if n == 0 {
        Seq::empty()
    } else {
        di_clamps(old, new, rp, (n - 1) as nat) + clamp_hits(
            ClampSource::Di,
            CommodityId(old[n - 1].key as u16),
            old[n - 1].value.0 as int,
            new[n - 1].value.0 as int,
            rp.di.per_day_clamp_bp as int,
            rp.di.absolute_min_bp as int,
            rp.di.absolute_max_bp as int,
        )
    }
}

/// The drivers of a hub's basis during a step: clear weather, no closed routes, no stock
/// deviation.
pub open spec fn step_drivers(pp: Pp) -> BasisDrivers {
    BasisDrivers { pp, weather: Weather::Clear, closed_routes: 0, stock_dev: 0 }
}

/// A hub's basis for a commodity before the step (zero when it has none).
pub open spec fn basis_current(basis: Seq<BpEntry>, hub: HubId, commodity: int) -> int {
    match lookup(basis, basis_key(hub, commodity)) {
        Some(v) => v.0 as int,
        None => 0,
    }
}

/// A hub's basis for the `i`-th commodity after the step.
pub open spec fn basis_updated(
    basis: Seq<BpEntry>,
    hub: HubId,
    keys: Seq<BpEntry>,
    pp: Pp,
    rp: Rulepack,
    noise: Seq<int>,
    i: int,
) -> int {
    basis_next_spec(
        basis_current(basis, hub, keys[i].key as int),
        driver_terms(step_drivers(pp), rp) + noise[i],
        rp.basis,
    )
}

/// The basis table after the first `n` commodities of `keys` were updated.
pub open spec fn basis_after(
    basis: Seq<BpEntry>,
    hub: HubId,
    keys: Seq<BpEntry>,
    pp: Pp,
    rp: Rulepack,
    noise: Seq<int>,
    n: nat,
) -> Seq<BpEntry>
    decreases n,
{
    if n == 0 {
        basis
    } else {
        insert_sorted(
            basis_after(basis, hub, keys, pp, rp, noise, (n - 1) as nat),
            basis_key(hub, keys[n - 1].key as int),
            BasisBp(basis_updated(basis, hub, keys, pp, rp, noise, n - 1) as i32),
        )
    }
}

/// Bounds reached by the first `n` bases during the step.
pub open spec fn basis_clamps(
    basis: Seq<BpEntry>,
    hub: HubId,
    keys: Seq<BpEntry>,
    pp: Pp,
    rp: Rulepack,
    noise: Seq<int>,
    n: nat,
) -> Seq<ClampHit>
    decreases n,
{
    if n == 0 {
        Seq::empty()
    } else {
        basis_clamps(basis, hub, keys, pp, rp, noise, (n - 1) as nat) + clamp_hits(
            ClampSource::Basis,
            CommodityId(keys[n - 1].key as u16),
            basis_current(basis, hub, keys[n - 1].key as int),
            basis_updated(basis, hub, keys, pp, rp, noise, n - 1),
            rp.basis.per_day_clamp_bp as int,
            rp.basis.absolute_min_bp as int,
            rp.basis.absolute_max_bp as int,
        )
    }
}

/// Per-commodity changes reported for the indices.
pub open spec fn di_deltas(new: Seq<BpEntry>) -> Seq<CommodityDelta> {
    Seq::new(
        new.len(),
        |i: int| CommodityDelta { commodity: CommodityId(new[i].key as u16), value: new[i].value },
    )
}

/// Per-commodity changes reported for the hub's bases.
pub open spec fn basis_deltas(
    basis: Seq<BpEntry>,
    hub: HubId,
    keys: Seq<BpEntry>,
    pp: Pp,
    rp: Rulepack,
    noise: Seq<int>,
) -> Seq<CommodityDelta> {
    Seq::new(
        keys.len(),
        |i: int|
            CommodityDelta {
                commodity: CommodityId(keys[i].key as u16),
                value: BasisBp(basis_updated(basis, hub, keys, pp, rp, noise, i) as i32),
            },
    )
}

/// The configuration's bounds are ordered.
pub open spec fn rulepack_ok(rp: Rulepack) -> bool {
    &&& di_cfg_ok(rp.di)
    &&& rp.basis.absolute_min_bp <= rp.basis.absolute_max_bp
    &&& rp.rot.rot_floor <= rp.rot.rot_ceiling
    &&& rp.pp.min_pp <= rp.pp.max_pp
}

/// Whether the rulepack's ranges are well-formed (each lower bound at most its upper one).
pub fn rulepack_sane(rp: &Rulepack) -> (r: bool)
    ensures
        r == rulepack_ok(*rp),
{
    rp.di.absolute_min_bp <= rp.di.absolute_max_bp && rp.di.overlay_min_bp <= rp.di.overlay_max_bp
        && rp.basis.absolute_min_bp <= rp.basis.absolute_max_bp && rp.rot.rot_floor <= rp.rot.rot_ceiling
        && rp.pp.min_pp <= rp.pp.max_pp
}

/// Debt after the rot conversion of the step.
pub open spec fn debt_with_rot(state: EconState, rp: Rulepack) -> int {
    clamp_i64(state.debt_cents.0 as int + rot_conversion_spec(state.rot_u16 as int, rp.rot).1)
}

/// Player power after the step.
pub open spec fn pp_after_step(state: EconState, rp: Rulepack, scope: EconStepScope) -> Pp {
    match scope {
        EconStepScope::GlobalAndHub => Pp(
            pull_pp_spec(
                state.pp.0 as int,
                total_pull(state.pending_planting@, rp.pp),
                rp.pp,
            ) as u16,
        ),
        EconStepScope::HubOnly => state.pp,
    }
}

/// The indices after the step: advanced with the day's noise in the global scope,
/// unchanged in the hub-only scope.
pub open spec fn step_new_di(
    rp: Rulepack,
    world_seed: u64,
    econ_version: u32,
    state: EconState,
    scope: EconStepScope,
) -> Seq<BpEntry> {
    if scope == EconStepScope::GlobalAndHub {
        di_after(
            state.di_bp@,
            state.di_overlay_bp as int,
            rp,
            step_di_noise(rp, world_seed, econ_version, state, scope),
        )
    } else {
        state.di_bp@
    }
}

/// The parts of `econ_step_ok` that do not depend on the drawn noise: the state is well
/// formed, every bound pair the step clamps with is ordered, and the planting, interest
/// and basis-term arithmetic fits. The global parts are asked only in the global scope,
/// and the per-commodity parts only when there is a commodity.
pub open spec fn econ_step_static_ok(rp: Rulepack, state: EconState, scope: EconStepScope) -> bool {
    let n = state.di_bp@.len();
    &&& state.wf()
    &&& scope == EconStepScope::GlobalAndHub ==> {
        &&& rp.di.overlay_min_bp <= rp.di.overlay_max_bp
        &&& rp.rot.rot_floor <= rp.rot.rot_ceiling
        &&& rp.pp.min_pp <= rp.pp.max_pp
        &&& planting_in_range(state.pending_planting@, rp.pp)
        &&& interest_in_range(debt_with_rot(state, rp), rp.interest)
        &&& n > 0 ==> rp.di.absolute_min_bp <= rp.di.absolute_max_bp
    }
    &&& n > 0 ==> {
        &&& rp.basis.absolute_min_bp <= rp.basis.absolute_max_bp
        &&& basis_terms_fit(step_drivers(pp_after_step(state, rp, scope)), rp)
    }
}

/// The parts of `econ_step_ok` that depend on the noise drawn for this world seed,
/// version, hub and day: the `i32` arithmetic on the values the step actually computes
/// does not overflow (the basis sum with its noise, and each change that is compared with
/// a positive daily cap).
pub open spec fn econ_step_values_ok(
    rp: Rulepack,
    world_seed: u64,
    econ_version: u32,
    hub: HubId,
    state: EconState,
    scope: EconStepScope,
) -> bool {
    let n = state.di_bp@.len();
    let new_di = step_new_di(rp, world_seed, econ_version, state, scope);
    let pp = pp_after_step(state, rp, scope);
    let basis_noise = step_basis_noise(rp, world_seed, econ_version, hub, state, scope);
    &&& (scope == EconStepScope::GlobalAndHub && rp.di.per_day_clamp_bp > 0) ==> forall|i: int|
        0 <= i < n ==> diff_fits(
            state.di_bp@[i].value.0 as int,
            (#[trigger] new_di[i]).value.0 as int,
            new_di[i].value.0 as int,
        )
    &&& forall|i: int|
        0 <= i < n ==> fits_i32(driver_terms(step_drivers(pp), rp) + #[trigger] basis_noise[i])
    &&& rp.basis.per_day_clamp_bp > 0 ==> forall|i: int|
        0 <= i < n ==> diff_fits(
            basis_current(state.basis_bp@, hub, new_di[i].key as int),
            #[trigger] basis_updated(state.basis_bp@, hub, new_di, pp, rp, basis_noise, i),
            basis_updated(state.basis_bp@, hub, new_di, pp, rp, basis_noise, i),
        )
}

/// The step can run on these inputs without a panic: `econ_step_static_ok` and
/// `econ_step_values_ok`.
pub open spec fn econ_step_ok(
    rp: Rulepack,
    world_seed: u64,
    econ_version: u32,
    hub: HubId,
    state: EconState,
    scope: EconStepScope,
) -> bool {
    &&& econ_step_static_ok(rp, state, scope)
    &&& econ_step_values_ok(rp, world_seed, econ_version, hub, state, scope)
}

/// The economy day a step belongs to: the current day for `GlobalAndHub`, the previous
/// one (saturating at 0) for `HubOnly`.
pub open spec fn step_day(state: EconState, scope: EconStepScope) -> EconomyDay {
    match scope {
        EconStepScope::GlobalAndHub => state.day,
        EconStepScope::HubOnly => EconomyDay(
            if state.day.0 == 0 {
                0
            } else {
                (state.day.0 - 1) as u32
            },
        ),
    }
}

/// The index noise of a step: one sample per commodity from the day's global generator.
pub open spec fn step_di_noise(
    rp: Rulepack,
    world_seed: u64,
    econ_version: u32,
    state: EconState,
    scope: EconStepScope,
) -> Seq<int> {
    noise_seq(
        econ_stream(world_seed, econ_version, None, step_day(state, scope), 0),
        state.di_bp@.len(),
        rp.di.noise_sigma_bp,
        rp.di.noise_clamp_bp,
    )
}

/// The basis noise of a step: one sample per commodity from the hub's generator of the day.
pub open spec fn step_basis_noise(
    rp: Rulepack,
    world_seed: u64,
    econ_version: u32,
    hub: HubId,
    state: EconState,
    scope: EconStepScope,
) -> Seq<int> {
    noise_seq(
        econ_stream(world_seed, econ_version, Some(hub), step_day(state, scope), 1),
        state.di_bp@.len(),
        rp.basis.noise_sigma_bp,
        rp.basis.noise_clamp_bp,
    )
}

/// How a step with the given noise samples changes the tables and what it reports about
/// them.
pub open spec fn step_outcome(
    rp: Rulepack,
    hub: HubId,
    scope: EconStepScope,
    o: EconState,
    f: EconState,
    delta: EconDelta,
    di_noise: Seq<int>,
    basis_noise: Seq<int>,
) -> bool {
    let n = o.di_bp@.len();
    let global = scope == EconStepScope::GlobalAndHub;
    &&& f.di_bp@ == (if global {
        di_after(o.di_bp@, o.di_overlay_bp as int, rp, di_noise)
    } else {
        o.di_bp@
    })
    &&& f.basis_bp@ == basis_after(o.basis_bp@, hub, f.di_bp@, f.pp, rp, basis_noise, n)
    &&& delta.di@ == (if global {
        di_deltas(f.di_bp@)
    } else {
        Seq::empty()
    })
    &&& delta.basis@ == basis_deltas(o.basis_bp@, hub, f.di_bp@, f.pp, rp, basis_noise)
    &&& delta.clamps_hit@ == (if global {
        di_clamps(o.di_bp@, f.di_bp@, rp, n)
    } else {
        Seq::empty()
    }) + basis_clamps(o.basis_bp@, hub, f.di_bp@, f.pp, rp, basis_noise, n)
}

proof fn lemma_basis_after_keys(
    basis: Seq<BpEntry>,
    hub: HubId,
    keys: Seq<BpEntry>,
    pp: Pp,
    rp: Rulepack,
    noise: Seq<int>,
    n: nat,
    j: int,
)
    requires
        sorted_keys(keys),
        n <= j < keys.len(),
        forall|i: int| 0 <= i < keys.len() ==> #[trigger] keys[i].key <= u16::MAX,
    ensures
        lookup(basis_after(basis, hub, keys, pp, rp, noise, n), basis_key(hub, keys[j].key as int))
            == lookup(basis, basis_key(hub, keys[j].key as int)),
    decreases n,
{
    if n > 0 {
        lemma_basis_after_keys(basis, hub, keys, pp, rp, noise, (n - 1) as nat, j);
        let k1 = basis_key(hub, keys[n - 1].key as int);
        let k2 = basis_key(hub, keys[j].key as int);
        assert(keys[n - 1].key < keys[j].key);
        assert(k1 != k2);
        lemma_lookup_after_insert(
            basis_after(basis, hub, keys, pp, rp, noise, (n - 1) as nat),
            k1,
            BasisBp(basis_updated(basis, hub, keys, pp, rp, noise, n - 1) as i32),
            k2,
        );
    }
}

/// What a day's step returns and leaves: the tables and reports of `step_outcome` with
/// the noise of this world seed, version, hub and day; player power, rot, debt, interest,
/// overlay, plantings, day and generator cursors in the global scope; and every global
/// field untouched in the hub-only scope.
pub open spec fn step_result(
    rp: Rulepack,
    world_seed: u64,
    econ_version: u32,
    hub: HubId,
    scope: EconStepScope,
    o: EconState,
    f: EconState,
    delta: EconDelta,
) -> bool {
    &&& (step_outcome(
        rp,
        hub,
        scope,
        o,
        f,
        delta,
        step_di_noise(rp, world_seed, econ_version, o, scope),
        step_basis_noise(rp, world_seed, econ_version, hub, o, scope),
    ))
    &&& f.pp == pp_after_step(o, rp, scope)
    &&& delta.day == step_day(o, scope)
    &&& delta.hub == hub
    &&& delta.pp_before == o.pp
    &&& delta.pp_after == f.pp
    &&& delta.rot_before == o.rot_u16
    &&& delta.rot_after == f.rot_u16
    &&& delta.debt_before == o.debt_cents
    &&& delta.debt_after == f.debt_cents
    &&& f.last_clamp_hit == o.last_clamp_hit
    &&& (scope == EconStepScope::GlobalAndHub ==> {
        let rot = rot_conversion_spec(o.rot_u16 as int, rp.rot);
        let interest = accrue_spec(debt_with_rot(o, rp), rp.interest);
        &&& f.di_overlay_bp == decay_overlay_spec(
            o.di_overlay_bp as int,
            rp.di,
        )
        &&& f.pending_planting@ == kept_plantings(
            o.pending_planting@,
            rp.pp,
        )
        &&& f.rot_u16 == rot.0
        &&& delta.interest_delta.0 == interest.0
        &&& f.debt_cents.0 == interest.1
        &&& f.day.0 == (if o.day.0 == u32::MAX {
            u32::MAX as int
        } else {
            o.day.0 + 1
        })
        &&& delta.rng_cursors@.len() == 2
        &&& delta.rng_cursors@[0].label@ == "di"@
        &&& delta.rng_cursors@[0].draws as int == draws_after(0, (6 * o.di_bp@.len()) as int)
        &&& delta.rng_cursors@[1].label@ == "basis"@
        &&& delta.rng_cursors@[1].draws as int == draws_after(0, (6 * o.di_bp@.len()) as int)
    })
    &&& (scope == EconStepScope::HubOnly ==> {
        &&& f.di_overlay_bp == o.di_overlay_bp
        &&& f.pending_planting@ == o.pending_planting@
        &&& f.rot_u16 == o.rot_u16
        &&& f.debt_cents == o.debt_cents
        &&& f.day == o.day
        &&& delta.interest_delta.0 == 0
        &&& delta.rng_cursors@.len() == 1
        &&& delta.rng_cursors@[0].label@ == "basis"@
        &&& delta.rng_cursors@[0].draws as int == draws_after(0, (6 * o.di_bp@.len()) as int)
    })
}

/// Advances the economy by one day: with `GlobalAndHub`, the daily indices (one noise
/// sample per commodity from the global generator of the day), player power, rot
/// conversion and interest, and the day counter; then, in either scope, the basis of
/// `hub` for every commodity (one noise sample each from the hub's generator). With
/// `HubOnly` the step belongs to the previous day.
pub fn step_economy_day(
    rp: &Rulepack,
    world_seed: u64,
    econ_version: u32,
    hub: HubId,
    state: &mut EconState,
    scope: EconStepScope,
) -> (delta: EconDelta)
    requires
        econ_step_ok(*rp, world_seed, econ_version, hub, *old(state), scope),
    ensures
        final(state).wf(),
        step_result(*rp, world_seed, econ_version, hub, scope, *old(state), *final(state), delta),
{
    let ghost o = *state;
    let n = state.di_bp.len();
    let global = match scope {
        EconStepScope::GlobalAndHub => true,
        EconStepScope::HubOnly => false,
    };
    let day = if global {
        state.day
    } else {
        EconomyDay(state.day.0.saturating_sub(1))
    };
    let mut di_out: Vec<CommodityDelta> = Vec::new();
    let mut basis_out: Vec<CommodityDelta> = Vec::new();
    let mut clamps: Vec<ClampHit> = Vec::new();
    let mut cursors: Vec<RngCursor> = Vec::new();
    let pp_before = state.pp;
    let rot_before = state.rot_u16;
    let debt_before = state.debt_cents;
    let mut interest_delta = MoneyCents(0);
    let ghost di_noise = step_di_noise(*rp, world_seed, econ_version, o, scope);
    if global {
        // 1. Daily index
        let mut di_state = DiState { per_com: state.di_bp.duplicate(), overlay_bp: state.di_overlay_bp };
        let prev_di = state.di_bp.duplicate();
        let mut rng_di = DetRng::from_seed_global(world_seed, econ_version, day, 0);
        step_di(day, &mut di_state, rp, &mut rng_di);
        let ghost new_di = di_state.per_com@;
        proof {
            assert forall|i: int| 0 <= i < n implies #[trigger] new_di[i] == di_after(
                o.di_bp@,
                o.di_overlay_bp as int,
                *rp,
                di_noise,
            )[i] by {
                assert(di_noise[i] == noise_sample(
                    econ_stream(world_seed, econ_version, None, day, 0),
                    i as nat,
                    rp.di.noise_sigma_bp,
                    rp.di.noise_clamp_bp,
                ));
            }
            assert(new_di == di_after(o.di_bp@, o.di_overlay_bp as int, *rp, di_noise));
        }
        state.di_bp = di_state.per_com;
        state.di_overlay_bp = di_state.overlay_bp;
        let mut i: usize = 0;
        while i < n
            invariant
                i <= n,
                n == o.di_bp@.len(),
                state.di_bp@ == di_after(o.di_bp@, o.di_overlay_bp as int, *rp, di_noise),
                prev_di@ == o.di_bp@,
                state.di_bp@.len() == n,
                econ_step_ok(*rp, world_seed, econ_version, hub, o, scope),
                global,
                scope == EconStepScope::GlobalAndHub,
                di_out@ == di_deltas(state.di_bp@).take(i as int),
                clamps@ == di_clamps(o.di_bp@, state.di_bp@, *rp, i as nat),
                di_noise == step_di_noise(*rp, world_seed, econ_version, o, scope),
            decreases n - i,
        {
            let entry = state.di_bp.entry_at(i);
            let previous = prev_di.entry_at(i);
            proof {
                assert(entry.key <= u16::MAX) by {
                    assert(o.di_bp@[i as int].key == entry.key);
                }
            }
            let commodity = CommodityId(entry.key as u16);
            di_out.push(CommodityDelta { commodity, value: entry.value });
            proof {
                assert(di_deltas(state.di_bp@).take(i + 1) == di_deltas(state.di_bp@).take(
                    i as int,
                ).push(CommodityDelta { commodity, value: entry.value }));
                if rp.di.per_day_clamp_bp > 0 {
                    assert(step_new_di(*rp, world_seed, econ_version, o, scope)[i as int]
                        == state.di_bp@[i as int]);
                }
            }
            note_clamps(
                &mut clamps,
                ClampSource::Di,
                commodity,
                previous.value,
                entry.value,
                rp.di.per_day_clamp_bp,
                rp.di.absolute_min_bp,
                rp.di.absolute_max_bp,
            );
            i = i + 1;
        }
        proof {
            assert(di_deltas(state.di_bp@).take(n as int) == di_deltas(state.di_bp@));
        }
        cursors.push(RngCursor::new("di", rng_di.cursor()));
        // 2. Planting pull and player power
        let pp_now = state.pp;
        let new_pp = apply_planting_pull(pp_now, state, &rp.pp);
        state.pp = new_pp;
        // 3. Rot conversion and interest
        let (rot_after, debt_delta) = convert_rot_to_debt(state.rot_u16, &rp.rot);
        state.rot_u16 = rot_after;
        state.debt_cents = state.debt_cents.saturating_add(debt_delta);
        let (interest, debt_with_interest) = accrue_interest_per_leg(state.debt_cents, &rp.interest);
        state.debt_cents = debt_with_interest;
        interest_delta = interest;
        // 4. Next day
        state.day = EconomyDay(state.day.0.saturating_add(1));
    }
    let ghost di_now = state.di_bp@;
    let ghost clamps_di = clamps@;
    let ghost mid = *state;
    let ghost mid_cursors = cursors@;
    proof {
        state.di_bp.lemma_wf();
        assert forall|j: int| 0 <= j < n implies #[trigger] di_now[j].key == o.di_bp@[j].key by {
            if global {
                assert(di_now[j] == di_after(o.di_bp@, o.di_overlay_bp as int, *rp, di_noise)[j]);
            }
        }
    }
    assert(state.pp == pp_after_step(o, *rp, scope));
    assert(di_now == step_new_di(*rp, world_seed, econ_version, o, scope));
    // Bases of this hub, in commodity order
    let mut rng_basis = DetRng::from_seed(world_seed, econ_version, hub, day, 1);
    let ghost s_basis = rng_basis.state();
    let drivers = BasisDrivers { pp: state.pp, weather: Weather::Clear, closed_routes: 0, stock_dev: 0 };
    let ghost mut basis_noise: Seq<int> = Seq::empty();
    let mut i: usize = 0;
    while i < n
        invariant
            i <= n,
            n == o.di_bp@.len(),
            state.di_bp@ == di_now,
            state.di_bp.wf(),
            di_now.len() == n,
            sorted_keys(di_now),
            forall|j: int| 0 <= j < n ==> #[trigger] di_now[j].key == o.di_bp@[j].key,
            forall|j: int| 0 <= j < n ==> #[trigger] di_now[j].key <= u16::MAX,
            state.basis_bp.wf(),
            econ_step_ok(*rp, world_seed, econ_version, hub, o, scope),
            drivers == step_drivers(state.pp),
            state.pp == pp_after_step(o, *rp, scope),
            basis_noise == noise_seq(s_basis, i as nat, rp.basis.noise_sigma_bp, rp.basis.noise_clamp_bp),
            s_basis == econ_stream(world_seed, econ_version, Some(hub), day, 1),
            day == step_day(o, scope),
            rng_basis.state() == state_after(s_basis, (6 * i) as nat),
            di_now == step_new_di(*rp, world_seed, econ_version, o, scope),
            state.basis_bp@ == basis_after(o.basis_bp@, hub, di_now, state.pp, *rp, basis_noise, i as nat),
            basis_out@ == basis_deltas(o.basis_bp@, hub, di_now, state.pp, *rp, basis_noise).take(
                i as int,
            ),
            clamps@ == clamps_di + basis_clamps(
                o.basis_bp@,
                hub,
                di_now,
                state.pp,
                *rp,
                basis_noise,
                i as nat,
            ),
            rng_basis.draws() as int == draws_after(0, 6 * i as int),
            state.di_overlay_bp == mid.di_overlay_bp,
            state.pending_planting@ == mid.pending_planting@,
            state.rot_u16 == mid.rot_u16,
            state.debt_cents == mid.debt_cents,
            state.day == mid.day,
            state.last_clamp_hit == mid.last_clamp_hit,
            cursors@ == mid_cursors,
        decreases n - i,
    {
        let entry = state.di_bp.entry_at(i);
        let commodity = CommodityId(entry.key as u16);
        let key = basis_key_of(hub, commodity);
        let current = match state.basis_bp.get(key) {
            Some(v) => v,
            None => BasisBp(0),
        };
        proof {
            lemma_basis_after_keys(o.basis_bp@, hub, di_now, state.pp, *rp, basis_noise, i as nat, i as int);
            let full = step_basis_noise(*rp, world_seed, econ_version, hub, o, scope);
            assert(full[i as int] == noise_sample(
                s_basis,
                i as nat,
                rp.basis.noise_sigma_bp,
                rp.basis.noise_clamp_bp,
            ));
            assert(fits_i32(driver_terms(step_drivers(pp_after_step(o, *rp, scope)), *rp) + full[i as int]));
        }
        let updated = update_basis(current, &drivers, rp, &mut rng_basis);
        let ghost noise_i = noise_sample(s_basis, i as nat, rp.basis.noise_sigma_bp, rp.basis.noise_clamp_bp);
        let ghost old_noise = basis_noise;
        proof {
            basis_noise = basis_noise.push(noise_i);
            assert(basis_noise =~= noise_seq(s_basis, (i + 1) as nat, rp.basis.noise_sigma_bp, rp.basis.noise_clamp_bp));
            lemma_state_after_add(s_basis, (6 * i) as nat, 6);
            assert(updated.0 as int == basis_updated(o.basis_bp@, hub, di_now, state.pp, *rp, basis_noise, i as int));
            lemma_basis_after_prefix(o.basis_bp@, hub, di_now, state.pp, *rp, old_noise, basis_noise, i as nat);
            lemma_basis_clamps_prefix(o.basis_bp@, hub, di_now, state.pp, *rp, old_noise, basis_noise, i as nat);
            assert forall|j: int| 0 <= j < i implies #[trigger] basis_deltas(o.basis_bp@, hub, di_now, state.pp, *rp, basis_noise)[j]
                == basis_deltas(o.basis_bp@, hub, di_now, state.pp, *rp, old_noise)[j] by {
                assert(basis_noise[j] == old_noise[j]);
            }
            if rp.basis.per_day_clamp_bp > 0 {
                let full = step_basis_noise(*rp, world_seed, econ_version, hub, o, scope);
                assert(full[i as int] == basis_noise[i as int]);
                assert(basis_updated(o.basis_bp@, hub, di_now, state.pp, *rp, full, i as int)
                    == basis_updated(o.basis_bp@, hub, di_now, state.pp, *rp, basis_noise, i as int));
            }
        }
        note_clamps(
            &mut clamps,
            ClampSource::Basis,
            commodity,
            current,
            updated,
            rp.basis.per_day_clamp_bp,
            rp.basis.absolute_min_bp,
            rp.basis.absolute_max_bp,
        );
        state.basis_bp.insert(key, updated);
        basis_out.push(CommodityDelta { commodity, value: updated });
        proof {
            assert(basis_deltas(o.basis_bp@, hub, di_now, state.pp, *rp, basis_noise).take(i + 1)
                =~= basis_out@);
            assert(clamps@ == clamps_di + basis_clamps(
                o.basis_bp@,
                hub,
                di_now,
                state.pp,
                *rp,
                basis_noise,
                (i + 1) as nat,
            ));
        }
        i = i + 1;
    }
    proof {
        assert(basis_deltas(o.basis_bp@, hub, di_now, state.pp, *rp, basis_noise).take(n as int)
            == basis_deltas(o.basis_bp@, hub, di_now, state.pp, *rp, basis_noise));
    }
    cursors.push(RngCursor::new("basis", rng_basis.cursor()));
    let delta = EconDelta {
        day,
        hub,
        di: di_out,
        basis: basis_out,
        pp_before,
        pp_after: state.pp,
        rot_before,
        rot_after: state.rot_u16,
        debt_before,
        interest_delta,
        debt_after: state.debt_cents,
        clamps_hit: clamps,
        rng_cursors: cursors,
    };
    assert(step_outcome(*rp, hub, scope, o, *state, delta, di_noise, basis_noise));
    delta
}

proof fn lemma_basis_after_prefix(
    basis: Seq<BpEntry>,
    hub: HubId,
    keys: Seq<BpEntry>,
    pp: Pp,
    rp: Rulepack,
    short: Seq<int>,
    long: Seq<int>,
    n: nat,
)
    requires
        n <= short.len() < long.len(),
        forall|j: int| 0 <= j < short.len() ==> #[trigger] short[j] == long[j],
    ensures
        basis_after(basis, hub, keys, pp, rp, short, n) == basis_after(basis, hub, keys, pp, rp, long, n),
    decreases n,
{
    if n > 0 {
        lemma_basis_after_prefix(basis, hub, keys, pp, rp, short, long, (n - 1) as nat);
        assert(short[n - 1] == long[n - 1]);
    }
}

proof fn lemma_basis_clamps_prefix(
    basis: Seq<BpEntry>,
    hub: HubId,
    keys: Seq<BpEntry>,
    pp: Pp,
    rp: Rulepack,
    short: Seq<int>,
    long: Seq<int>,
    n: nat,
)
    requires
        n <= short.len() < long.len(),
        forall|j: int| 0 <= j < short.len() ==> #[trigger] short[j] == long[j],
    ensures
        basis_clamps(basis, hub, keys, pp, rp, short, n) == basis_clamps(basis, hub, keys, pp, rp, long, n),
    decreases n,
{
    if n > 0 {
        lemma_basis_clamps_prefix(basis, hub, keys, pp, rp, short, long, (n - 1) as nat);
        assert(short[n - 1] == long[n - 1]);
    }
}

/// A day's step is reproducible: for the same rulepack, hub, scope, starting state and
/// noise, any two outcomes with the same player power leave the same indices and bases
/// and report the same changes and clamp hits. (`step_economy_day` fixes the noise from
/// the world seed, version, hub and day, and the player power from the starting state.)
pub proof fn lemma_step_outcome_unique(
    rp: Rulepack,
    hub: HubId,
    scope: EconStepScope,
    o: EconState,
    f1: EconState,
    d1: EconDelta,
    f2: EconState,
    d2: EconDelta,
    di_noise: Seq<int>,
    basis_noise: Seq<int>,
)
    requires
        step_outcome(rp, hub, scope, o, f1, d1, di_noise, basis_noise),
        step_outcome(rp, hub, scope, o, f2, d2, di_noise, basis_noise),
        f1.pp == f2.pp,
    ensures
        f1.di_bp@ == f2.di_bp@,
        f1.basis_bp@ == f2.basis_bp@,
        d1.di@ == d2.di@,
        d1.basis@ == d2.basis@,
        d1.clamps_hit@ == d2.clamps_hit@,
{
}

fn step_day_of(state: &EconState, scope: EconStepScope) -> (r: EconomyDay)
    ensures
        r == step_day(*state, scope),
{
    match scope {
        EconStepScope::GlobalAndHub => state.day,
        EconStepScope::HubOnly => EconomyDay(state.day.0.saturating_sub(1)),
    }
}

fn pp_after_step_of(state: &EconState, rp: &Rulepack, scope: EconStepScope) -> (r: Pp)
    requires
        scope == EconStepScope::GlobalAndHub ==> rp.pp.min_pp <= rp.pp.max_pp && planting_in_range(
            state.pending_planting@,
            rp.pp,
        ),
    ensures
        r == pp_after_step(*state, *rp, scope),
{
    match scope {
        EconStepScope::GlobalAndHub => {
            let mut scratch = EconState {
                day: state.day,
                di_bp: BpTable::new(),
                di_overlay_bp: 0,
                basis_bp: BpTable::new(),
                pp: state.pp,
                rot_u16: 0,
                pending_planting: copy_plantings(&state.pending_planting),
                debt_cents: MoneyCents(0),
                last_clamp_hit: false,
            };
            apply_planting_pull(state.pp, &mut scratch, &rp.pp)
        },
        EconStepScope::HubOnly => state.pp,
    }
}

/// `updated - previous` fits the checks of `diff_fits` (`-2^31 < d < 2^31`).
fn diff_ok(previous: i32, updated: i32) -> (r: bool)
    ensures
        r == diff_fits(previous as int, updated as int, updated as int),
{
    let d = updated as i64 - previous as i64;
    d > -0x8000_0000i64 && d < 0x8000_0000i64
}

/// Whether the noise-dependent conditions of the step hold (`econ_step_values_ok`),
/// found by drawing the same noise the step would draw, without changing `state`.
pub fn step_values_fit(
    rp: &Rulepack,
    world_seed: u64,
    econ_version: u32,
    hub: HubId,
    state: &EconState,
    scope: EconStepScope,
) -> (r: bool)
    requires
        econ_step_static_ok(*rp, *state, scope),
    ensures
        r == econ_step_values_ok(*rp, world_seed, econ_version, hub, *state, scope),
{
    let n = state.di_bp.len();
    let global = match scope {
        EconStepScope::GlobalAndHub => true,
        EconStepScope::HubOnly => false,
    };
    let day = step_day_of(state, scope);
    let ghost new_di = step_new_di(*rp, world_seed, econ_version, *state, scope);
    if global && rp.di.per_day_clamp_bp > 0 {
        let mut rng_di = DetRng::from_seed_global(world_seed, econ_version, day, 0);
        let ghost s_di = rng_di.state();
        let mut i: usize = 0;
        while i < n
            invariant
                i <= n,
                n == state.di_bp@.len(),
                scope == EconStepScope::GlobalAndHub,
                rp.di.per_day_clamp_bp > 0,
                econ_step_static_ok(*rp, *state, scope),
                s_di == econ_stream(world_seed, econ_version, None, step_day(*state, scope), 0),
                rng_di.state() == state_after(s_di, (6 * i) as nat),
                new_di == step_new_di(*rp, world_seed, econ_version, *state, scope),
                forall|j: int|
                    0 <= j < i ==> diff_fits(
                        state.di_bp@[j].value.0 as int,
                        (#[trigger] new_di[j]).value.0 as int,
                        new_di[j].value.0 as int,
                    ),
            decreases n - i,
        {
            let entry = state.di_bp.entry_at(i);
            let noise = rng_di.norm_bounded_bp(0, rp.di.noise_sigma_bp, rp.di.noise_clamp_bp);
            let next = di_next(entry.value, state.di_overlay_bp, &rp.di, noise);
            proof {
                lemma_state_after_add(s_di, (6 * i) as nat, 6);
                crate::economy::di::lemma_di_within_bounds(
                    entry.value.0 as int,
                    state.di_overlay_bp as int,
                    rp.di,
                    noise.0 as int,
                );
                assert(new_di[i as int].value.0 == next);
            }
            if !diff_ok(entry.value.0, next) {
                assert(!diff_fits(
                    state.di_bp@[i as int].value.0 as int,
                    new_di[i as int].value.0 as int,
                    new_di[i as int].value.0 as int,
                ));
                return false;
            }
            i = i + 1;
        }
    }
    if n == 0 {
        return true;
    }
    let pp = pp_after_step_of(state, rp, scope);
    let drivers = BasisDrivers { pp, weather: Weather::Clear, closed_routes: 0, stock_dev: 0 };
    let terms = driver_terms_sum(&drivers, rp);
    let mut rng_basis = DetRng::from_seed(world_seed, econ_version, hub, day, 1);
    let ghost s_b = rng_basis.state();
    let ghost noise_all = step_basis_noise(*rp, world_seed, econ_version, hub, *state, scope);
    let mut i: usize = 0;
    while i < n
        invariant
            i <= n,
            n == state.di_bp@.len(),
            econ_step_static_ok(*rp, *state, scope),
            s_b == econ_stream(world_seed, econ_version, Some(hub), step_day(*state, scope), 1),
            rng_basis.state() == state_after(s_b, (6 * i) as nat),
            noise_all == step_basis_noise(*rp, world_seed, econ_version, hub, *state, scope),
            new_di == step_new_di(*rp, world_seed, econ_version, *state, scope),
            drivers == step_drivers(pp_after_step(*state, *rp, scope)),
            terms as int == driver_terms(drivers, *rp),
            forall|j: int| 0 <= j < i ==> fits_i32(driver_terms(drivers, *rp) + #[trigger] noise_all[j]),
            rp.basis.per_day_clamp_bp > 0 ==> forall|j: int|
                0 <= j < i ==> diff_fits(
                    basis_current(state.basis_bp@, hub, new_di[j].key as int),
                    #[trigger] basis_updated(state.basis_bp@, hub, new_di, drivers.pp, *rp, noise_all, j),
                    basis_updated(state.basis_bp@, hub, new_di, drivers.pp, *rp, noise_all, j),
                ),
        decreases n - i,
    {
        let entry = state.di_bp.entry_at(i);
        let noise = rng_basis.norm_bounded_bp(0, rp.basis.noise_sigma_bp, rp.basis.noise_clamp_bp);
        proof {
            lemma_state_after_add(s_b, (6 * i) as nat, 6);
            assert(noise_all[i as int] == noise.0);
            assert(new_di[i as int].key == entry.key);
        }
        let sum = terms as i64 + noise.0 as i64;
        if sum < -0x8000_0000i64 || sum > 0x7FFF_FFFFi64 {
            return false;
        }
        if rp.basis.per_day_clamp_bp > 0 {
            let key = basis_key_of(hub, CommodityId(entry.key as u16));
            let current = match state.basis_bp.get(key) {
                Some(v) => v,
                None => BasisBp(0),
            };
            let updated = basis_step(current, &drivers, rp, noise);
            assert(current.0 as int == basis_current(state.basis_bp@, hub, new_di[i as int].key as int));
            assert(updated.0 as int == basis_updated(state.basis_bp@, hub, new_di, drivers.pp, *rp, noise_all, i as int));
            if !diff_ok(current.0, updated.0) {
                return false;
            }
        }
        i = i + 1;
    }
    true
}

/// Whether the noise-independent conditions of the step hold (`econ_step_static_ok`).
pub fn step_static_fits(rp: &Rulepack, state: &EconState, scope: EconStepScope) -> (r: bool)
    ensures
        r == econ_step_static_ok(*rp, *state, scope),
{
    if !state.check_wf() {
        return false;
    }
    let n = state.di_bp.len();
    let global = match scope {
        EconStepScope::GlobalAndHub => true,
        EconStepScope::HubOnly => false,
    };
    if global {
        if rp.di.overlay_min_bp > rp.di.overlay_max_bp || rp.rot.rot_floor > rp.rot.rot_ceiling
            || rp.pp.min_pp > rp.pp.max_pp {
            return false;
        }
        if !planting_fits(&state.pending_planting, &rp.pp) {
            return false;
        }
        let (_rot_after, debt_delta) = convert_rot_to_debt(state.rot_u16, &rp.rot);
        let debt = state.debt_cents.saturating_add(debt_delta);
        assert(debt.0 as int == debt_with_rot(*state, *rp));
        if !interest_fits(debt, &rp.interest) {
            return false;
        }
        if n > 0 && rp.di.absolute_min_bp > rp.di.absolute_max_bp {
            return false;
        }
    }
    if n > 0 {
        if rp.basis.absolute_min_bp > rp.basis.absolute_max_bp {
            return false;
        }
        let pp = pp_after_step_of(state, rp, scope);
        let drivers = BasisDrivers { pp, weather: Weather::Clear, closed_routes: 0, stock_dev: 0 };
        return terms_fit(&drivers, rp);
    }
    true
}

/// One economy day where the step can run without a panic (`econ_step_ok`): then
/// `Some` of what `step_economy_day` returns, with `state` advanced as it says; else
/// `None`, with `state` unchanged.
pub fn try_step_economy_day(
    rp: &Rulepack,
    world_seed: u64,
    econ_version: u32,
    hub: HubId,
    state: &mut EconState,
    scope: EconStepScope,
) -> (r: Option<EconDelta>)
    ensures
        r is Some <==> econ_step_ok(*rp, world_seed, econ_version, hub, *old(state), scope),
        r is None ==> *final(state) == *old(state),
        r matches Some(delta) ==> final(state).wf() && step_result(
            *rp,
            world_seed,
            econ_version,
            hub,
            scope,
            *old(state),
            *final(state),
            delta,
        ),
{
    if !step_static_fits(rp, state, scope) {
        return None;
    }
    if !step_values_fit(rp, world_seed, econ_version, hub, state, scope) {
        return None;
    }
    Some(step_economy_day(rp, world_seed, econ_version, hub, state, scope))
}

} // verus!
