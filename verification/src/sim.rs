use vstd::prelude::*;
use crate::economy::money::MoneyCents;
use crate::economy::pricing::{compute_price, price_spec};
use crate::economy::rulepack::Rulepack;
use crate::economy::state::{
    basis_key, basis_key_of, econ_step_ok, step_result, try_step_economy_day, EconDelta, EconState,
    EconStepScope,
};
use crate::save::v1_1::copy_plantings;
use crate::economy::table::{lookup, BpEntry, BpTable};
use crate::economy::types::{BasisBp, CommodityId, EconomyDay, HubId, Pp};

verus! {

/// Base price, in cents, at which simulated prices are quoted.
pub const SIM_BASE_PRICE_CENTS: i64 = 10_000;

/// `values[idx]`, or `default` past the end.
pub fn pick_value<T: Copy>(idx: usize, values: &[T], default: T) -> (r: T)
    ensures
        r == (if idx < values@.len() {
            values@[idx as int]
        } else {
            default
        }),
{
    if idx < values.len() {
        values[idx]
    } else {
        default
    }
}

/// Starting state of hub number `idx` (from 0): commodities 1 and 2 at index 0, no bases,
/// player power and debt from the lists (neutral power and no debt past their ends).
pub open spec fn seeded_state_ok(s: EconState, idx: int, pp: Seq<u16>, debt: Seq<i64>, neutral_pp: u16) -> bool {
    &&& s.wf()
    &&& s.day == EconomyDay(0)
    &&& s.di_bp@ == seq![BpEntry { key: 1, value: BasisBp(0) }, BpEntry { key: 2, value: BasisBp(0) }]
    &&& s.di_overlay_bp == 0
    &&& s.basis_bp@.len() == 0
    &&& s.pp == Pp(if idx < pp.len() { pp[idx] } else { neutral_pp })
    &&& s.rot_u16 == 0
    &&& s.pending_planting@.len() == 0
    &&& s.debt_cents == MoneyCents(if idx < debt.len() { debt[idx] } else { 0 })
    &&& !s.last_clamp_hit
}

/// The starting states of `hubs` simulated hubs.
pub fn seed_states(hubs: u16, pp: &[u16], debt: &[i64], neutral_pp: u16) -> (r: Vec<EconState>)
    ensures
        r@.len() == hubs,
        forall|i: int| 0 <= i < hubs ==> seeded_state_ok(#[trigger] r@[i], i, pp@, debt@, neutral_pp),
{
    let mut states: Vec<EconState> = Vec::new();
    let mut idx: usize = 0;
    while idx < hubs as usize
        invariant
            idx <= hubs,
            states@.len() == idx,
            forall|i: int| 0 <= i < idx ==> seeded_state_ok(#[trigger] states@[i], i, pp@, debt@, neutral_pp),
        decreases hubs - idx,
    {
        let start = vec![BpEntry { key: 1, value: BasisBp(0) }, BpEntry { key: 2, value: BasisBp(0) }];
        assert(start@ =~= seq![BpEntry { key: 1, value: BasisBp(0) }, BpEntry { key: 2, value: BasisBp(0) }]);
        let di_bp = BpTable::from_sorted(start);
        let pp_value = pick_value(idx, pp, neutral_pp);
        let debt_value = pick_value(idx, debt, 0i64);
        states.push(
            EconState {
                day: EconomyDay(0),
                di_bp,
                di_overlay_bp: 0,
                basis_bp: BpTable::new(),
                pp: Pp(pp_value),
                rot_u16: 0,
                pending_planting: Vec::new(),
                debt_cents: MoneyCents(debt_value),
                last_clamp_hit: false,
            },
        );
        idx = idx + 1;
    }
    states
}

/// One row of the simulation's CSV output.
#[derive(Debug, Clone, Copy, PartialEq, Eq, Structural)]
pub struct SimRow {
    pub day: u32,
    pub hub: u16,
    pub com: u16,
    pub di_bp: i32,
    pub basis_bp: i32,
    pub price_cents: i64,
    pub debt_cents: i64,
    pub interest_cents: i64,
    pub pp: u16,
    pub rot_u16: u16,
}

/// The basis of `hub` for commodity `com` in `basis`, else 0.
pub open spec fn basis_or_zero(basis: Seq<BpEntry>, hub: HubId, com: int) -> BasisBp {
    match lookup(basis, basis_key(hub, com)) {
        Some(v) => v,
        None => BasisBp(0),
    }
}

/// The rows of one hub on one day, as `hub_rows` builds them.
pub open spec fn hub_rows_spec(day: u32, hub: HubId, s: EconState, interest: MoneyCents) -> Seq<SimRow> {
    Seq::new(
        s.di_bp@.len(),
        |i: int|
            {
                let e = s.di_bp@[i];
                let b = basis_or_zero(s.basis_bp@, hub, e.key as int);
                SimRow {
                    day,
                    hub: hub.0,
                    com: e.key as u16,
                    di_bp: e.value.0,
                    basis_bp: b.0,
                    price_cents: price_spec(SIM_BASE_PRICE_CENTS as int, e.value.0 as int, b.0 as int)
                        as i64,
                    debt_cents: s.debt_cents.0,
                    interest_cents: interest.0,
                    pp: s.pp.0,
                    rot_u16: s.rot_u16,
                }
            },
    )
}

/// The rows of one hub on one day: one per commodity, in commodity order, priced from the
/// base price with the index and this hub's basis.
pub fn hub_rows(day: u32, hub: HubId, state: &EconState, interest: MoneyCents) -> (r: Vec<SimRow>)
    requires
        state.wf(),
    ensures
        r@ == hub_rows_spec(day, hub, *state, interest),
        r@.len() == state.di_bp@.len(),
        forall|i: int|
            0 <= i < r@.len() ==> {
                let e = state.di_bp@[i];
                let b = basis_or_zero(state.basis_bp@, hub, e.key as int);
                &&& (#[trigger] r@[i]).day == day
                &&& r@[i].hub == hub.0
                &&& r@[i].com as int == e.key as int
                &&& r@[i].di_bp == e.value.0
                &&& r@[i].basis_bp == b.0
                &&& r@[i].price_cents == price_spec(SIM_BASE_PRICE_CENTS as int, e.value.0 as int, b.0 as int)
                &&& r@[i].debt_cents == state.debt_cents.0
                &&& r@[i].interest_cents == interest.0
                &&& r@[i].pp == state.pp.0
                &&& r@[i].rot_u16 == state.rot_u16
            },
{
    let mut rows: Vec<SimRow> = Vec::new();
    let n = state.di_bp.len();
    let mut i: usize = 0;
    while i < n
        invariant
            i <= n,
            n == state.di_bp@.len(),
            state.wf(),
            rows@.len() == i,
            forall|k: int|
                0 <= k < i ==> {
                    let e = state.di_bp@[k];
                    let b = basis_or_zero(state.basis_bp@, hub, e.key as int);
                    &&& (#[trigger] rows@[k]).day == day
                    &&& rows@[k].hub == hub.0
                    &&& rows@[k].com as int == e.key as int
                    &&& rows@[k].di_bp == e.value.0
                    &&& rows@[k].basis_bp == b.0
                    &&& rows@[k].price_cents == price_spec(SIM_BASE_PRICE_CENTS as int, e.value.0 as int, b.0 as int)
                    &&& rows@[k].debt_cents == state.debt_cents.0
                    &&& rows@[k].interest_cents == interest.0
                    &&& rows@[k].pp == state.pp.0
                    &&& rows@[k].rot_u16 == state.rot_u16
                },
        decreases n - i,
    {
        let e = state.di_bp.entry_at(i);
        assert(e.key <= u16::MAX);
        let com = CommodityId(e.key as u16);
        let key = basis_key_of(hub, com);
        let basis_bp = match state.basis_bp.get(key) {
            Some(v) => v,
            None => BasisBp(0),
        };
        let price = compute_price(MoneyCents(SIM_BASE_PRICE_CENTS), e.value, basis_bp);
        rows.push(
            SimRow {
                day,
                hub: hub.0,
                com: com.0,
                di_bp: e.value.0,
                basis_bp: basis_bp.0,
                price_cents: price.0,
                debt_cents: state.debt_cents.0,
                interest_cents: interest.0,
                pp: state.pp.0,
                rot_u16: state.rot_u16,
            },
        );
        i = i + 1;
    }
    assert(rows@ =~= hub_rows_spec(day, hub, *state, interest));
    rows
}

/// Two economies agree on every field (the tables by their entries).
pub open spec fn econ_copy_of(a: EconState, b: EconState) -> bool {
    &&& a.day == b.day
    &&& a.di_bp@ == b.di_bp@
    &&& a.di_bp.wf() == b.di_bp.wf()
    &&& a.di_overlay_bp == b.di_overlay_bp
    &&& a.basis_bp@ == b.basis_bp@
    &&& a.basis_bp.wf() == b.basis_bp.wf()
    &&& a.pp == b.pp
    &&& a.rot_u16 == b.rot_u16
    &&& a.pending_planting@ == b.pending_planting@
    &&& a.debt_cents == b.debt_cents
    &&& a.last_clamp_hit == b.last_clamp_hit
}

fn copy_econ(s: &EconState) -> (r: EconState)
    ensures
        econ_copy_of(r, *s),
{
    EconState {
        day: s.day,
        di_bp: s.di_bp.duplicate(),
        di_overlay_bp: s.di_overlay_bp,
        basis_bp: s.basis_bp.duplicate(),
        pp: s.pp,
        rot_u16: s.rot_u16,
        pending_planting: copy_plantings(&s.pending_planting),
        debt_cents: s.debt_cents,
        last_clamp_hit: s.last_clamp_hit,
    }
}

/// The scope of hub number `h` (from 1) in a simulated day: the first hub advances the
/// whole economy, every later hub only its own basis.
pub open spec fn sim_scope(h: int) -> EconStepScope {
    if h == 1 {
        EconStepScope::GlobalAndHub
    } else {
        EconStepScope::HubOnly
    }
}

/// Hub number `h` of day `day` is stepped from `mid` to `f` with its scope, reporting
/// `delta`, and its rows (built from `f` with the step's interest) follow `prior`.
pub open spec fn sim_hub_step(
    rp: Rulepack,
    world_seed: u64,
    econ_version: u32,
    day: u32,
    h: nat,
    mid: EconState,
    f: EconState,
    delta: EconDelta,
    prior: Seq<SimRow>,
    rows: Seq<SimRow>,
) -> bool {
    &&& econ_step_ok(rp, world_seed, econ_version, HubId(h as u16), mid, sim_scope(h as int))
    &&& f.wf()
    &&& step_result(rp, world_seed, econ_version, HubId(h as u16), sim_scope(h as int), mid, f, delta)
    &&& rows == prior + hub_rows_spec(day, HubId(h as u16), f, delta.interest_delta)
}

/// After hubs `1..=k` of day `day` were stepped from `o` on one shared economy, the
/// economy is `f` and the rows written so far are `rows`.
pub open spec fn sim_day_after(
    rp: Rulepack,
    world_seed: u64,
    econ_version: u32,
    day: u32,
    k: nat,
    o: EconState,
    f: EconState,
    rows: Seq<SimRow>,
) -> bool
    decreases k,
{
    if k == 0 {
        econ_copy_of(f, o) && rows == Seq::<SimRow>::empty()
    } else {
        exists|mid: EconState, delta: EconDelta, prior: Seq<SimRow>|
            #[trigger] sim_hub_step(rp, world_seed, econ_version, day, k, mid, f, delta, prior, rows)
                && sim_day_after(rp, world_seed, econ_version, day, (k - 1) as nat, o, mid, prior)
    }
}

/// One simulated day of `hubs` hubs on one shared economy: hub 1 is stepped with
/// `GlobalAndHub` and hubs `2..=hubs` with `HubOnly`, in order; each hub's rows are taken
/// right after its step, with the step's interest (0 for the later hubs). `None` when some
/// hub's step cannot run on the economy it is given (`econ_step_ok`), and then `state` is
/// unchanged.
pub fn simulate_day(
    rp: &Rulepack,
    world_seed: u64,
    econ_version: u32,
    day: u32,
    hubs: u16,
    state: &mut EconState,
) -> (r: Option<Vec<SimRow>>)
    ensures
        r matches Some(rows) ==> sim_day_after(
            *rp,
            world_seed,
            econ_version,
            day,
            hubs as nat,
            *old(state),
            *final(state),
            rows@,
        ),
        r is None ==> *final(state) == *old(state) && exists|j: nat, mid: EconState, prior: Seq<SimRow>|
            1 <= j <= hubs && #[trigger] sim_day_after(
                *rp,
                world_seed,
                econ_version,
                day,
                (j - 1) as nat,
                *old(state),
                mid,
                prior,
            ) && !econ_step_ok(*rp, world_seed, econ_version, HubId(j as u16), mid, sim_scope(j as int)),
{
    let mut work = copy_econ(state);
    let mut rows: Vec<SimRow> = Vec::new();
    let mut k: u16 = 0;
    assert(sim_day_after(*rp, world_seed, econ_version, day, 0, *state, work, rows@));
    while k < hubs
        invariant
            k <= hubs,
            sim_day_after(*rp, world_seed, econ_version, day, k as nat, *state, work, rows@),
            k > 0 ==> work.wf(),
        decreases hubs - k,
    {
        let h: u16 = k + 1;
        let scope = if k == 0 {
            EconStepScope::GlobalAndHub
        } else {
            EconStepScope::HubOnly
        };
        assert(scope == sim_scope(h as int));
        let ghost mid = work;
        let ghost prior = rows@;
        match try_step_economy_day(rp, world_seed, econ_version, HubId(h), &mut work, scope) {
            None => {
                assert(1 <= h as nat <= hubs && sim_day_after(
                    *rp,
                    world_seed,
                    econ_version,
                    day,
                    (h as nat - 1) as nat,
                    *state,
                    mid,
                    prior,
                ) && !econ_step_ok(*rp, world_seed, econ_version, HubId(h), mid, sim_scope(h as int)));
                return None;
            },
            Some(delta) => {
                let hr = hub_rows(day, HubId(h), &work, delta.interest_delta);
                let mut i: usize = 0;
                while i < hr.len()
                    invariant
                        i <= hr@.len(),
                        rows@ == prior + hr@.take(i as int),
                    decreases hr.len() - i,
                {
                    rows.push(hr[i]);
                    assert(hr@.take(i + 1) == hr@.take(i as int).push(hr@[i as int]));
                    i = i + 1;
                }
                assert(hr@.take(hr@.len() as int) == hr@);
                assert(sim_hub_step(*rp, world_seed, econ_version, day, h as nat, mid, work, delta, prior, rows@));
            },
        }
        k = h;
    }
    *state = work;
    Some(rows)
}

/// A simulated day advances the shared economy once: every row of the day reports the
/// same debt (the economy's debt at the end of the day), and only hub 1 reports interest.
pub proof fn lemma_sim_day_single_advance(
    rp: Rulepack,
    world_seed: u64,
    econ_version: u32,
    day: u32,
    k: nat,
    o: EconState,
    f: EconState,
    rows: Seq<SimRow>,
)
    requires
        k <= u16::MAX,
        sim_day_after(rp, world_seed, econ_version, day, k, o, f, rows),
    ensures
        forall|i: int| 0 <= i < rows.len() ==> (#[trigger] rows[i]).debt_cents == f.debt_cents.0,
        forall|i: int| 0 <= i < rows.len() && (#[trigger] rows[i]).hub != 1 ==> rows[i].interest_cents == 0,
    decreases k,
{
    if k > 0 {
        let (mid, delta, prior) = choose|mid: EconState, delta: EconDelta, prior: Seq<SimRow>|
            #[trigger] sim_hub_step(rp, world_seed, econ_version, day, k, mid, f, delta, prior, rows)
                && sim_day_after(rp, world_seed, econ_version, day, (k - 1) as nat, o, mid, prior);
        lemma_sim_day_single_advance(rp, world_seed, econ_version, day, (k - 1) as nat, o, mid, prior);
        let new_rows = hub_rows_spec(day, HubId(k as u16), f, delta.interest_delta);
        assert forall|i: int| 0 <= i < rows.len() implies (#[trigger] rows[i]).debt_cents == f.debt_cents.0
            && (rows[i].hub != 1 ==> rows[i].interest_cents == 0) by {
            if i < prior.len() {
                assert(rows[i] == prior[i]);
                if k > 1 {
                    assert(f.debt_cents == mid.debt_cents);
                } else {
                    assert(prior.len() == 0);
                }
            } else {
                assert(rows[i] == new_rows[i - prior.len()]);
                if k > 1 {
                    assert(delta.interest_delta.0 == 0);
                }
            }
        }
    }
}

} // verus!
