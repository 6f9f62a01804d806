use vstd::prelude::*;
use crate::bounds::{clamp_i64, clamped};
use super::interest::nonneg;
use super::rng::trunc_div;
use super::rulepack::PpCfg;
use super::state::EconState;
use super::types::{HubId, Pp};

verus! {

/// A planting whose pull on player power fades with age.
#[derive(Clone, Copy, Debug, PartialEq, Eq, Structural)]
pub struct PendingPlanting {
    pub hub: HubId,
    pub size: u8,
    pub age_days: u16,
}

/// Today's pull of one planting: `size` units, less the age decay, never negative.
pub open spec fn contribution(p: PendingPlanting, cfg: PpCfg) -> int {
    nonneg(
        cfg.planting_size_to_pp_bp as int * p.size as int - cfg.decay_per_day_bp as int
            * p.age_days as int,
    )
}

/// Total pull of the plantings.
pub open spec fn total_pull(s: Seq<PendingPlanting>, cfg: PpCfg) -> int
    decreases s.len(),
{
    if s.len() == 0 {
        0
    } else {
        total_pull(s.drop_last(), cfg) + contribution(s.last(), cfg)
    }
}

/// The planting one day older (its age saturates at `u16::MAX`).
pub open spec fn aged(p: PendingPlanting) -> PendingPlanting {
    PendingPlanting {
        age_days: if p.age_days == u16::MAX {
            u16::MAX
        } else {
            (p.age_days + 1) as u16
        },
        ..p
    }
}

/// A (one day older) planting is kept while it is younger than the maximum age, has a
/// size, and still pulls.
pub open spec fn survives(p: PendingPlanting, cfg: PpCfg) -> bool {
    &&& p.age_days < cfg.planting_max_age_days
    &&& p.size != 0
    &&& cfg.planting_size_to_pp_bp as int * p.size as int - cfg.decay_per_day_bp as int
        * p.age_days as int > 0
}

/// The plantings after one day: each one a day older, the expired ones dropped, in order.
pub open spec fn kept_plantings(s: Seq<PendingPlanting>, cfg: PpCfg) -> Seq<PendingPlanting>
    decreases s.len(),
{
    if s.len() == 0 {
        Seq::empty()
    } else {
        let k = kept_plantings(s.drop_last(), cfg);
        let a = aged(s.last());
        if survives(a, cfg) {
            k.push(a)
        } else {
            k
        }
    }
}

/// The effective pull decay, limited to `±10_000` bp.
pub open spec fn pull_decay_bp(cfg: PpCfg) -> int {
    clamped(cfg.pull_decay_bp as int, -10000, 10000)
}

/// The pull after its daily decay: `total * (10_000 - pull_decay) / 10_000`.
pub open spec fn effective_pull(total: int, cfg: PpCfg) -> int {
    trunc_div(total * (10000 - pull_decay_bp(cfg)), 10000)
}

/// PP after one day: passive decay of the gap to neutral by `decay_per_day_bp`, plus the
/// decayed pull scaled by `pull_strength_bp`, clamped to `[min_pp, max_pp]`.
pub open spec fn pull_pp_spec(pp: int, total: int, cfg: PpCfg) -> int {
    let delta = trunc_div(effective_pull(total, cfg) * cfg.pull_strength_bp as int, 10000);
    let passive = trunc_div((pp - cfg.neutral_pp as int) * cfg.decay_per_day_bp as int, 10000);
    clamped(pp - passive + delta, cfg.min_pp as int, cfg.max_pp as int)
}

/// The PP arithmetic stays inside `i64` for these plantings.
pub open spec fn planting_in_range(s: Seq<PendingPlanting>, cfg: PpCfg) -> bool {
    &&& total_pull(s, cfg) <= i64::MAX
    &&& total_pull(s, cfg) * (10000 - pull_decay_bp(cfg)) <= i64::MAX
    &&& i64::MIN <= effective_pull(total_pull(s, cfg), cfg) * cfg.pull_strength_bp as int
        <= i64::MAX
}

proof fn lemma_total_pull_nonneg_prefix(s: Seq<PendingPlanting>, cfg: PpCfg, i: int)
    requires
        0 <= i <= s.len(),
    ensures
        0 <= total_pull(s.take(i), cfg) <= total_pull(s, cfg),
    decreases s.len(),
{
    if s.len() == 0 {
        assert(s.take(i) == s);
    } else if i == s.len() {
        assert(s.take(i) == s);
        lemma_total_pull_nonneg_prefix(s.drop_last(), cfg, i - 1);
    } else {
        assert(s.drop_last().take(i) == s.take(i));
        lemma_total_pull_nonneg_prefix(s.drop_last(), cfg, i);
    }
}

proof fn lemma_planting_products(p: PendingPlanting, cfg: PpCfg)
    ensures
        -0x8000_0000 * 0x100 <= cfg.planting_size_to_pp_bp as int * p.size as int <= 0x8000_0000
            * 0x100,
        -0x8000_0000 * 0x1_0000 <= cfg.decay_per_day_bp as int * p.age_days as int <= 0x8000_0000
            * 0x1_0000,
{
    let a = cfg.planting_size_to_pp_bp as int;
    let b = p.size as int;
    assert(-0x8000_0000 * 0x100 <= a * b <= 0x8000_0000 * 0x100) by (nonlinear_arith)
        requires
            -0x8000_0000 <= a <= 0x8000_0000,
            0 <= b <= 0x100,
    ;
    let c = cfg.decay_per_day_bp as int;
    let d = p.age_days as int;
    assert(-0x8000_0000 * 0x1_0000 <= c * d <= 0x8000_0000 * 0x1_0000) by (nonlinear_arith)
        requires
            -0x8000_0000 <= c <= 0x8000_0000,
            0 <= d <= 0x1_0000,
    ;
}

/// Queues a planting, starting its age at zero.
pub fn schedule_planting(planting: PendingPlanting, state: &mut EconState)
    ensures
        final(state).pending_planting@ == old(state).pending_planting@.push(
            PendingPlanting { age_days: 0, ..planting },
        ),
        final(state).pp == old(state).pp,
        final(state).day == old(state).day,
        final(state).di_bp@ == old(state).di_bp@,
        final(state).di_bp.wf() == old(state).di_bp.wf(),
        final(state).basis_bp@ == old(state).basis_bp@,
        final(state).basis_bp.wf() == old(state).basis_bp.wf(),
        final(state).di_overlay_bp == old(state).di_overlay_bp,
        final(state).rot_u16 == old(state).rot_u16,
        final(state).debt_cents == old(state).debt_cents,
        final(state).last_clamp_hit == old(state).last_clamp_hit,
{
    let mut p = planting;
    p.age_days = 0;
    state.pending_planting.push(p);
}

/// Whether the day's planting arithmetic stays inside `i64` (`planting_in_range`).
pub fn planting_fits(v: &Vec<PendingPlanting>, cfg: &PpCfg) -> (r: bool)
    ensures
        r == planting_in_range(v@, *cfg),
{
    let mut acc: i128 = 0;
    let mut i: usize = 0;
    while i < v.len()
        invariant
            i <= v@.len(),
            acc as int == total_pull(v@.take(i as int), *cfg),
            0 <= acc <= i64::MAX,
        decreases v.len() - i,
    {
        let p = v[i];
        assert(-0x8000_0000 * 255 <= cfg.planting_size_to_pp_bp * p.size <= 0x8000_0000 * 255)
            by (nonlinear_arith)
            requires
                0 <= p.size <= 255,
                -0x8000_0000 <= cfg.planting_size_to_pp_bp < 0x8000_0000,
        ;
        assert(-0x8000_0000 * 65535 <= cfg.decay_per_day_bp * p.age_days <= 0x8000_0000 * 65535)
            by (nonlinear_arith)
            requires
                0 <= p.age_days <= 65535,
                -0x8000_0000 <= cfg.decay_per_day_bp < 0x8000_0000,
        ;
        let base = cfg.planting_size_to_pp_bp as i128 * p.size as i128;
        let decay = cfg.decay_per_day_bp as i128 * p.age_days as i128;
        let c = if base - decay > 0 {
            base - decay
        } else {
            0
        };
        proof {
            assert(v@.take(i + 1).drop_last() == v@.take(i as int));
            assert(v@.take(i + 1).last() == v@[i as int]);
        }
        acc = acc + c;
        if acc > 0x7FFF_FFFF_FFFF_FFFFi128 {
            proof {
                lemma_total_pull_nonneg_prefix(v@, *cfg, i + 1);
            }
            return false;
        }
        i = i + 1;
    }
    assert(v@.take(v@.len() as int) == v@);
    let pd: i128 = if (cfg.pull_decay_bp as i128) < -10000 {
        -10000
    } else if (cfg.pull_decay_bp as i128) > 10000 {
        10000
    } else {
        cfg.pull_decay_bp as i128
    };
    assert(pd == pull_decay_bp(*cfg));
    let factor = 10000 - pd;
    assert(0 <= acc * factor <= 0x7FFF_FFFF_FFFF_FFFF * 20000) by (nonlinear_arith)
        requires
            0 <= acc <= 0x7FFF_FFFF_FFFF_FFFF,
            0 <= factor <= 20000,
    ;
    let t = acc * factor;
    if t > 0x7FFF_FFFF_FFFF_FFFFi128 {
        return false;
    }
    let eff = t / 10000;
    assert(eff as int == effective_pull(acc as int, *cfg));
    assert(-0x8000_0000 * 0x7FFF_FFFF_FFFF_FFFF <= eff * (cfg.pull_strength_bp as i128)
        <= 0x8000_0000 * 0x7FFF_FFFF_FFFF_FFFF) by (nonlinear_arith)
        requires
            0 <= eff <= 0x7FFF_FFFF_FFFF_FFFF,
            -0x8000_0000 <= cfg.pull_strength_bp < 0x8000_0000,
    ;
    let prod = eff * (cfg.pull_strength_bp as i128);
    -0x8000_0000_0000_0000i128 <= prod && prod <= 0x7FFF_FFFF_FFFF_FFFFi128
}

/// One day of planting pull: sums the plantings' pull, ages them, drops the expired ones
/// and returns `pp` moved by the passive decay and the pull.
pub fn apply_planting_pull(pp: Pp, state: &mut EconState, cfg: &PpCfg) -> (r: Pp)
    requires
        cfg.min_pp <= cfg.max_pp,
        planting_in_range(old(state).pending_planting@, *cfg),
    ensures
        r.0 as int == pull_pp_spec(
            pp.0 as int,
            total_pull(old(state).pending_planting@, *cfg),
            *cfg,
        ),
        final(state).pending_planting@ == kept_plantings(old(state).pending_planting@, *cfg),
        final(state).pp == old(state).pp,
        final(state).day == old(state).day,
        final(state).di_bp@ == old(state).di_bp@,
        final(state).di_bp.wf() == old(state).di_bp.wf(),
        final(state).basis_bp@ == old(state).basis_bp@,
        final(state).basis_bp.wf() == old(state).basis_bp.wf(),
        final(state).di_overlay_bp == old(state).di_overlay_bp,
        final(state).rot_u16 == old(state).rot_u16,
        final(state).debt_cents == old(state).debt_cents,
        final(state).last_clamp_hit == old(state).last_clamp_hit,
{
    let ghost orig = state.pending_planting@;
    let n = state.pending_planting.len();
    let mut total_pull_acc: i64 = 0;
    let mut i: usize = 0;
    while i < n
        invariant
            n == orig.len(),
            i <= n,
            state.pending_planting@.len() == n,
            forall|j: int| 0 <= j < i ==> #[trigger] state.pending_planting@[j] == aged(orig[j]),
            forall|j: int| i <= j < n ==> #[trigger] state.pending_planting@[j] == orig[j],
            total_pull_acc as int == total_pull(orig.take(i as int), *cfg),
            planting_in_range(orig, *cfg),
            state.pp == old(state).pp,
            state.day == old(state).day,
            state.di_bp@ == old(state).di_bp@,
            state.di_bp.wf() == old(state).di_bp.wf(),
            state.basis_bp@ == old(state).basis_bp@,
            state.basis_bp.wf() == old(state).basis_bp.wf(),
            state.di_overlay_bp == old(state).di_overlay_bp,
            state.rot_u16 == old(state).rot_u16,
            state.debt_cents == old(state).debt_cents,
            state.last_clamp_hit == old(state).last_clamp_hit,
        decreases n - i,
    {
        let p = state.pending_planting[i];
        proof {
            lemma_planting_products(p, *cfg);
        }
        let base_pull = (cfg.planting_size_to_pp_bp as i64) * (p.size as i64);
        let decay = (cfg.decay_per_day_bp as i64) * (p.age_days as i64);
        let contribution = (base_pull - decay).max(0);
        proof {
            assert(orig.take(i + 1).drop_last() == orig.take(i as int));
            assert(orig.take(i + 1).last() == orig[i as int]);
            lemma_total_pull_nonneg_prefix(orig, *cfg, i + 1);
        }
        total_pull_acc = total_pull_acc + contribution;
        let older = PendingPlanting {
            age_days: p.age_days.saturating_add(1),
            ..p
        };
        state.pending_planting.set(i, older);
        i = i + 1;
    }
    proof {
        assert(orig.take(n as int) == orig);
    }
    let mut kept: Vec<PendingPlanting> = Vec::new();
    let mut k: usize = 0;
    while k < n
        invariant
            n == orig.len(),
            k <= n,
            state.pending_planting@.len() == n,
            forall|j: int| 0 <= j < n ==> #[trigger] state.pending_planting@[j] == aged(orig[j]),
            kept@ == kept_plantings(orig.take(k as int), *cfg),
        decreases n - k,
    {
        let p = state.pending_planting[k];
        proof {
            lemma_planting_products(p, *cfg);
        }
        let keep = if p.age_days >= cfg.planting_max_age_days || p.size == 0 {
            false
        } else {
            let base_pull = (cfg.planting_size_to_pp_bp as i64) * (p.size as i64);
            let decay = (cfg.decay_per_day_bp as i64) * (p.age_days as i64);
            base_pull - decay > 0
        };
        proof {
            assert(orig.take(k + 1).drop_last() == orig.take(k as int));
            assert(orig.take(k + 1).last() == orig[k as int]);
        }
        if keep {
            kept.push(p);
        }
        k = k + 1;
    }
    proof {
        assert(orig.take(n as int) == orig);
    }
    state.pending_planting = kept;
    let total = total_pull_acc;
    let pull_decay = clamp_i64(cfg.pull_decay_bp as i64, -10000, 10000);
    proof {
        lemma_total_pull_nonneg_prefix(orig, *cfg, 0);
        assert(orig.take(0) =~= Seq::<PendingPlanting>::empty());
        assert(0 <= total * (10000 - pull_decay)) by (nonlinear_arith)
            requires
                0 <= total,
                -10000 <= pull_decay <= 10000,
        ;
    }
    let effective = total * (10000 - pull_decay) / 10000;
    let delta_pp = effective * (cfg.pull_strength_bp as i64) / 10000;
    let gap = (pp.0 as i64) - (cfg.neutral_pp as i64);
    assert(-0x1_0000 * 0x8000_0000 <= gap * (cfg.decay_per_day_bp as i64) <= 0x1_0000 * 0x8000_0000)
        by (nonlinear_arith)
        requires
            -0x1_0000 <= gap <= 0x1_0000,
            -0x8000_0000 <= cfg.decay_per_day_bp <= 0x8000_0000,
    ;
    let passive = gap * (cfg.decay_per_day_bp as i64) / 10000;
    let new_pp = (pp.0 as i64) - passive + delta_pp;
    let result = clamp_i64(new_pp, cfg.min_pp as i64, cfg.max_pp as i64);
    Pp(result as u16)
}

/// Without plantings, PP that sits at neutral (inside the PP bounds) stays there.
pub proof fn lemma_neutral_pp_is_stable(cfg: PpCfg)
    requires
        cfg.min_pp <= cfg.neutral_pp <= cfg.max_pp,
    ensures
        pull_pp_spec(cfg.neutral_pp as int, total_pull(Seq::empty(), cfg), cfg) == cfg.neutral_pp,
{
    assert(effective_pull(0, cfg) == 0);
}

/// Player power after a day's pull stays within the configured bounds.
pub proof fn lemma_pp_stays_in_bounds(pp: int, total: int, cfg: PpCfg)
    requires
        cfg.min_pp <= cfg.max_pp,
    ensures
        cfg.min_pp <= pull_pp_spec(pp, total, cfg) <= cfg.max_pp,
{
}

/// The plantings after `days` daily steps.
pub open spec fn plantings_after_days(s: Seq<PendingPlanting>, cfg: PpCfg, days: nat) -> Seq<PendingPlanting>
    decreases days,
{
    if days == 0 {
        s
    } else {
        plantings_after_days(kept_plantings(s, cfg), cfg, (days - 1) as nat)
    }
}

proof fn lemma_kept_ages(s: Seq<PendingPlanting>, cfg: PpCfg, min_age: int)
    requires
        forall|j: int| 0 <= j < s.len() ==> #[trigger] s[j].age_days >= min_age,
        0 <= min_age < u16::MAX,
    ensures
        forall|j: int|
            0 <= j < kept_plantings(s, cfg).len() ==> #[trigger] kept_plantings(s, cfg)[j].age_days
                >= min_age + 1,
        forall|j: int|
            0 <= j < kept_plantings(s, cfg).len() ==> #[trigger] kept_plantings(s, cfg)[j].age_days
                < cfg.planting_max_age_days,
    decreases s.len(),
{
    if s.len() > 0 {
        let t = s.drop_last();
        assert forall|j: int| 0 <= j < t.len() implies #[trigger] t[j].age_days >= min_age by {
            assert(t[j] == s[j]);
        }
        lemma_kept_ages(t, cfg, min_age);
        let k = kept_plantings(t, cfg);
        let a = aged(s.last());
        assert(s.last() == s[s.len() - 1]);
        assert(a.age_days >= min_age + 1);
        if survives(a, cfg) {
            let r = k.push(a);
            assert(kept_plantings(s, cfg) == r);
            assert forall|j: int| 0 <= j < r.len() implies #[trigger] r[j].age_days >= min_age + 1
                && r[j].age_days < cfg.planting_max_age_days by {
                if j < k.len() {
                    assert(r[j] == k[j]);
                } else {
                    assert(r[j] == a);
                }
            }
        } else {
            assert(kept_plantings(s, cfg) == k);
        }
    }
}

proof fn lemma_after_days_ages(s: Seq<PendingPlanting>, cfg: PpCfg, days: nat)
    requires
        days <= cfg.planting_max_age_days,
    ensures
        forall|j: int|
            0 <= j < plantings_after_days(s, cfg, days).len() ==> #[trigger] plantings_after_days(
                s,
                cfg,
                days,
            )[j].age_days >= days,
        days > 0 ==> forall|j: int|
            0 <= j < plantings_after_days(s, cfg, days).len() ==> #[trigger] plantings_after_days(
                s,
                cfg,
                days,
            )[j].age_days < cfg.planting_max_age_days,
    decreases days,
{
    if days > 0 {
        let k = kept_plantings(s, cfg);
        assert(plantings_after_days(s, cfg, days) == plantings_after_days(k, cfg, (days - 1) as nat));
        lemma_kept_ages(s, cfg, 0);
        lemma_after_days_from(k, cfg, (days - 1) as nat, 1);
    } else {
        assert(plantings_after_days(s, cfg, days) == s);
    }
}

proof fn lemma_after_days_from(s: Seq<PendingPlanting>, cfg: PpCfg, days: nat, start: int)
    requires
        1 <= start,
        start + days <= cfg.planting_max_age_days,
        forall|j: int| 0 <= j < s.len() ==> #[trigger] s[j].age_days >= start,
        forall|j: int| 0 <= j < s.len() ==> #[trigger] s[j].age_days < cfg.planting_max_age_days,
    ensures
        forall|j: int|
            0 <= j < plantings_after_days(s, cfg, days).len() ==> #[trigger] plantings_after_days(
                s,
                cfg,
                days,
            )[j].age_days >= start + days,
        forall|j: int|
            0 <= j < plantings_after_days(s, cfg, days).len() ==> #[trigger] plantings_after_days(
                s,
                cfg,
                days,
            )[j].age_days < cfg.planting_max_age_days,
    decreases days,
{
    if days > 0 {
        let k = kept_plantings(s, cfg);
        assert(plantings_after_days(s, cfg, days) == plantings_after_days(k, cfg, (days - 1) as nat));
        lemma_kept_ages(s, cfg, start);
        lemma_after_days_from(k, cfg, (days - 1) as nat, start + 1);
    } else {
        assert(plantings_after_days(s, cfg, days) == s);
    }
}

/// After `planting_max_age_days` daily steps no planting is left (for a positive
/// maximum age).
pub proof fn lemma_plantings_clear_after_max_age(s: Seq<PendingPlanting>, cfg: PpCfg)
    requires
        cfg.planting_max_age_days > 0,
    ensures
        plantings_after_days(s, cfg, cfg.planting_max_age_days as nat).len() == 0,
{
    let d = cfg.planting_max_age_days as nat;
    lemma_after_days_ages(s, cfg, d);
    let r = plantings_after_days(s, cfg, d);
    if r.len() > 0 {
        assert(r[0].age_days >= d);
        assert(d > 0 ==> r[0].age_days < d);
    }
}

proof fn lemma_after_days_empty(cfg: PpCfg, n: nat)
    ensures
        plantings_after_days(Seq::empty(), cfg, n).len() == 0,
    decreases n,
{
    if n > 0 {
        assert(kept_plantings(Seq::<PendingPlanting>::empty(), cfg) == Seq::<PendingPlanting>::empty());
        lemma_after_days_empty(cfg, (n - 1) as nat);
    }
}

proof fn lemma_after_days_split(s: Seq<PendingPlanting>, cfg: PpCfg, a: nat, b: nat)
    ensures
        plantings_after_days(s, cfg, a + b) == plantings_after_days(plantings_after_days(s, cfg, a), cfg, b),
    decreases a,
{
    if a > 0 {
        lemma_after_days_split(kept_plantings(s, cfg), cfg, (a - 1) as nat, b);
        assert((a + b - 1) as nat == (a - 1) as nat + b);
    }
}

proof fn lemma_kept_none_at_age_zero(s: Seq<PendingPlanting>, cfg: PpCfg)
    requires
        cfg.planting_max_age_days == 0,
    ensures
        kept_plantings(s, cfg).len() == 0,
    decreases s.len(),
{
    if s.len() > 0 {
        lemma_kept_none_at_age_zero(s.drop_last(), cfg);
    }
}

/// Plantings never outlive their maximum age: once no new planting is scheduled, after
/// `max(planting_max_age_days, 1)` daily steps or more, none is left.
pub proof fn lemma_plantings_all_gone(s: Seq<PendingPlanting>, cfg: PpCfg, n: nat)
    requires
        n >= cfg.planting_max_age_days,
        n >= 1,
    ensures
        plantings_after_days(s, cfg, n).len() == 0,
{
    if cfg.planting_max_age_days > 0 {
        let m = cfg.planting_max_age_days as nat;
        lemma_plantings_clear_after_max_age(s, cfg);
        lemma_after_days_split(s, cfg, m, (n - m) as nat);
        let mid = plantings_after_days(s, cfg, m);
        assert(mid =~= Seq::<PendingPlanting>::empty());
        lemma_after_days_empty(cfg, (n - m) as nat);
    } else {
        lemma_kept_none_at_age_zero(s, cfg);
        let k = kept_plantings(s, cfg);
        assert(k =~= Seq::<PendingPlanting>::empty());
        lemma_after_days_empty(cfg, (n - 1) as nat);
    }
}

/// A planting's pull falls with its age: of two plantings of the same size, the older
/// never pulls more, pulls strictly less while the younger still pulls and the daily
/// decay is positive, and a planting of age 0 pulls its full `size * planting_size_to_pp_bp`
/// (when that is positive).
pub proof fn lemma_pull_falls_with_age(young: PendingPlanting, old: PendingPlanting, cfg: PpCfg)
    requires
        young.size == old.size,
        young.age_days <= old.age_days,
        cfg.decay_per_day_bp >= 0,
    ensures
        total_pull(seq![old], cfg) <= total_pull(seq![young], cfg),
        (cfg.decay_per_day_bp > 0 && young.age_days < old.age_days && total_pull(seq![young], cfg) > 0)
            ==> total_pull(seq![old], cfg) < total_pull(seq![young], cfg),
        young.age_days == 0 ==> total_pull(seq![young], cfg) == (if cfg.planting_size_to_pp_bp * young.size > 0 {
            cfg.planting_size_to_pp_bp * young.size
        } else {
            0
        }),
{
    assert(seq![old].drop_last() =~= Seq::<PendingPlanting>::empty());
    assert(seq![young].drop_last() =~= Seq::<PendingPlanting>::empty());
    assert(seq![old].last() == old);
    assert(seq![young].last() == young);
    assert(total_pull(Seq::<PendingPlanting>::empty(), cfg) == 0);
    assert(total_pull(seq![old], cfg) == contribution(old, cfg));
    assert(total_pull(seq![young], cfg) == contribution(young, cfg));
    assert(cfg.decay_per_day_bp * young.age_days <= cfg.decay_per_day_bp * old.age_days) by (nonlinear_arith)
        requires
            young.age_days <= old.age_days,
            cfg.decay_per_day_bp >= 0,
    ;
    if cfg.decay_per_day_bp > 0 && young.age_days < old.age_days {
        assert(cfg.decay_per_day_bp * young.age_days < cfg.decay_per_day_bp * old.age_days) by (nonlinear_arith)
            requires
                young.age_days < old.age_days,
                cfg.decay_per_day_bp > 0,
        ;
    }
}

/// A day of ageing never raises the total pull of the plantings (for a non-negative
/// daily decay).
pub proof fn lemma_ageing_never_raises_pull(s: Seq<PendingPlanting>, cfg: PpCfg)
    requires
        cfg.decay_per_day_bp >= 0,
    ensures
        total_pull(s.map_values(|p: PendingPlanting| aged(p)), cfg) <= total_pull(s, cfg),
    decreases s.len(),
{
    if s.len() > 0 {
        let a = s.map_values(|p: PendingPlanting| aged(p));
        let t = s.drop_last();
        assert(a.drop_last() =~= t.map_values(|p: PendingPlanting| aged(p)));
        lemma_ageing_never_raises_pull(t, cfg);
        let p = s.last();
        assert(a.last() == aged(p));
        let q = aged(p);
        assert(cfg.decay_per_day_bp * p.age_days <= cfg.decay_per_day_bp * q.age_days) by (nonlinear_arith)
            requires
                p.age_days <= q.age_days,
                cfg.decay_per_day_bp >= 0,
        ;
    }
}

/// More pull never lowers the next player power (for a non-negative pull strength): so a
/// day with an older planting, which pulls no more, never ends with more power.
pub proof fn lemma_pp_monotone_in_pull(pp: int, lo: int, hi: int, cfg: PpCfg)
    requires
        lo <= hi,
        cfg.pull_strength_bp >= 0,
        cfg.min_pp <= cfg.max_pp,
    ensures
        pull_pp_spec(pp, lo, cfg) <= pull_pp_spec(pp, hi, cfg),
{
    let f = 10000 - pull_decay_bp(cfg);
    assert(f >= 0);
    assert(lo * f <= hi * f) by (nonlinear_arith)
        requires
            lo <= hi,
            f >= 0,
    ;
    crate::economy::basis::lemma_trunc_div_monotone(lo * f, hi * f, 10000);
    let e1 = effective_pull(lo, cfg);
    let e2 = effective_pull(hi, cfg);
    assert(e1 <= e2);
    let k = cfg.pull_strength_bp as int;
    assert(e1 * k <= e2 * k) by (nonlinear_arith)
        requires
            e1 <= e2,
            k >= 0,
    ;
    crate::economy::basis::lemma_trunc_div_monotone(e1 * k, e2 * k, 10000);
    let d1 = trunc_div(e1 * k, 10000);
    let d2 = trunc_div(e2 * k, 10000);
    let passive = trunc_div((pp - cfg.neutral_pp as int) * cfg.decay_per_day_bp as int, 10000);
    assert(pull_pp_spec(pp, lo, cfg) == clamped(pp - passive + d1, cfg.min_pp as int, cfg.max_pp as int));
    assert(pull_pp_spec(pp, hi, cfg) == clamped(pp - passive + d2, cfg.min_pp as int, cfg.max_pp as int));
}

} // verus!
