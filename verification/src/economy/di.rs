use vstd::prelude::*;
use crate::bounds::{clamp_i32, clamp_i64, clamped};
use super::rng::{draws_from, lemma_state_after_add, noise_sample, norm_from_draws, state_after, trunc_div, DetRng};
use super::rulepack::{DiCfg, Rulepack};
use super::table::{BpEntry, BpTable};
use super::types::{BasisBp, EconomyDay};

verus! {

/// Daily index of every commodity plus a temporary overlay shared by all of them.
#[derive(Clone, Debug)]
pub struct DiState {
    pub per_com: BpTable,
    pub overlay_bp: i32,
}

impl DiState {
    /// State with the given indices and no overlay.
    pub fn new(per_com: BpTable) -> (r: Self)
        ensures
            r.per_com@ == per_com@,
            r.per_com.wf() == per_com.wf(),
            r.overlay_bp == 0,
    {
        DiState { per_com, overlay_bp: 0 }
    }
}

/// `d` draws more, saturating at `u32::MAX`.
pub open spec fn draws_after(d: int, n: int) -> int {
    if d + n > u32::MAX {
        u32::MAX as int
    } else {
        d + n
    }
}

/// Next index value: the long-run mean plus the retained share of today's deviation,
/// plus overlay and noise; capped per day (when positive) and clamped to the absolute bounds.
pub open spec fn di_next_spec(current: int, overlay: int, cfg: DiCfg, noise: int) -> int {
    let mean = cfg.long_run_mean_bp as int;
    let retained = trunc_div((current - mean) * cfg.retention_bp as int, 10000);
    let next = mean + retained + overlay + noise;
    let capped = if cfg.per_day_clamp_bp > 0 {
        clamped(next, current - cfg.per_day_clamp_bp, current + cfg.per_day_clamp_bp)
    } else {
        next
    };
    clamped(capped, cfg.absolute_min_bp as int, cfg.absolute_max_bp as int)
}

/// The overlay after one day: moved toward zero by `max(overlay_decay_bp, 0)` without
/// crossing it, then clamped to `[overlay_min_bp, overlay_max_bp]`.
pub open spec fn decay_overlay_spec(overlay: int, cfg: DiCfg) -> int {
    let decay = if cfg.overlay_decay_bp < 0 {
        0
    } else {
        cfg.overlay_decay_bp as int
    };
    let moved = if overlay > 0 {
        if overlay - decay < 0 {
            0
        } else {
            overlay - decay
        }
    } else if overlay < 0 {
        if overlay + decay > 0 {
            0
        } else {
            overlay + decay
        }
    } else {
        overlay
    };
    clamped(moved, cfg.overlay_min_bp as int, cfg.overlay_max_bp as int)
}

/// The configuration is usable: each pair of bounds is ordered.
pub open spec fn di_cfg_ok(cfg: DiCfg) -> bool {
    cfg.absolute_min_bp <= cfg.absolute_max_bp && cfg.overlay_min_bp <= cfg.overlay_max_bp
}

/// One day of the index for a given `noise` sample.
pub fn di_next(current: BasisBp, overlay_bp: i32, cfg: &DiCfg, noise: BasisBp) -> (r: i32)
    requires
        cfg.absolute_min_bp <= cfg.absolute_max_bp,
    ensures
        r as int == di_next_spec(current.0 as int, overlay_bp as int, *cfg, noise.0 as int),
{
    let mean = cfg.long_run_mean_bp as i64;
    let retention = cfg.retention_bp as i64;
    let deviation = current.0 as i64 - mean;
    assert(-0xFFFF_FFFF * 0x8000_0000 <= deviation * retention <= 0xFFFF_FFFF * 0x8000_0000)
        by (nonlinear_arith)
        requires
            -0xFFFF_FFFF <= deviation <= 0xFFFF_FFFF,
            -0x8000_0000 <= retention <= 0x8000_0000,
    ;
    let retained = deviation * retention / 10000;
    let mut next = mean + retained + overlay_bp as i64 + noise.0 as i64;
    let per_day = cfg.per_day_clamp_bp as i64;
    let current_i64 = current.0 as i64;
    if per_day > 0 {
        let max_step = current_i64 + per_day;
        let min_step = current_i64 - per_day;
        if next > max_step {
            next = max_step;
        } else if next < min_step {
            next = min_step;
        }
    }
    next = clamp_i64(next, cfg.absolute_min_bp as i64, cfg.absolute_max_bp as i64);
    next as i32
}

fn advance_value(current: BasisBp, overlay_bp: i32, cfg: &DiCfg, rng: &mut DetRng) -> (r: i32)
    requires
        cfg.absolute_min_bp <= cfg.absolute_max_bp,
    ensures
        r as int == di_next_spec(
            current.0 as int,
            overlay_bp as int,
            *cfg,
            norm_from_draws(draws_from(old(rng).state(), 6), 0, cfg.noise_sigma_bp, cfg.noise_clamp_bp),
        ),
        final(rng).state() == state_after(old(rng).state(), 6),
        final(rng).draws() as int == draws_after(old(rng).draws() as int, 6),
        final(rng).seed() == old(rng).seed(),
{
    let noise = rng.norm_bounded_bp(0, cfg.noise_sigma_bp, cfg.noise_clamp_bp);
    di_next(current, overlay_bp, cfg, noise)
}

fn decay_overlay(state: &mut DiState, cfg: &DiCfg)
    requires
        cfg.overlay_min_bp <= cfg.overlay_max_bp,
    ensures
        final(state).overlay_bp as int == decay_overlay_spec(old(state).overlay_bp as int, *cfg),
        final(state).per_com == old(state).per_com,
{
    let decay = cfg.overlay_decay_bp.max(0);
    if state.overlay_bp > 0 {
        state.overlay_bp = (state.overlay_bp - decay).max(0);
    } else if state.overlay_bp < 0 {
        state.overlay_bp = (state.overlay_bp + decay).min(0);
    }
    state.overlay_bp = clamp_i32(state.overlay_bp, cfg.overlay_min_bp, cfg.overlay_max_bp);
}

/// Advances every commodity's index by one day, in increasing commodity order, drawing
/// one noise sample per commodity from `rng` (the `i`-th commodity takes the `i`-th
/// sample); then decays the overlay.
pub fn step_di(day: EconomyDay, state: &mut DiState, rp: &Rulepack, rng: &mut DetRng)
    requires
        old(state).per_com.wf(),
        rp.di.overlay_min_bp <= rp.di.overlay_max_bp,
        old(state).per_com@.len() > 0 ==> rp.di.absolute_min_bp <= rp.di.absolute_max_bp,
    ensures
        final(state).per_com.wf(),
        final(state).per_com@.len() == old(state).per_com@.len(),
        forall|i: int|
            0 <= i < old(state).per_com@.len() ==> (#[trigger] final(state).per_com@[i]).key
                == old(state).per_com@[i].key && final(state).per_com@[i].value.0 as int
                == di_next_spec(
                old(state).per_com@[i].value.0 as int,
                old(state).overlay_bp as int,
                rp.di,
                noise_sample(old(rng).state(), i as nat, rp.di.noise_sigma_bp, rp.di.noise_clamp_bp),
            ),
        final(state).overlay_bp as int == decay_overlay_spec(old(state).overlay_bp as int, rp.di),
        final(rng).state() == state_after(old(rng).state(), (6 * old(state).per_com@.len()) as nat),
        final(rng).draws() as int == draws_after(
            old(rng).draws() as int,
            (6 * old(state).per_com@.len()) as int,
        ),
        final(rng).seed() == old(rng).seed(),
{
    let cfg = &rp.di;
    let n = state.per_com.len();
    let mut i: usize = 0;
    while i < n
        invariant
            n == old(state).per_com@.len(),
            i <= n,
            state.per_com.wf(),
            state.per_com@.len() == n,
            state.overlay_bp == old(state).overlay_bp,
            rp.di.overlay_min_bp <= rp.di.overlay_max_bp,
            n > 0 ==> rp.di.absolute_min_bp <= rp.di.absolute_max_bp,
            cfg == &rp.di,
            forall|j: int|
                i <= j < n ==> #[trigger] state.per_com@[j] == old(state).per_com@[j],
            forall|j: int|
                0 <= j < i ==> (#[trigger] state.per_com@[j]).key == old(state).per_com@[j].key
                    && state.per_com@[j].value.0 as int == di_next_spec(
                    old(state).per_com@[j].value.0 as int,
                    old(state).overlay_bp as int,
                    rp.di,
                    noise_sample(old(rng).state(), j as nat, rp.di.noise_sigma_bp, rp.di.noise_clamp_bp),
                ),
            rng.state() == state_after(old(rng).state(), (6 * i) as nat),
            rng.draws() as int == draws_after(old(rng).draws() as int, 6 * i as int),
            rng.seed() == old(rng).seed(),
        decreases n - i,
    {
        let entry = state.per_com.entry_at(i);
        let next = advance_value(entry.value, state.overlay_bp, cfg, rng);
        proof {
            lemma_state_after_add(old(rng).state(), (6 * i) as nat, 6);
        }
        state.per_com.set_value_at(i, BasisBp(next));
        i = i + 1;
    }
    decay_overlay(state, cfg);
}

/// The index always ends inside `[absolute_min_bp, absolute_max_bp]`.
pub proof fn lemma_di_within_bounds(current: int, overlay: int, cfg: DiCfg, noise: int)
    requires
        cfg.absolute_min_bp <= cfg.absolute_max_bp,
    ensures
        cfg.absolute_min_bp <= di_next_spec(current, overlay, cfg, noise) <= cfg.absolute_max_bp,
{
}

/// The overlay never moves away from zero while it stays within its clamps: its size
/// never grows, and its sign never flips.
pub proof fn lemma_overlay_decays_toward_zero(overlay: int, cfg: DiCfg)
    requires
        cfg.overlay_min_bp <= overlay <= cfg.overlay_max_bp,
        cfg.overlay_min_bp <= 0 <= cfg.overlay_max_bp,
    ensures
        overlay >= 0 ==> 0 <= decay_overlay_spec(overlay, cfg) <= overlay,
        overlay <= 0 ==> overlay <= decay_overlay_spec(overlay, cfg) <= 0,
{
}

/// From the long-run mean, the overlay and the noise move the index by exactly their sum
/// when it stays within the daily cap and the absolute bounds.
pub proof fn lemma_overlay_and_noise_move_index(current: int, overlay: int, noise: int, cfg: DiCfg)
    requires
        current == cfg.long_run_mean_bp,
        cfg.per_day_clamp_bp > 0 ==> -cfg.per_day_clamp_bp <= overlay + noise <= cfg.per_day_clamp_bp,
        cfg.absolute_min_bp <= current + overlay + noise <= cfg.absolute_max_bp,
    ensures
        di_next_spec(current, overlay, cfg, noise) == current + overlay + noise,
{
    assert(trunc_div((current - cfg.long_run_mean_bp) * cfg.retention_bp, 10000) == 0);
}

/// With full retention (10 000 bp), no overlay and no noise, an index inside the absolute
/// bounds stays where it is.
pub proof fn lemma_full_retention_keeps_index(current: int, cfg: DiCfg)
    requires
        cfg.retention_bp == 10000,
        cfg.absolute_min_bp <= current <= cfg.absolute_max_bp,
    ensures
        di_next_spec(current, 0, cfg, 0) == current,
{
    let d = current - cfg.long_run_mean_bp;
    assert(trunc_div(d * 10000, 10000) == d) by (nonlinear_arith)
        requires
            trunc_div(d * 10000, 10000) == (if d * 10000 >= 0 {
                (d * 10000) / 10000
            } else {
                -((-(d * 10000)) / 10000)
            }),
    ;
}

/// With no retention, no overlay and no noise, the index returns to the long-run mean
/// when that is within the daily cap and the absolute bounds.
pub proof fn lemma_no_retention_returns_to_mean(current: int, cfg: DiCfg)
    requires
        cfg.retention_bp == 0,
        cfg.per_day_clamp_bp > 0 ==> -cfg.per_day_clamp_bp <= cfg.long_run_mean_bp - current
            <= cfg.per_day_clamp_bp,
        cfg.absolute_min_bp <= cfg.long_run_mean_bp <= cfg.absolute_max_bp,
    ensures
        di_next_spec(current, 0, cfg, 0) == cfg.long_run_mean_bp,
{
    assert(trunc_div((current - cfg.long_run_mean_bp) * 0, 10000) == 0);
}

} // verus!
