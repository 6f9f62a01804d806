use vstd::prelude::*;
use crate::bounds::{clamp_u16, clamped};
use super::money::{clamp_i64, MoneyCents};
use super::rulepack::RotCfg;

verus! {

/// Stored rot after clamping into `[rot_floor, rot_ceiling]` and one day of decay
/// (never below the floor).
pub open spec fn rot_decayed(rot: int, cfg: RotCfg) -> int {
    let c = clamped(rot, cfg.rot_floor as int, cfg.rot_ceiling as int);
    let d = if c - cfg.rot_decay_per_day < 0 {
        0
    } else {
        c - cfg.rot_decay_per_day
    };
    if d < cfg.rot_floor {
        cfg.rot_floor as int
    } else {
        d
    }
}

/// Whole conversion chunks above the floor after decay.
pub open spec fn rot_chunks(rot: int, cfg: RotCfg) -> int {
    if cfg.conversion_chunk == 0 || rot_decayed(rot, cfg) <= cfg.rot_floor {
        0
    } else {
        (rot_decayed(rot, cfg) - cfg.rot_floor) / cfg.conversion_chunk as int
    }
}

/// `(rot_after, debt_delta)`: every whole chunk above the floor is removed from the
/// decayed rot and turned into `debt_per_chunk_cents` of debt (clamped to `i64`).
pub open spec fn rot_conversion_spec(rot: int, cfg: RotCfg) -> (int, int) {
    let chunks = rot_chunks(rot, cfg);
    (
        rot_decayed(rot, cfg) - chunks * cfg.conversion_chunk,
        clamp_i64(cfg.debt_per_chunk_cents * chunks),
    )
}

/// Decays stored rot for one day and converts whole chunks above the floor into debt.
pub fn convert_rot_to_debt(rot_u16: u16, cfg: &RotCfg) -> (r: (u16, MoneyCents))
    requires
        cfg.rot_floor <= cfg.rot_ceiling,
    ensures
        (r.0 as int, r.1.0 as int) == rot_conversion_spec(rot_u16 as int, *cfg),
{
    let clamped_rot = clamp_u16(rot_u16, cfg.rot_floor, cfg.rot_ceiling);
    let decayed = clamped_rot.saturating_sub(cfg.rot_decay_per_day).max(cfg.rot_floor);
    if decayed <= cfg.rot_floor || cfg.conversion_chunk == 0 {
        return (decayed, MoneyCents(0));
    }
    let convertible = decayed - cfg.rot_floor;
    let chunks = convertible / cfg.conversion_chunk;
    if chunks == 0 {
        return (decayed, MoneyCents(0));
    }
    assert(chunks * cfg.conversion_chunk <= convertible) by (nonlinear_arith)
        requires
            chunks == convertible / cfg.conversion_chunk,
            cfg.conversion_chunk > 0,
            convertible >= 0,
    ;
    let rot_after = decayed - chunks * cfg.conversion_chunk;
    let per_chunk = cfg.debt_per_chunk_cents as i128;
    let n = chunks as i128;
    assert(-0x8000_0000_0000_0000 * 0x1_0000 <= per_chunk * n <= 0x8000_0000_0000_0000 * 0x1_0000)
        by (nonlinear_arith)
        requires
            -0x8000_0000_0000_0000 <= per_chunk <= 0x8000_0000_0000_0000,
            0 <= n <= 0x1_0000,
    ;
    let debt_delta = MoneyCents::from_i128_clamped(per_chunk * n);
    (rot_after, debt_delta)
}

/// Converting again right after a conversion adds no debt: what is left above the
/// floor is less than one chunk. The rot only decays further (never below the floor).
pub proof fn lemma_conversion_drains(rot: u16, cfg: RotCfg)
    requires
        cfg.rot_floor <= cfg.rot_ceiling,
    ensures
        ({
            let after = rot_conversion_spec(rot as int, cfg).0;
            &&& rot_conversion_spec(after, cfg).1 == 0
            &&& rot_conversion_spec(after, cfg).0 == rot_decayed(after, cfg)
            &&& cfg.rot_floor <= after <= cfg.rot_ceiling
        }),
{
    let d = rot_decayed(rot as int, cfg);
    let chunks = rot_chunks(rot as int, cfg);
    let after = d - chunks * cfg.conversion_chunk;
    if cfg.conversion_chunk > 0 && d > cfg.rot_floor {
        let k = cfg.conversion_chunk as int;
        let x = d - cfg.rot_floor;
        assert(x == k * (x / k) + x % k) by (nonlinear_arith)
            requires
                k > 0,
        ;
        assert(after - cfg.rot_floor == x % k) by (nonlinear_arith)
            requires
                after == d - (x / k) * k,
                x == d - cfg.rot_floor,
                x == k * (x / k) + x % k,
        ;
        assert(0 <= x % k < k);
        let d2 = rot_decayed(after, cfg);
        assert((d2 - cfg.rot_floor) / k == 0) by (nonlinear_arith)
            requires
                0 <= d2 - cfg.rot_floor < k,
        ;
    }
}

/// A day's conversion conserves rot: with `d` the stored rot after clamping into
/// `[rot_floor, rot_ceiling]` and one day of decay (never below the floor), the rot left
/// lies between the floor and `d`, what was removed is a whole number of chunks, less than
/// one chunk is left above the floor, and the debt charged is exactly
/// `debt_per_chunk_cents` per chunk removed. With no chunk size nothing is removed.
pub proof fn lemma_rot_conversion_conserves(rot: u16, cfg: RotCfg)
    requires
        cfg.rot_floor <= cfg.rot_ceiling,
    ensures
        ({
            let c = clamped(rot as int, cfg.rot_floor as int, cfg.rot_ceiling as int);
            let d = if c - cfg.rot_decay_per_day < cfg.rot_floor {
                cfg.rot_floor as int
            } else {
                c - cfg.rot_decay_per_day
            };
            let (after, debt) = rot_conversion_spec(rot as int, cfg);
            &&& cfg.rot_floor <= after <= d
            &&& cfg.conversion_chunk == 0 ==> after == d && debt == 0
            &&& cfg.conversion_chunk > 0 ==> {
                &&& (d - after) % (cfg.conversion_chunk as int) == 0
                &&& after - cfg.rot_floor < cfg.conversion_chunk
                &&& debt == clamp_i64(cfg.debt_per_chunk_cents * ((d - after) / (cfg.conversion_chunk as int)))
            }
        }),
{
    let c = clamped(rot as int, cfg.rot_floor as int, cfg.rot_ceiling as int);
    let d = rot_decayed(rot as int, cfg);
    let k = cfg.conversion_chunk as int;
    if k > 0 {
        let q = rot_chunks(rot as int, cfg);
        if d > cfg.rot_floor {
            let x = d - cfg.rot_floor;
            vstd::arithmetic::div_mod::lemma_fundamental_div_mod(x, k);
            assert(0 <= x % k < k) by (nonlinear_arith)
                requires
                    k > 0,
            ;
            assert(q == x / k);
            assert(q * k <= x);
            assert(q * k >= 0) by (nonlinear_arith)
                requires
                    q == x / k,
                    x >= 0,
                    k > 0,
            ;
            assert((q * k) % k == 0) by (nonlinear_arith)
                requires
                    k > 0,
            ;
            assert((q * k) / k == q) by (nonlinear_arith)
                requires
                    k > 0,
            ;
            assert(d - (d - q * k) == q * k);
        } else {
            assert(q == 0);
            assert((0 as int) % k == 0);
            assert((0 as int) / k == 0);
        }
    }
}

} // verus!
