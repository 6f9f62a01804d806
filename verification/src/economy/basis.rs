use vstd::prelude::*;
use crate::bounds::{clamp_i64, clamped};
use super::rng::{draws_from, norm_from_draws, state_after, trunc_div, DetRng};
use super::rulepack::{BasisCfg, Rulepack};
use super::types::{BasisBp, Pp, Weather};

verus! {

/// Signals that move a hub's basis for one day.
#[derive(Clone, Copy, Debug)]
pub struct BasisDrivers {
    pub pp: Pp,
    pub weather: Weather,
    pub closed_routes: u8,
    pub stock_dev: i32,
}

/// Player-power term: whole hundreds of PP away from neutral times `beta_pp_bp`.
pub open spec fn pp_term_spec(pp: Pp, rp: Rulepack) -> int {
    trunc_div(pp.0 as int - rp.pp.neutral_pp as int, 100) * rp.basis.beta_pp_bp as int
}

/// Weather offset of the basis.
pub open spec fn weather_term_spec(cfg: BasisCfg, weather: Weather) -> int {
    match weather {
        Weather::Clear => cfg.weather.clear_bp as int,
        Weather::Rains => cfg.weather.rains_bp as int,
        Weather::Fog => cfg.weather.fog_bp as int,
        Weather::Windy => cfg.weather.windy_bp as int,
    }
}

/// Sum of the deterministic basis terms: player power, weather, routes and stock.
pub open spec fn driver_terms(drivers: BasisDrivers, rp: Rulepack) -> int {
    pp_term_spec(drivers.pp, rp) + weather_term_spec(rp.basis, drivers.weather)
        + drivers.closed_routes as int * rp.basis.beta_routes_bp as int + drivers.stock_dev as int
        * rp.basis.beta_stock_bp as int
}

/// `v` lies in the range of `i32`.
pub open spec fn fits_i32(v: int) -> bool {
    i32::MIN <= v <= i32::MAX
}

/// The `i32` arithmetic of the basis terms does not overflow (added in this order).
pub open spec fn basis_terms_fit(drivers: BasisDrivers, rp: Rulepack) -> bool {
    let pp = pp_term_spec(drivers.pp, rp);
    let w = weather_term_spec(rp.basis, drivers.weather);
    let routes = drivers.closed_routes as int * rp.basis.beta_routes_bp as int;
    let stock = drivers.stock_dev as int * rp.basis.beta_stock_bp as int;
    &&& fits_i32(pp)
    &&& fits_i32(routes)
    &&& fits_i32(stock)
    &&& fits_i32(pp + w)
    &&& fits_i32(pp + w + routes)
    &&& fits_i32(pp + w + routes + stock)
}

/// Largest magnitude the daily noise can take for a clamp of `clamp_bp`.
pub open spec fn noise_bound(clamp_bp: i32) -> int {
    if clamp_bp < 0 {
        -(clamp_bp as int)
    } else {
        clamp_bp as int
    }
}

/// The `i32` sum of the basis terms and the daily `noise` does not overflow.
pub open spec fn basis_sum_fits(drivers: BasisDrivers, rp: Rulepack, noise: int) -> bool {
    &&& basis_terms_fit(drivers, rp)
    &&& fits_i32(driver_terms(drivers, rp) + noise)
}

/// Next basis from `current` moved by `shift`: capped at `per_day_clamp_bp` away from
/// `current` when that cap is positive, then clamped to `[absolute_min_bp, absolute_max_bp]`.
pub open spec fn basis_next_spec(current: int, shift: int, cfg: BasisCfg) -> int {
    let next = current + shift;
    let capped = if cfg.per_day_clamp_bp > 0 {
        clamped(next, current - cfg.per_day_clamp_bp, current + cfg.per_day_clamp_bp)
    } else {
        next
    };
    clamped(capped, cfg.absolute_min_bp as int, cfg.absolute_max_bp as int)
}

fn compute_pp_term(pp: Pp, rp: &Rulepack) -> (r: i32)
    requires
        fits_i32(pp_term_spec(pp, *rp)),
    ensures
        r as int == pp_term_spec(pp, *rp),
{
    let neutral = rp.pp.neutral_pp as i32;
    let delta = pp.0 as i32 - neutral;
    let scaled = delta / 100;
    scaled * rp.basis.beta_pp_bp
}

fn weather_impact(cfg: &BasisCfg, weather: Weather) -> (r: i32)
    ensures
        r as int == weather_term_spec(*cfg, weather),
{
    match weather {
        Weather::Clear => cfg.weather.clear_bp,
        Weather::Rains => cfg.weather.rains_bp,
        Weather::Fog => cfg.weather.fog_bp,
        Weather::Windy => cfg.weather.windy_bp,
    }
}

/// Whether the `i32` arithmetic of the basis terms of `drivers` fits (`basis_terms_fit`).
pub(crate) fn terms_fit(drivers: &BasisDrivers, rp: &Rulepack) -> (r: bool)
    ensures
        r == basis_terms_fit(*drivers, *rp),
{
    let delta = drivers.pp.0 as i64 - rp.pp.neutral_pp as i64;
    let scaled = delta / 100;
    assert(scaled as int == trunc_div(delta as int, 100));
    assert(-700 <= scaled <= 700);
    assert(-700 * 0x8000_0000 <= scaled * rp.basis.beta_pp_bp <= 700 * 0x8000_0000) by (nonlinear_arith)
        requires
            -700 <= scaled <= 700,
            -0x8000_0000 <= rp.basis.beta_pp_bp < 0x8000_0000,
    ;
    let pp = scaled * (rp.basis.beta_pp_bp as i64);
    let w = weather_impact(&rp.basis, drivers.weather) as i64;
    assert(-255 * 0x8000_0000 <= drivers.closed_routes * rp.basis.beta_routes_bp <= 255 * 0x8000_0000)
        by (nonlinear_arith)
        requires
            0 <= drivers.closed_routes <= 255,
            -0x8000_0000 <= rp.basis.beta_routes_bp < 0x8000_0000,
    ;
    let routes = (drivers.closed_routes as i64) * (rp.basis.beta_routes_bp as i64);
    assert(-0x8000_0000 * 0x8000_0000 <= drivers.stock_dev * rp.basis.beta_stock_bp
        <= 0x8000_0000 * 0x8000_0000) by (nonlinear_arith)
        requires
            -0x8000_0000 <= drivers.stock_dev < 0x8000_0000,
            -0x8000_0000 <= rp.basis.beta_stock_bp < 0x8000_0000,
    ;
    let stock = (drivers.stock_dev as i64) * (rp.basis.beta_stock_bp as i64);
    let lo: i64 = -0x8000_0000;
    let hi: i64 = 0x7FFF_FFFF;
    if pp < lo || pp > hi || routes < lo || routes > hi || stock < lo || stock > hi {
        return false;
    }
    let a = pp + w;
    if a < lo || a > hi {
        return false;
    }
    let b = a + routes;
    if b < lo || b > hi {
        return false;
    }
    let c = b + stock;
    c >= lo && c <= hi
}

/// The deterministic basis terms of `drivers`, summed in `i32` in the order `basis_step`
/// adds them.
pub(crate) fn driver_terms_sum(drivers: &BasisDrivers, rp: &Rulepack) -> (r: i32)
    requires
        basis_terms_fit(*drivers, *rp),
    ensures
        r as int == driver_terms(*drivers, *rp),
{
    let pp_term = compute_pp_term(drivers.pp, rp);
    let weather_term = weather_impact(&rp.basis, drivers.weather);
    let routes_term = (drivers.closed_routes as i32) * rp.basis.beta_routes_bp;
    let stock_term = drivers.stock_dev * rp.basis.beta_stock_bp;
    pp_term + weather_term + routes_term + stock_term
}

/// One day of basis dynamics for a given `noise` sample: the driver terms plus the noise
/// move `current`, capped per day and clamped to the absolute bounds.
pub fn basis_step(current: BasisBp, drivers: &BasisDrivers, rp: &Rulepack, noise: BasisBp) -> (r: BasisBp)
    requires
        basis_terms_fit(*drivers, *rp),
        fits_i32(driver_terms(*drivers, *rp) + noise.0),
        rp.basis.absolute_min_bp <= rp.basis.absolute_max_bp,
    ensures
        r.0 as int == basis_next_spec(
            current.0 as int,
            driver_terms(*drivers, *rp) + noise.0,
            rp.basis,
        ),
{
    let cfg = &rp.basis;
    let pp_term = compute_pp_term(drivers.pp, rp);
    let weather_term = weather_impact(cfg, drivers.weather);
    let routes_term = (drivers.closed_routes as i32) * cfg.beta_routes_bp;
    let stock_term = drivers.stock_dev * cfg.beta_stock_bp;
    let shift = pp_term + weather_term + routes_term + stock_term + noise.0;
    let mut next = current.0 as i64 + shift as i64;
    let delta_cap = cfg.per_day_clamp_bp as i64;
    if delta_cap > 0 {
        let max_step = current.0 as i64 + delta_cap;
        let min_step = current.0 as i64 - delta_cap;
        if next > max_step {
            next = max_step;
        } else if next < min_step {
            next = min_step;
        }
    }
    next = clamp_i64(next, cfg.absolute_min_bp as i64, cfg.absolute_max_bp as i64);
    BasisBp(next as i32)
}

/// Advances a hub's basis by one day, drawing the daily noise from `rng`
/// (mean zero, `noise_sigma_bp`, clamped to `±|noise_clamp_bp|`).
pub fn update_basis(current: BasisBp, drivers: &BasisDrivers, rp: &Rulepack, rng: &mut DetRng) -> (r: BasisBp)
    requires
        basis_sum_fits(
            *drivers,
            *rp,
            norm_from_draws(
                draws_from(old(rng).state(), 6),
                0,
                rp.basis.noise_sigma_bp,
                rp.basis.noise_clamp_bp,
            ),
        ),
        rp.basis.absolute_min_bp <= rp.basis.absolute_max_bp,
    ensures
        r.0 as int == basis_next_spec(
            current.0 as int,
            driver_terms(*drivers, *rp) + norm_from_draws(
                draws_from(old(rng).state(), 6),
                0,
                rp.basis.noise_sigma_bp,
                rp.basis.noise_clamp_bp,
            ),
            rp.basis,
        ),
        final(rng).state() == state_after(old(rng).state(), 6),
        final(rng).draws() == (if old(rng).draws() as int + 6 > u32::MAX {
            u32::MAX as int
        } else {
            old(rng).draws() + 6
        }),
        final(rng).seed() == old(rng).seed(),
{
    let ghost draws = draws_from(rng.state(), 6);
    let noise = rng.norm_bounded_bp(0, rp.basis.noise_sigma_bp, rp.basis.noise_clamp_bp);
    proof {
        lemma_noise_in_bound(draws, rp.basis.noise_sigma_bp, rp.basis.noise_clamp_bp);
    }
    basis_step(current, drivers, rp, noise)
}

/// A noise sample lies within `±|clamp_bp|` (and within `i32`).
pub proof fn lemma_noise_in_bound(draws: Seq<u32>, sigma_bp: u32, clamp_bp: i32)
    requires
        draws.len() == 6,
    ensures
        -noise_bound(clamp_bp) <= norm_from_draws(draws, 0, sigma_bp, clamp_bp),
        norm_from_draws(draws, 0, sigma_bp, clamp_bp) <= noise_bound(clamp_bp),
        norm_from_draws(draws, 0, sigma_bp, clamp_bp) <= i32::MAX,
{
}

/// The basis always ends inside `[absolute_min_bp, absolute_max_bp]`.
pub proof fn lemma_basis_within_bounds(current: int, shift: int, cfg: BasisCfg)
    requires
        cfg.absolute_min_bp <= cfg.absolute_max_bp,
    ensures
        cfg.absolute_min_bp <= basis_next_spec(current, shift, cfg) <= cfg.absolute_max_bp,
{
}

/// With a positive daily cap and `current` inside the absolute bounds, one day moves the
/// basis by at most `per_day_clamp_bp`.
pub proof fn lemma_basis_per_day_cap(current: int, shift: int, cfg: BasisCfg)
    requires
        cfg.absolute_min_bp <= current <= cfg.absolute_max_bp,
        cfg.per_day_clamp_bp > 0,
    ensures
        current - cfg.per_day_clamp_bp <= basis_next_spec(current, shift, cfg),
        basis_next_spec(current, shift, cfg) <= current + cfg.per_day_clamp_bp,
{
}

/// For the same noise, the basis never decreases when the shift grows: in particular
/// it is non-decreasing in player power when `beta_pp_bp >= 0` and in stock deviation
/// when `beta_stock_bp >= 0`.
pub proof fn lemma_basis_monotone_in_shift(current: int, shift_lo: int, shift_hi: int, cfg: BasisCfg)
    requires
        shift_lo <= shift_hi,
        cfg.absolute_min_bp <= cfg.absolute_max_bp,
    ensures
        basis_next_spec(current, shift_lo, cfg) <= basis_next_spec(current, shift_hi, cfg),
{
}

/// The player-power term is non-decreasing in PP when `beta_pp_bp >= 0`.
pub proof fn lemma_pp_term_monotone(lo: Pp, hi: Pp, rp: Rulepack)
    requires
        lo.0 <= hi.0,
        rp.basis.beta_pp_bp >= 0,
    ensures
        pp_term_spec(lo, rp) <= pp_term_spec(hi, rp),
{
    let a = lo.0 as int - rp.pp.neutral_pp as int;
    let b = hi.0 as int - rp.pp.neutral_pp as int;
    lemma_trunc_div_monotone(a, b, 100);
    let ta = trunc_div(a, 100);
    let tb = trunc_div(b, 100);
    assert(ta * rp.basis.beta_pp_bp <= tb * rp.basis.beta_pp_bp) by (nonlinear_arith)
        requires
            ta <= tb,
            rp.basis.beta_pp_bp >= 0,
    ;
}

/// Truncating division by a positive constant is monotone.
pub proof fn lemma_trunc_div_monotone(a: int, b: int, d: int)
    requires
        a <= b,
        d > 0,
    ensures
        trunc_div(a, d) <= trunc_div(b, d),
{
    if a >= 0 {
        vstd::arithmetic::div_mod::lemma_div_is_ordered(a, b, d);
    } else if b < 0 {
        vstd::arithmetic::div_mod::lemma_div_is_ordered(-b, -a, d);
    } else {
        assert((-a) / d >= 0) by (nonlinear_arith)
            requires
                -a > 0,
                d > 0,
        ;
        assert(b / d >= 0) by (nonlinear_arith)
            requires
                b >= 0,
                d > 0,
        ;
    }
}

/// The daily basis is monotone in player power and stock deviation: from the same current
/// basis with the same noise (generators in the same state), and with non-negative
/// `beta_pp_bp` and `beta_stock_bp`, more player power or stock never gives a lower basis.
pub proof fn lemma_basis_monotone_in_drivers(
    current: int,
    lo: BasisDrivers,
    hi: BasisDrivers,
    rp: Rulepack,
    noise: int,
)
    requires
        lo.pp.0 <= hi.pp.0,
        lo.stock_dev <= hi.stock_dev,
        lo.weather == hi.weather,
        lo.closed_routes == hi.closed_routes,
        rp.basis.beta_pp_bp >= 0,
        rp.basis.beta_stock_bp >= 0,
        rp.basis.absolute_min_bp <= rp.basis.absolute_max_bp,
    ensures
        driver_terms(lo, rp) <= driver_terms(hi, rp),
        basis_next_spec(current, driver_terms(lo, rp) + noise, rp.basis) <= basis_next_spec(
            current,
            driver_terms(hi, rp) + noise,
            rp.basis,
        ),
{
    lemma_pp_term_monotone(lo.pp, hi.pp, rp);
    assert(lo.stock_dev * rp.basis.beta_stock_bp <= hi.stock_dev * rp.basis.beta_stock_bp)
        by (nonlinear_arith)
        requires
            lo.stock_dev <= hi.stock_dev,
            rp.basis.beta_stock_bp >= 0,
    ;
    lemma_basis_monotone_in_shift(
        current,
        driver_terms(lo, rp) + noise,
        driver_terms(hi, rp) + noise,
        rp.basis,
    );
}

/// The basis follows its shift exactly while the move stays within the daily cap and the
/// absolute bounds.
pub proof fn lemma_basis_follows_shift(current: int, shift: int, cfg: BasisCfg)
    requires
        cfg.per_day_clamp_bp > 0 ==> -cfg.per_day_clamp_bp <= shift <= cfg.per_day_clamp_bp,
        cfg.absolute_min_bp <= current + shift <= cfg.absolute_max_bp,
    ensures
        basis_next_spec(current, shift, cfg) == current + shift,
{
}

/// Each driver adds its own term: one more closed route adds `beta_routes_bp`, one more
/// unit of stock deviation adds `beta_stock_bp`, changing the weather changes the shift by
/// the difference of the two weather offsets, and at neutral power, with no routes closed
/// and no stock deviation, the shift is the weather offset alone.
pub proof fn lemma_basis_drivers_add_up(d: BasisDrivers, rp: Rulepack, w: Weather)
    ensures
        d.closed_routes < 255 ==> driver_terms(BasisDrivers { closed_routes: (d.closed_routes + 1) as u8, ..d }, rp)
            == driver_terms(d, rp) + rp.basis.beta_routes_bp,
        d.stock_dev < i32::MAX ==> driver_terms(BasisDrivers { stock_dev: (d.stock_dev + 1) as i32, ..d }, rp)
            == driver_terms(d, rp) + rp.basis.beta_stock_bp,
        driver_terms(BasisDrivers { weather: w, ..d }, rp) - driver_terms(d, rp) == weather_term_spec(
            rp.basis,
            w,
        ) - weather_term_spec(rp.basis, d.weather),
        driver_terms(BasisDrivers { pp: Pp(rp.pp.neutral_pp), weather: w, closed_routes: 0, stock_dev: 0 }, rp)
            == weather_term_spec(rp.basis, w),
{
    assert((d.closed_routes + 1) * rp.basis.beta_routes_bp == d.closed_routes * rp.basis.beta_routes_bp
        + rp.basis.beta_routes_bp) by (nonlinear_arith);
    assert((d.stock_dev + 1) * rp.basis.beta_stock_bp == d.stock_dev * rp.basis.beta_stock_bp
        + rp.basis.beta_stock_bp) by (nonlinear_arith);
    assert(trunc_div(rp.pp.neutral_pp as int - rp.pp.neutral_pp as int, 100) == 0);
    assert(pp_term_spec(Pp(rp.pp.neutral_pp), rp) == 0) by (nonlinear_arith)
        requires
            trunc_div(rp.pp.neutral_pp as int - rp.pp.neutral_pp as int, 100) == 0,
            pp_term_spec(Pp(rp.pp.neutral_pp), rp) == trunc_div(
                rp.pp.neutral_pp as int - rp.pp.neutral_pp as int,
                100,
            ) * rp.basis.beta_pp_bp as int,
    ;
    let n = BasisDrivers { pp: Pp(rp.pp.neutral_pp), weather: w, closed_routes: 0, stock_dev: 0 };
    assert(n.closed_routes == 0 && n.stock_dev == 0);
    assert(n.closed_routes as int * rp.basis.beta_routes_bp as int == 0) by (nonlinear_arith)
        requires
            n.closed_routes == 0,
    ;
    assert(n.stock_dev as int * rp.basis.beta_stock_bp as int == 0) by (nonlinear_arith)
        requires
            n.stock_dev == 0,
    ;
    assert(pp_term_spec(n.pp, rp) == 0);
}

} // verus!
