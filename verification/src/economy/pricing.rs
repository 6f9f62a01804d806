use vstd::prelude::*;
use super::money::{clamp_i128, clamp_i64, sat_add_i64, sat_mul_i128, MoneyCents};
use super::rounding::{bankers_round_cents, half_even_tenths, round_down_to_cents};
use super::types::BasisBp;

verus! {

/// The quoted price: `base * (10_000 + di + basis) / 10_000`, evaluated in tenths of a
/// cent (saturating in `i128`, floored), rounded half-to-even to cents and clamped to `i64`.
pub open spec fn price_spec(base: int, di: int, basis: int) -> int {
    clamp_i64(half_even_tenths(clamp_i128(base * (10000 + di + basis) * 10) / 10000))
}

/// Prices `base` under the daily index `di` and the hub `basis`, both in basis points.
pub fn compute_price(base: MoneyCents, di: BasisBp, basis: BasisBp) -> (r: MoneyCents)
    ensures
        r.0 == price_spec(base.0 as int, di.0 as int, basis.0 as int),
{
    let multiplier = sat_add_i64(sat_add_i64(10000, di.0 as i64), basis.0 as i64);
    assert(multiplier == 10000 + di.0 + basis.0);
    let b = base.as_i64() as i128;
    let m = multiplier as i128;
    assert(-0x8000_0000_0000_0000 * 0x2_0000_0000 <= b * m <= 0x8000_0000_0000_0000 * 0x2_0000_0000) by (nonlinear_arith)
        requires
            -0x8000_0000_0000_0000 <= b <= 0x8000_0000_0000_0000,
            -0x2_0000_0000 <= m <= 0x2_0000_0000,
    ;
    let product = sat_mul_i128(b, m);
    let intermediate = sat_mul_i128(product, 10);
    let milli_cents = match intermediate.checked_div_euclid(10000) {
        Some(v) => v,
        None => 0,
    };
    let rounded = bankers_round_cents(milli_cents);
    round_down_to_cents((rounded.as_i64() as i128) * 10)
}


proof fn lemma_half_even_tenths_monotone(n1: int, n2: int)
    requires
        n1 <= n2,
    ensures
        half_even_tenths(n1) <= half_even_tenths(n2),
{
    let q1 = n1 / 10;
    let q2 = n2 / 10;
    assert(q1 <= q2) by {
        vstd::arithmetic::div_mod::lemma_div_is_ordered(n1, n2, 10);
    }
    if q1 == q2 {
        assert(n1 % 10 <= n2 % 10);
    }
}

/// For a non-negative base price, the quoted price never falls when the combined index
/// and basis (the multiplier) rises.
pub proof fn lemma_price_monotone(base: int, di1: int, basis1: int, di2: int, basis2: int)
    requires
        base >= 0,
        di1 + basis1 <= di2 + basis2,
    ensures
        price_spec(base, di1, basis1) <= price_spec(base, di2, basis2),
{
    let p1 = base * (10000 + di1 + basis1) * 10;
    let p2 = base * (10000 + di2 + basis2) * 10;
    assert(p1 <= p2) by (nonlinear_arith)
        requires
            base >= 0,
            di1 + basis1 <= di2 + basis2,
            p1 == base * (10000 + di1 + basis1) * 10,
            p2 == base * (10000 + di2 + basis2) * 10,
    ;
    let c1 = clamp_i128(p1);
    let c2 = clamp_i128(p2);
    assert(c1 <= c2);
    vstd::arithmetic::div_mod::lemma_div_is_ordered(c1, c2, 10000);
    lemma_half_even_tenths_monotone(c1 / 10000, c2 / 10000);
}

/// The quoted price of a non-negative base never falls when the daily index rises.
pub proof fn lemma_price_monotone_in_di(base: int, basis: int, di1: int, di2: int)
    requires
        base >= 0,
        di1 <= di2,
    ensures
        price_spec(base, di1, basis) <= price_spec(base, di2, basis),
{
    lemma_price_monotone(base, di1, basis, di2, basis);
}

/// The quoted price of a non-negative base never falls when the basis rises.
pub proof fn lemma_price_monotone_in_basis(base: int, di: int, basis1: int, basis2: int)
    requires
        base >= 0,
        basis1 <= basis2,
    ensures
        price_spec(base, di, basis1) <= price_spec(base, di, basis2),
{
    lemma_price_monotone(base, di, basis1, di, basis2);
}

/// At a neutral index and basis the quoted price is the base price.
pub proof fn lemma_neutral_price_is_base(base: i64)
    ensures
        price_spec(base as int, 0, 0) == base,
{
    let p = base as int * 10000 * 10;
    assert(p == base as int * 100000);
    assert(p / 10000 == base as int * 10) by (nonlinear_arith)
        requires
            p == base as int * 100000,
    ;
    assert((base as int * 10) / 10 == base as int) by (nonlinear_arith);
    assert((base as int * 10) % 10 == 0) by (nonlinear_arith);
}

} // verus!
