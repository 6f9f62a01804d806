use vstd::prelude::*;
use super::money::{clamp_i64, MoneyCents};

verus! {

/// `n / d` rounded to the nearest integer, ties going to the even neighbour (`d > 0`).
pub open spec fn half_even_div(n: int, d: int) -> int {
    let q = n / d;
    let r = n % d;
    if 2 * r < d {
        q
    } else if 2 * r > d {
        q + 1
    } else if q % 2 == 0 {
        q
    } else {
        q + 1
    }
}

/// Milli-cents (tenths of a cent) rounded to the nearest cent, ties going to the even cent.
pub open spec fn half_even_tenths(m: int) -> int {
    half_even_div(m, 10)
}

/// Rounds an amount given in tenths of a cent to whole cents using banker's rounding
/// (round half to even), clamped into the `i64` range.
pub fn bankers_round_cents(milli_cents: i128) -> (r: MoneyCents)
    ensures
        r.0 == clamp_i64(half_even_tenths(milli_cents as int)),
{
    let mut cents = milli_cents / 10;
    let remainder = milli_cents % 10;
    if remainder != 0 {
        let abs_rem = if remainder < 0 {
            -remainder
        } else {
            remainder
        };
        let direction: i128 = if remainder < 0 {
            -1
        } else {
            1
        };
        if abs_rem > 5 || (abs_rem == 5 && cents & 1 != 0) {
            proof {
                assert(cents & 1 != 0 <==> cents % 2 != 0) by (bit_vector);
            }
            cents = cents + direction;
        }
    }
    proof {
        assert(cents & 1 != 0 <==> cents % 2 != 0) by (bit_vector);
    }
    MoneyCents::from_i128_clamped(cents)
}

/// Rounds an amount given in tenths of a cent down (toward negative infinity) to whole
/// cents, clamped into the `i64` range.
pub fn round_down_to_cents(milli_cents: i128) -> (r: MoneyCents)
    ensures
        r.0 == clamp_i64(milli_cents as int / 10),
{
    let cents = match milli_cents.checked_div_euclid(10) {
        Some(c) => c,
        None => 0,
    };
    MoneyCents::from_i128_clamped(cents)
}

} // verus!
