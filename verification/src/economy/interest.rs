use vstd::prelude::*;
use super::money::{clamp_i128, clamp_i64, sat_add_i64, sat_mul_i128, MoneyCents};
use super::rounding::half_even_div;
use super::rulepack::InterestCfg;

verus! {

// ---------------------------------------------------------------------------
// Q16 fixed-point helpers
// ---------------------------------------------------------------------------

/// `r` is the integer square root of `n`.
pub open spec fn is_floor_sqrt(n: int, r: int) -> bool {
    0 <= r && r * r <= n && n < (r + 1) * (r + 1)
}

/// The integer square root `floor(sqrt(n))`.
pub open spec fn floor_sqrt(n: int) -> int {
    choose|r: int| is_floor_sqrt(n, r)
}

/// The integer square root is unique.
pub proof fn lemma_floor_sqrt_unique(n: int, r: int, s: int)
    requires
        is_floor_sqrt(n, r),
        is_floor_sqrt(n, s),
    ensures
        r == s,
{
    if r < s {
        assert((r + 1) * (r + 1) <= s * s) by (nonlinear_arith)
            requires
                0 <= r + 1 <= s,
        ;
    }
    if s < r {
        assert((s + 1) * (s + 1) <= r * r) by (nonlinear_arith)
            requires
                0 <= s + 1 <= r,
        ;
    }
}

/// `x` is a power of four representable in `u128`.
pub open spec fn is_pow4_u128(x: u128) -> bool {
    x != 0 && x & ((x - 1) as u128) == 0 && x & 0xAAAA_AAAA_AAAA_AAAA_AAAA_AAAA_AAAA_AAAA == 0
}

proof fn lemma_pow4_shift(x: u128)
    requires
        is_pow4_u128(x),
    ensures
        x >= 4 ==> is_pow4_u128(x >> 2) && (x >> 2) * 4 == x && x >> 2 >= 1,
        x < 4 ==> x == 1 && x >> 2 == 0,
        x >> 2 == x / 4,
{
    assert(x >= 4 ==> is_pow4_u128(x >> 2) && (x >> 2) * 4 == x && x >> 2 >= 1) by (bit_vector)
        requires
            is_pow4_u128(x),
    ;
    assert(x < 4 ==> x == 1 && x >> 2 == 0) by (bit_vector)
        requires
            is_pow4_u128(x),
    ;
    assert(x >> 2 == x / 4) by (bit_vector);
}

proof fn lemma_square_bound(a: int, b: int)
    requires
        0 <= a,
        0 <= b,
        a * a < b * b,
    ensures
        a < b,
{
    if a >= b {
        assert(b * b <= a * a) by (nonlinear_arith)
            requires
                0 <= b <= a,
        ;
    }
}

/// Integer square root of `n` by the digit-by-digit (base 4) method.
pub fn integer_sqrt(n: u128) -> (r: u128)
    ensures
        is_floor_sqrt(n as int, r as int),
        r as int == floor_sqrt(n as int),
{
    let ghost big_n: int = n as int;
    let mut n = n;
    let mut result = 0u128;
    let mut bit = 1u128 << 126;
    assert(bit == 0x4000_0000_0000_0000_0000_0000_0000_0000) by (bit_vector)
        requires
            bit == 1u128 << 126,
    ;
    assert(is_pow4_u128(0x4000_0000_0000_0000_0000_0000_0000_0000u128)) by (bit_vector);
    while bit > n
        invariant
            n as int == big_n,
            bit <= 0x4000_0000_0000_0000_0000_0000_0000_0000,
            is_pow4_u128(bit) || (bit == 0 && big_n == 0),
            4 * (bit as int) > big_n || (bit == 0 && big_n == 0),
        decreases bit,
    {
        proof {
            lemma_pow4_shift(bit);
        }
        bit = bit >> 2;
    }
    let ghost mut q: int = 0;
    let ghost mut p: int = if bit == 0 {
        1
    } else {
        4 * bit as int
    };
    assert((2 * q + 1) * p == p);
    assert(q * q * p == 0);
    assert(q * p == 0);
    while bit != 0
        invariant
            0 <= q,
            0 <= n,
            n as int == big_n - q * q * p,
            result as int == q * p,
            (n as int) < (2 * q + 1) * p,
            big_n < 0x1_0000_0000_0000_0000_0000_0000_0000_0000,
            bit != 0 ==> p == 4 * bit as int && is_pow4_u128(bit) && bit
                <= 0x4000_0000_0000_0000_0000_0000_0000_0000,
            bit == 0 ==> p == 1,
            q == 0 || p <= 0x4000_0000_0000_0000_0000_0000_0000_0000,
        decreases bit,
    {
        proof {
            lemma_pow4_shift(bit);
            let b = bit as int;
            assert(result as int == 4 * q * b) by (nonlinear_arith)
                requires
                    result as int == q * p,
                    p == 4 * b,
            ;
            if q > 0 {
                assert(q * q * p * p <= big_n * p) by (nonlinear_arith)
                    requires
                        0 <= q * q * p <= big_n,
                        0 <= p,
                ;
                assert(big_n * p < 0x1_0000_0000_0000_0000_0000_0000_0000_0000 * 0x4000_0000_0000_0000_0000_0000_0000_0000)
                    by (nonlinear_arith)
                    requires
                        0 <= big_n < 0x1_0000_0000_0000_0000_0000_0000_0000_0000,
                        0 < p <= 0x4000_0000_0000_0000_0000_0000_0000_0000,
                ;
                assert((q * p) * (q * p) == q * q * p * p) by (nonlinear_arith);
                lemma_square_bound(
                    q * p,
                    0x8000_0000_0000_0000_0000_0000_0000_0000,
                );
            }
            assert(q * q * p >= 0) by (nonlinear_arith)
                requires
                    q >= 0,
                    p >= 0,
            ;
        }
        let ghost old_q = q;
        if n >= result + bit {
            proof {
                let b = bit as int;
                assert((2 * q + 1) * (2 * q + 1) * b == q * q * p + (4 * q + 1) * b)
                    by (nonlinear_arith)
                    requires
                        p == 4 * b,
                ;
                assert((4 * q + 1) * b == 4 * q * b + b) by (nonlinear_arith);
                assert((2 * q + 1) * p == (8 * q + 4) * b) by (nonlinear_arith)
                    requires
                        p == 4 * b,
                ;
                assert((2 * (2 * q + 1) + 1) * b == (4 * q + 3) * b) by (nonlinear_arith);
                assert((8 * q + 4) * b == (4 * q + 1) * b + (4 * q + 3) * b) by (nonlinear_arith);
                assert((2 * q + 1) * b == 2 * q * b + b) by (nonlinear_arith);
                q = 2 * q + 1;
            }
            n = n - (result + bit);
            proof {
                assert(result >> 1 == result / 2) by (bit_vector);
            }
            result = (result >> 1) + bit;
            proof {
                let b = bit as int;
                assert(4 * old_q * b / 2 == 2 * old_q * b) by (nonlinear_arith);
                assert(result as int == (2 * old_q + 1) * b) by (nonlinear_arith)
                    requires
                        result as int == 2 * old_q * b + b,
                ;
            }
        } else {
            proof {
                let b = bit as int;
                assert((2 * q) * (2 * q) * b == q * q * p) by (nonlinear_arith)
                    requires
                        p == 4 * b,
                ;
                assert((2 * q + 1) * p == (8 * q + 4) * b) by (nonlinear_arith)
                    requires
                        p == 4 * b,
                ;
                assert((2 * (2 * q) + 1) * b == (4 * q + 1) * b) by (nonlinear_arith);
                assert((4 * q + 1) * b == 4 * q * b + b) by (nonlinear_arith);
                assert((2 * q) * b == 2 * q * b) by (nonlinear_arith);
                q = 2 * q;
            }
            proof {
                assert(result >> 1 == result / 2) by (bit_vector);
            }
            result = result >> 1;
            proof {
                let b = bit as int;
                assert(4 * old_q * b / 2 == 2 * old_q * b) by (nonlinear_arith);
                assert(result as int == (2 * old_q) * b) by (nonlinear_arith)
                    requires
                        result as int == 2 * old_q * b,
                ;
            }
        }
        proof {
            p = bit as int;
        }
        bit = bit >> 2;
    }
    proof {
        assert(q * q * p == q * q);
        assert((q + 1) * (q + 1) == q * q + 2 * q + 1) by (nonlinear_arith);
        assert(is_floor_sqrt(big_n, result as int));
        let s = floor_sqrt(big_n);
        lemma_floor_sqrt_unique(big_n, result as int, s);
    }
    result
}


/// Q16 product `a * b / 2^16`, saturating at `u64::MAX`.
pub open spec fn mul_q16_spec(a: int, b: int) -> int {
    let shifted = a * b / 65536;
    if shifted > u64::MAX {
        u64::MAX as int
    } else {
        shifted
    }
}

/// Q16 square root: `floor(sqrt(x * 2^16))`, so that `sqrt_q16(1.0) == 1.0`.
pub open spec fn sqrt_q16_spec(x: int) -> int {
    if x == 0 {
        0
    } else {
        floor_sqrt(x * 65536)
    }
}

/// `base` raised to the natural power `n` in Q16 arithmetic, multiplying from `1.0`.
pub open spec fn pow_int_q16(base: int, n: nat) -> int
    decreases n,
{
    if n == 0 {
        65536
    } else {
        mul_q16_spec(pow_int_q16(base, (n - 1) as nat), base)
    }
}

/// Applies the fractional exponent bits of `fraction` from `bit` downward: a set bit
/// `2^-k` multiplies by the `k`-th iterated square root of the base.
pub open spec fn pow_frac_q16(result: int, factor: int, fraction: nat, bit: nat) -> int
    decreases bit,
{
    if bit == 0 {
        result
    } else {
        let next = if (fraction / bit) % 2 == 1 {
            mul_q16_spec(result, factor)
        } else {
            result
        };
        pow_frac_q16(next, sqrt_q16_spec(factor), fraction, bit / 2)
    }
}

/// `base ^ (exponent / 2^16)` with both in Q16: the integer part by repeated
/// multiplication, the fractional part by iterated square roots.
pub open spec fn pow_q16_spec(base: int, exponent: int) -> int {
    if base == 0 {
        0
    } else {
        let integer = pow_int_q16(base, (exponent / 65536) as nat);
        let fraction = exponent % 65536;
        if fraction == 0 {
            integer
        } else {
            pow_frac_q16(integer, sqrt_q16_spec(base), fraction as nat, 32768)
        }
    }
}

/// Q16 multiplication, saturating at `u64::MAX`.
pub fn mul_q16(a: u64, b: u64) -> (r: u64)
    ensures
        r as int == mul_q16_spec(a as int, b as int),
{
    let a128 = a as u128;
    let b128 = b as u128;
    assert(a128 * b128 <= 0xFFFF_FFFF_FFFF_FFFF * 0xFFFF_FFFF_FFFF_FFFF) by (nonlinear_arith)
        requires
            a128 <= 0xFFFF_FFFF_FFFF_FFFF,
            b128 <= 0xFFFF_FFFF_FFFF_FFFF,
    ;
    let prod = a128 * b128;
    let shifted = prod >> 16;
    assert(shifted == prod / 65536) by (bit_vector)
        requires
            shifted == prod >> 16,
    ;
    let m = shifted.min(u64::MAX as u128);
    m as u64
}

/// Q16 square root.
pub fn sqrt_q16(x: u64) -> (r: u64)
    ensures
        r as int == sqrt_q16_spec(x as int),
{
    if x == 0 {
        return 0;
    }
    let x128 = x as u128;
    let value = x128 << 16;
    assert(value == x128 * 65536) by (bit_vector)
        requires
            value == x128 << 16,
            x128 <= 0xFFFF_FFFF_FFFF_FFFF,
    ;
    let root = integer_sqrt(value);
    proof {
        assert(value < 0x1_0000_0000_0000_0000_0000);
        assert(0x100_0000_0000 * 0x100_0000_0000 == 0x1_0000_0000_0000_0000_0000);
        lemma_square_bound(root as int, 0x100_0000_0000);
    }
    root as u64
}

proof fn lemma_bit_test(fraction: u32, bit: u32, k: u32)
    requires
        k < 16,
        bit == 1u32 << k,
    ensures
        ((fraction & bit) != 0) == ((fraction / bit) % 2 == 1),
        bit >> 1 == bit / 2,
        k > 0 ==> bit >> 1 == 1u32 << ((k - 1) as u32),
        k == 0 ==> bit >> 1 == 0,
        bit > 0,
{
    assert(((fraction & bit) != 0) == ((fraction / bit) % 2 == 1)) by (bit_vector)
        requires
            k < 16,
            bit == 1u32 << k,
    ;
    assert(bit >> 1 == bit / 2) by (bit_vector);
    assert(k > 0 ==> bit >> 1 == 1u32 << ((k - 1) as u32)) by (bit_vector)
        requires
            k < 16,
            bit == 1u32 << k,
    ;
    assert(k == 0 ==> bit >> 1 == 0) by (bit_vector)
        requires
            bit == 1u32 << k,
    ;
    assert(bit > 0) by (bit_vector)
        requires
            k < 16,
            bit == 1u32 << k,
    ;
}

/// Q16 power `base ^ exponent` with a Q16 exponent.
pub fn pow_q16(base: u64, exponent: u32) -> (r: u64)
    ensures
        r as int == pow_q16_spec(base as int, exponent as int),
{
    if base == 0 {
        return 0;
    }
    let mut result: u64 = 65536;
    let integer = exponent >> 16;
    assert(integer == exponent / 65536) by (bit_vector)
        requires
            integer == exponent >> 16,
    ;
    let mut i: u32 = 0;
    while i < integer
        invariant
            i <= integer,
            result as int == pow_int_q16(base as int, i as nat),
        decreases integer - i,
    {
        result = mul_q16(result, base);
        i = i + 1;
    }
    let fraction = exponent & 0xFFFF;
    assert(fraction == exponent % 65536) by (bit_vector)
        requires
            fraction == exponent & 0xFFFF,
    ;
    if fraction == 0 {
        return result;
    }
    let ghost target = pow_q16_spec(base as int, exponent as int);
    let mut factor = sqrt_q16(base);
    let mut bit: u32 = 1u32 << 15;
    let ghost mut k: u32 = 15;
    assert(bit == 32768) by (bit_vector)
        requires
            bit == 1u32 << 15,
    ;
    while bit > 0
        invariant
            k < 16,
            bit == 0 || bit == 1u32 << k,
            pow_frac_q16(result as int, factor as int, fraction as nat, bit as nat) == target,
        decreases bit,
    {
        proof {
            lemma_bit_test(fraction, bit, k);
        }
        if (fraction & bit) != 0 {
            result = mul_q16(result, factor);
        }
        factor = sqrt_q16(factor);
        bit = bit >> 1;
        proof {
            if k > 0 {
                k = (k - 1) as u32;
            }
        }
    }
    result
}

// ---------------------------------------------------------------------------
// Interest legs
// ---------------------------------------------------------------------------

/// The non-negative part of `x`.
pub open spec fn nonneg(x: int) -> int {
    if x < 0 {
        0
    } else {
        x
    }
}

/// A `u64` reinterpreted as `i64` (two's complement).
pub open spec fn u64_as_i64(x: int) -> int {
    if x > i64::MAX {
        x - 0x1_0000_0000_0000_0000
    } else {
        x
    }
}

/// Linear spread: whole `linear_scale_cents` units of principal times `linear_leg_bp`.
pub open spec fn linear_component_spec(debt: int, cfg: InterestCfg) -> int {
    if cfg.linear_scale_cents <= 0 {
        0
    } else {
        (nonneg(debt) / cfg.linear_scale_cents as int) * cfg.linear_leg_bp as int
    }
}

/// Principal over `linear_scale_cents`, in Q16 and clamped to `u64`.
pub open spec fn ratio_q16_spec(debt: int, cfg: InterestCfg) -> int {
    if cfg.linear_scale_cents <= 0 {
        0
    } else {
        let ratio = nonneg(debt) * 65536 / cfg.linear_scale_cents as int;
        if ratio > u64::MAX {
            u64::MAX as int
        } else {
            ratio
        }
    }
}

/// Numerator of the convex spread: `convex_leg_bp * ratio^gamma` (the power read as `i64`).
pub open spec fn convex_numerator(debt: int, cfg: InterestCfg) -> int {
    cfg.convex_leg_bp as int * u64_as_i64(
        pow_q16_spec(ratio_q16_spec(debt, cfg), cfg.convex_gamma_q16 as int),
    )
}

/// Convex spread: `convex_leg_bp * ratio^gamma`, back from Q16, never negative.
pub open spec fn convex_component_spec(debt: int, cfg: InterestCfg) -> int {
    if cfg.convex_leg_bp <= 0 || cfg.linear_scale_cents <= 0 || ratio_q16_spec(debt, cfg) == 0 {
        0
    } else {
        let num = convex_numerator(debt, cfg);
        if num > 0 {
            num / 65536
        } else {
            0
        }
    }
}

/// Total spread of one leg: base + linear + convex (saturating in `i64`), capped at
/// `per_leg_cap_bp` and floored at zero.
pub open spec fn leg_basis_points_spec(debt: int, cfg: InterestCfg) -> int {
    let total = clamp_i64(
        clamp_i64(cfg.base_leg_bp as int + linear_component_spec(debt, cfg))
            + convex_component_spec(debt, cfg),
    );
    let capped = if total > cfg.per_leg_cap_bp as int {
        cfg.per_leg_cap_bp as int
    } else {
        total
    };
    nonneg(capped)
}

/// `amount * bp / 10_000` (saturating in `i128`) rounded half-to-even to whole cents,
/// clamped into `i64`; zero for a non-positive rate.
pub open spec fn apply_basis_points_spec(amount: int, bp: int) -> int {
    if bp <= 0 {
        0
    } else {
        clamp_i64(half_even_div(clamp_i128(amount * bp), 10000))
    }
}

/// The arithmetic of one leg's interest stays inside `i64` (otherwise it overflows).
pub open spec fn interest_in_range(debt: int, cfg: InterestCfg) -> bool {
    &&& cfg.linear_scale_cents > 0 ==> i64::MIN <= linear_component_spec(debt, cfg) <= i64::MAX
    &&& (cfg.convex_leg_bp > 0 && cfg.linear_scale_cents > 0 && ratio_q16_spec(debt, cfg) != 0)
        ==> i64::MIN <= convex_numerator(debt, cfg) <= i64::MAX
}

/// Interest of one leg on `debt`: `(delta, next)` with `next = debt + delta`.
pub open spec fn accrue_spec(debt: int, cfg: InterestCfg) -> (int, int) {
    if debt <= 0 {
        (0, debt)
    } else {
        let bp = leg_basis_points_spec(debt, cfg);
        if bp <= 0 {
            (0, debt)
        } else {
            let delta = apply_basis_points_spec(debt, bp);
            (delta, clamp_i64(debt + delta))
        }
    }
}

/// Whether one leg's interest arithmetic on `debt` stays inside `i64`
/// (`interest_in_range`).
pub fn interest_fits(debt: MoneyCents, cfg: &InterestCfg) -> (r: bool)
    ensures
        r == interest_in_range(debt.0 as int, *cfg),
{
    if cfg.linear_scale_cents <= 0 {
        return true;
    }
    let d = debt.as_i64().max(0) as i128;
    let ratio = d / (cfg.linear_scale_cents as i128);
    assert(0 <= ratio <= d) by (nonlinear_arith)
        requires
            d >= 0,
            cfg.linear_scale_cents >= 1,
            ratio == d / (cfg.linear_scale_cents as i128),
    ;
    assert(-0x8000_0000 * 0x7FFF_FFFF_FFFF_FFFF <= ratio * cfg.linear_leg_bp
        <= 0x8000_0000 * 0x7FFF_FFFF_FFFF_FFFF) by (nonlinear_arith)
        requires
            0 <= ratio <= 0x7FFF_FFFF_FFFF_FFFF,
            -0x8000_0000 <= cfg.linear_leg_bp < 0x8000_0000,
    ;
    let linear = ratio * (cfg.linear_leg_bp as i128);
    if linear < -0x8000_0000_0000_0000i128 || linear > 0x7FFF_FFFF_FFFF_FFFFi128 {
        return false;
    }
    if cfg.convex_leg_bp <= 0 {
        return true;
    }
    let q = ratio_q16(debt, cfg);
    if q == 0 {
        return true;
    }
    let pow = pow_q16(q, cfg.convex_gamma_q16);
    let pow_signed = pow as i64;
    assert(pow_signed as int == u64_as_i64(pow as int)) by (bit_vector)
        requires
            pow_signed == pow as i64,
    ;
    assert(-0x8000_0000 * 0x8000_0000_0000_0000 <= cfg.convex_leg_bp * pow_signed
        <= 0x8000_0000 * 0x8000_0000_0000_0000) by (nonlinear_arith)
        requires
            -0x8000_0000_0000_0000 <= pow_signed < 0x8000_0000_0000_0000,
            -0x8000_0000 <= cfg.convex_leg_bp < 0x8000_0000,
    ;
    let num = (cfg.convex_leg_bp as i128) * (pow_signed as i128);
    -0x8000_0000_0000_0000i128 <= num && num <= 0x7FFF_FFFF_FFFF_FFFFi128
}

fn linear_component(debt: MoneyCents, cfg: &InterestCfg) -> (r: i64)
    requires
        interest_in_range(debt.0 as int, *cfg),
    ensures
        r as int == linear_component_spec(debt.0 as int, *cfg),
{
    if cfg.linear_scale_cents <= 0 {
        return 0;
    }
    let d = debt.as_i64().max(0) as i128;
    let ratio = d / (cfg.linear_scale_cents as i128);
    assert(ratio <= d) by (nonlinear_arith)
        requires
            d >= 0,
            cfg.linear_scale_cents >= 1,
            ratio == d / (cfg.linear_scale_cents as i128),
    ;
    (ratio as i64) * (cfg.linear_leg_bp as i64)
}

fn ratio_q16(debt: MoneyCents, cfg: &InterestCfg) -> (r: u64)
    ensures
        r as int == ratio_q16_spec(debt.0 as int, *cfg),
{
    if cfg.linear_scale_cents <= 0 {
        return 0;
    }
    let d = debt.as_i64().max(0) as i128;
    let numerator = d << 16;
    assert(numerator == d * 65536) by (bit_vector)
        requires
            numerator == d << 16,
            0 <= d <= 0x7FFF_FFFF_FFFF_FFFF,
    ;
    let denom = cfg.linear_scale_cents as i128;
    if denom == 0 {
        return 0;
    }
    let ratio = numerator / denom;
    assert(ratio >= 0) by (nonlinear_arith)
        requires
            numerator >= 0,
            denom >= 1,
            ratio == numerator / denom,
    ;
    crate::bounds::clamp_i128(ratio, 0, u64::MAX as i128) as u64
}

fn convex_component(debt: MoneyCents, cfg: &InterestCfg) -> (r: i64)
    requires
        interest_in_range(debt.0 as int, *cfg),
    ensures
        r as int == convex_component_spec(debt.0 as int, *cfg),
{
    if cfg.convex_leg_bp <= 0 || cfg.linear_scale_cents <= 0 {
        return 0;
    }
    let ratio = ratio_q16(debt, cfg);
    if ratio == 0 {
        return 0;
    }
    let pow = pow_q16(ratio, cfg.convex_gamma_q16);
    let pow_signed = pow as i64;
    assert(pow_signed as int == u64_as_i64(pow as int)) by (bit_vector)
        requires
            pow_signed == pow as i64,
    ;
    let num = (cfg.convex_leg_bp as i64) * pow_signed;
    (num / 65536).max(0)
}

fn leg_basis_points(debt: MoneyCents, cfg: &InterestCfg) -> (r: i32)
    requires
        interest_in_range(debt.0 as int, *cfg),
    ensures
        r as int == leg_basis_points_spec(debt.0 as int, *cfg),
{
    let mut total = cfg.base_leg_bp as i64;
    total = sat_add_i64(total, linear_component(debt, cfg));
    total = sat_add_i64(total, convex_component(debt, cfg));
    total = total.min(cfg.per_leg_cap_bp as i64);
    total.max(0) as i32
}

fn apply_basis_points(amount: MoneyCents, bp: i32) -> (r: MoneyCents)
    ensures
        r.0 == apply_basis_points_spec(amount.0 as int, bp as int),
{
    if bp <= 0 {
        return MoneyCents(0);
    }
    let numerator = sat_mul_i128(amount.as_i64() as i128, bp as i128);
    let quotient = match numerator.checked_div_euclid(10000) {
        Some(q) => q,
        None => 0,
    };
    let remainder = match numerator.checked_rem_euclid(10000) {
        Some(r) => r,
        None => 0,
    };
    let mut cents = quotient;
    if 2 * remainder > 10000 || (2 * remainder == 10000 && cents % 2 != 0) {
        cents = cents + 1;
    }
    MoneyCents::from_i128_clamped(cents)
}

/// Accrues one leg of interest on `debt`, returning the interest and the new debt.
/// Debt that is not positive, or a rate that comes out non-positive, accrues nothing.
pub fn accrue_interest_per_leg(debt: MoneyCents, cfg: &InterestCfg) -> (r: (MoneyCents, MoneyCents))
    requires
        interest_in_range(debt.0 as int, *cfg),
    ensures
        (r.0.0 as int, r.1.0 as int) == accrue_spec(debt.0 as int, *cfg),
{
    if debt.as_i64() <= 0 {
        return (MoneyCents(0), debt);
    }
    let bp = leg_basis_points(debt, cfg);
    if bp <= 0 {
        return (MoneyCents(0), debt);
    }
    let delta = apply_basis_points(debt, bp);
    let next = debt.saturating_add(delta);
    (delta, next)
}


/// One leg's interest is never negative, is zero on debt that is not positive, and never
/// exceeds the capped rate: `delta * 10_000 <= debt * per_leg_cap_bp + 5_000` (the
/// `5_000` is the half cent that rounding may add).
pub proof fn lemma_interest_capped(debt: int, cfg: InterestCfg)
    requires
        i64::MIN <= debt <= i64::MAX,
        cfg.per_leg_cap_bp >= 0,
    ensures
        0 <= accrue_spec(debt, cfg).0,
        debt <= 0 ==> accrue_spec(debt, cfg) == (0int, debt),
        debt > 0 ==> accrue_spec(debt, cfg).0 * 10000 <= debt * cfg.per_leg_cap_bp + 5000,
        debt > 0 ==> accrue_spec(debt, cfg).1 == clamp_i64(debt + accrue_spec(debt, cfg).0),
{
    if debt > 0 {
        let bp = leg_basis_points_spec(debt, cfg);
        assert(0 <= bp <= cfg.per_leg_cap_bp);
        if bp > 0 {
            let n = debt * bp;
            assert(0 < n <= 0x7FFF_FFFF_FFFF_FFFF * 0x7FFF_FFFF) by (nonlinear_arith)
                requires
                    0 < debt <= 0x7FFF_FFFF_FFFF_FFFF,
                    0 < bp <= 0x7FFF_FFFF,
                    n == debt * bp,
            ;
            assert(clamp_i128(n) == n);
            let q = n / 10000;
            let r = n % 10000;
            assert(n == q * 10000 + r);
            assert(q >= 0);
            let h = half_even_div(n, 10000);
            assert(h * 10000 <= n + 5000);
            assert(n <= debt * cfg.per_leg_cap_bp) by (nonlinear_arith)
                requires
                    0 < debt,
                    bp <= cfg.per_leg_cap_bp,
                    n == debt * bp,
            ;
            assert(0 <= clamp_i64(h) <= h);
            assert(clamp_i64(h) * 10000 <= h * 10000) by (nonlinear_arith)
                requires
                    0 <= clamp_i64(h) <= h,
            ;
        }
    }
}

/// With only the flat spread (no linear or convex term) and the flat rate within the
/// cap, a leg charges exactly `base_leg_bp` of a positive debt whenever that is a whole
/// number of cents.
pub proof fn lemma_flat_rate_interest(debt: int, cfg: InterestCfg)
    requires
        0 < debt <= i64::MAX,
        cfg.linear_scale_cents <= 0 || cfg.linear_leg_bp == 0,
        cfg.convex_leg_bp <= 0,
        0 < cfg.base_leg_bp <= cfg.per_leg_cap_bp,
        (debt * cfg.base_leg_bp) % 10000 == 0,
        debt * cfg.base_leg_bp <= i64::MAX,
    ensures
        accrue_spec(debt, cfg).0 == debt * cfg.base_leg_bp / 10000,
{
    if cfg.linear_scale_cents > 0 {
        let q = nonneg(debt) / cfg.linear_scale_cents as int;
        assert(q * cfg.linear_leg_bp == 0) by (nonlinear_arith)
            requires
                cfg.linear_leg_bp == 0,
        ;
    }
    assert(linear_component_spec(debt, cfg) == 0);
    assert(convex_component_spec(debt, cfg) == 0);
    assert(leg_basis_points_spec(debt, cfg) == cfg.base_leg_bp);
    let n = debt * cfg.base_leg_bp;
    assert(n > 0) by (nonlinear_arith)
        requires
            debt > 0,
            cfg.base_leg_bp > 0,
            n == debt * cfg.base_leg_bp,
    ;
    assert(clamp_i128(n) == n);
    assert(half_even_div(n, 10000) == n / 10000);
    assert(0 <= n / 10000 <= n) by (nonlinear_arith)
        requires
            n > 0,
    ;
}

} // verus!
