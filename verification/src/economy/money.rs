use vstd::prelude::*;

verus! {

/// Smallest representable amount of money.
pub open spec fn i64_min() -> int {
    i64::MIN as int
}

/// Largest representable amount of money.
pub open spec fn i64_max() -> int {
    i64::MAX as int
}

/// Clamps a mathematical integer into the range of `i64`.
pub open spec fn clamp_i64(v: int) -> int {
    if v < i64::MIN {
        i64::MIN as int
    } else if v > i64::MAX {
        i64::MAX as int
    } else {
        v
    }
}

/// Clamps a mathematical integer into the range of `i128`.
pub open spec fn clamp_i128(v: int) -> int {
    if v < i128::MIN {
        i128::MIN as int
    } else if v > i128::MAX {
        i128::MAX as int
    } else {
        v
    }
}

/// `i64` addition that sticks at the bounds instead of overflowing.
pub fn sat_add_i64(a: i64, b: i64) -> (r: i64)
    ensures
        r == clamp_i64(a + b),
{
    match a.checked_add(b) {
        Some(v) => v,
        None => if b > 0 {
            i64::MAX
        } else {
            i64::MIN
        },
    }
}

/// `i64` subtraction that sticks at the bounds instead of overflowing.
pub fn sat_sub_i64(a: i64, b: i64) -> (r: i64)
    ensures
        r == clamp_i64(a - b),
{
    match a.checked_sub(b) {
        Some(v) => v,
        None => if b < 0 {
            i64::MAX
        } else {
            i64::MIN
        },
    }
}

/// `i128` addition that sticks at the bounds instead of overflowing.
pub fn sat_add_i128(a: i128, b: i128) -> (r: i128)
    ensures
        r == clamp_i128(a + b),
{
    match a.checked_add(b) {
        Some(v) => v,
        None => if b > 0 {
            i128::MAX
        } else {
            i128::MIN
        },
    }
}

/// `i128` multiplication that sticks at the bounds instead of overflowing.
pub fn sat_mul_i128(a: i128, b: i128) -> (r: i128)
    ensures
        r == clamp_i128(a * b),
{
    match a.checked_mul(b) {
        Some(v) => v,
        None => {
            proof {
                if a > 0 && b > 0 {
                    assert(a * b > 0) by (nonlinear_arith)
                        requires
                            a > 0,
                            b > 0,
                    ;
                }
                if a < 0 && b < 0 {
                    assert(a * b > 0) by (nonlinear_arith)
                        requires
                            a < 0,
                            b < 0,
                    ;
                }
                if a > 0 && b < 0 {
                    assert(a * b < 0) by (nonlinear_arith)
                        requires
                            a > 0,
                            b < 0,
                    ;
                }
                if a < 0 && b > 0 {
                    assert(a * b < 0) by (nonlinear_arith)
                        requires
                            a < 0,
                            b > 0,
                    ;
                }
            }
            if (a < 0) == (b < 0) {
                i128::MAX
            } else {
                i128::MIN
            }
        },
    }
}

/// An amount of money in whole cents.
#[derive(Clone, Copy, Debug, PartialEq, Eq, Structural, PartialOrd, Ord, Hash, Default)]
pub struct MoneyCents(pub i64);

impl MoneyCents {
    /// No money.
    pub fn zero() -> (r: Self)
        ensures
            r.0 == 0,
    {
        MoneyCents(0)
    }

    /// Adds two amounts, sticking at `i64::MIN` / `i64::MAX` instead of overflowing.
    pub fn saturating_add(self, rhs: Self) -> (r: Self)
        ensures
            r.0 == clamp_i64(self.0 + rhs.0),
    {
        MoneyCents(sat_add_i64(self.0, rhs.0))
    }

    /// Subtracts two amounts, sticking at `i64::MIN` / `i64::MAX` instead of overflowing.
    pub fn saturating_sub(self, rhs: Self) -> (r: Self)
        ensures
            r.0 == clamp_i64(self.0 - rhs.0),
    {
        MoneyCents(sat_sub_i64(self.0, rhs.0))
    }

    /// Converts a wide amount of cents, clamping it into the `i64` range.
    pub fn from_i128_clamped(value: i128) -> (r: Self)
        ensures
            r.0 == clamp_i64(value as int),
    {
        if value < i64::MIN as i128 {
            MoneyCents(i64::MIN)
        } else if value > i64::MAX as i128 {
            MoneyCents(i64::MAX)
        } else {
            MoneyCents(value as i64)
        }
    }

    /// The amount in cents.
    pub fn as_i64(self) -> (r: i64)
        ensures
            r == self.0,
    {
        self.0
    }
}

impl From<i64> for MoneyCents {
    fn from(value: i64) -> (r: Self) {
        MoneyCents(value)
    }
}

impl vstd::std_specs::convert::FromSpecImpl<i64> for MoneyCents {
    open spec fn obeys_from_spec() -> bool {
        true
    }

    open spec fn from_spec(v: i64) -> Self {
        MoneyCents(v)
    }
}

} // verus!
