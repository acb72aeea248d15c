//! Fixed-point decimal numbers.
//!
//! Every metric value, sample rate and aggregate in this crate is a [`Number`]:
//! a signed count of millionths held in an `i64`. Sums saturate at the ends of
//! that range instead of wrapping, and quotients are rounded toward zero.

use vstd::prelude::*;

verus! {

/// How many millionths make one unit.
pub const SCALE: i64 = 1_000_000;

/// A decimal number with six fractional digits, stored as a count of millionths.
#[derive(Clone, Copy, Debug, PartialEq, Eq, Structural)]
pub struct Number {
    pub millionths: i64,
}

impl View for Number {
    type V = int;

    /// The number as an integer count of millionths.
    open spec fn view(&self) -> int {
        self.millionths as int
    }
}

impl DeepView for Number {
    type V = int;

    open spec fn deep_view(&self) -> int {
        self.millionths as int
    }
}

/// The nearest value to `v` that an `i64` can hold.
pub open spec fn clamp(v: int) -> int {
    if v < i64::MIN {
        i64::MIN as int
    } else if v > i64::MAX {
        i64::MAX as int
    } else {
        v
    }
}

/// The quotient `a / b` rounded toward zero, for a positive divisor.
pub open spec fn trunc_div(a: int, b: int) -> int
    recommends
        b > 0,
{
    if a >= 0 {
        a / b
    } else {
        -((-a) / b)
    }
}

/// The fixed-point quotient of two counts of millionths, before saturation.
pub open spec fn quotient(value: int, divisor: int) -> int
    recommends
        divisor > 0,
{
    trunc_div(value * SCALE, divisor)
}

/// The views of a sequence of numbers, in order.
pub open spec fn numbers_view(s: Seq<Number>) -> Seq<int> {
    Seq::new(s.len(), |i: int| s[i]@)
}

/// The magnitude of `v`.
fn magnitude(v: i64) -> (m: u64)
    ensures
        m == if v < 0 { -v } else { v as int },
{
    if v >= 0 {
        v as u64
    } else {
        (-(v + 1)) as u64 + 1
    }
}

/// Gives a magnitude its sign back and saturates it into the `i64` range.
fn signed_saturating(negative: bool, m: u128) -> (r: i64)
    ensures
        r == clamp(if negative { -(m as int) } else { m as int }),
{
    if negative {
        if m >= 0x8000_0000_0000_0000u128 {
            i64::MIN
        } else {
            -(m as i64)
        }
    } else {
        if m > 0x7fff_ffff_ffff_ffffu128 {
            i64::MAX
        } else {
            m as i64
        }
    }
}

impl Number {
    /// The number zero.
    pub fn zero() -> (r: Number)
        ensures
            r@ == 0,
    {
        Number { millionths: 0 }
    }

    /// The number one, which as a sample rate means "every occurrence was reported".
    pub fn one() -> (r: Number)
        ensures
            r@ == SCALE,
    {
        Number { millionths: SCALE }
    }

    /// The sum of two numbers, held at the nearest end of the range when it
    /// would leave it.
    pub fn saturating_add(self, other: Number) -> (r: Number)
        ensures
            r@ == clamp(self@ + other@),
    {
        let wide: i128 = self.millionths as i128 + other.millionths as i128;
        if wide > i64::MAX as i128 {
            Number { millionths: i64::MAX }
        } else if wide < i64::MIN as i128 {
            Number { millionths: i64::MIN }
        } else {
            Number { millionths: wide as i64 }
        }
    }

    /// The difference of two numbers, saturating like [`Number::saturating_add`].
    pub fn saturating_sub(self, other: Number) -> (r: Number)
        ensures
            r@ == clamp(self@ - other@),
    {
        let wide: i128 = self.millionths as i128 - other.millionths as i128;
        if wide > i64::MAX as i128 {
            Number { millionths: i64::MAX }
        } else if wide < i64::MIN as i128 {
            Number { millionths: i64::MIN }
        } else {
            Number { millionths: wide as i64 }
        }
    }

    /// This number divided by a positive `divisor`, rounded toward zero and
    /// saturated. Dividing by one returns the number itself.
    pub fn divided_by(self, divisor: Number) -> (r: Number)
        requires
            divisor@ > 0,
        ensures
            r@ == clamp(quotient(self@, divisor@)),
    {
        let negative = self.millionths < 0;
        let m: u128 = magnitude(self.millionths) as u128;
        let d: u128 = divisor.millionths as u128;
        let scaled: u128 = m * (SCALE as u128);
        let q: u128 = scaled / d;
        proof {
            if negative {
                assert(-(self@ * SCALE) == m * SCALE);
            }
        }
        Number { millionths: signed_saturating(negative, q) }
    }

    /// This number divided by a positive count, rounded toward zero.
    pub fn divided_by_count(self, count: u64) -> (r: Number)
        requires
            count > 0,
        ensures
            r@ == trunc_div(self@, count as int),
    {
        let negative = self.millionths < 0;
        let m: u128 = magnitude(self.millionths) as u128;
        let q: u128 = m / (count as u128);
        proof {
            assert(q <= m) by (nonlinear_arith)
                requires
                    q == m / (count as u128),
                    count > 0,
            ;
        }
        Number { millionths: signed_saturating(negative, q) }
    }
}

/// Dividing by one is exact: no rounding and no saturation.
pub proof fn lemma_quotient_by_one(value: int)
    requires
        i64::MIN <= value <= i64::MAX,
    ensures
        clamp(quotient(value, SCALE as int)) == value,
{
    if value >= 0 {
        assert((value * 1_000_000) / 1_000_000 == value);
    } else {
        assert(((-value) * 1_000_000) / 1_000_000 == -value);
        assert(-(value * 1_000_000) == (-value) * 1_000_000);
    }
}

} // verus!
