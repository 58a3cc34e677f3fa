//! Binary64 values held by their bit pattern.
//!
//! The session logic only asks whether a coordinate is finite and how two finite
//! coordinates compare. Both questions are decided on the sign, exponent and
//! fraction bits.

use vstd::arithmetic::power2::{lemma_pow2_pos, lemma_pow2_strictly_increases, lemma_pow2_unfold, pow2};
use vstd::prelude::*;

verus! {

/// Weight of the sign bit.
pub const SIGN: u64 = 0x8000_0000_0000_0000;

/// Weight of the lowest exponent bit.
pub const EXPONENT_STEP: u64 = 0x10_0000_0000_0000;

/// The exponent shared by the infinities and every NaN.
pub const EXPONENT_LIMIT: u64 = 0x7ff;

/// An IEEE 754 binary64 value, held as the bits that `f64::to_bits` gives.
#[derive(Debug, Clone, Copy, PartialEq, Eq, Structural)]
pub struct Binary64 {
    pub bits: u64,
}

impl Binary64 {
    /// The bits without the sign.
    pub open spec fn magnitude(self) -> int {
        self.bits as int % SIGN as int
    }

    pub open spec fn negative(self) -> bool {
        self.bits >= SIGN
    }

    pub open spec fn exponent(self) -> int {
        self.magnitude() / EXPONENT_STEP as int
    }

    pub open spec fn fraction(self) -> int {
        self.magnitude() % EXPONENT_STEP as int
    }

    pub open spec fn finite(self) -> bool {
        self.exponent() < EXPONENT_LIMIT
    }

    pub open spec fn nan(self) -> bool {
        self.exponent() == EXPONENT_LIMIT && self.fraction() != 0
    }

    /// The absolute value of a finite number, in units of 2^-1074. An infinity counts for
    /// the next value after the largest finite one.
    pub open spec fn scaled_magnitude(self) -> int {
        if self.exponent() == 0 {
            self.fraction()
        } else {
            (EXPONENT_STEP + self.fraction()) * pow2((self.exponent() - 1) as nat)
        }
    }

    /// The signed value, in units of 2^-1074.
    pub open spec fn scaled(self) -> int {
        if self.negative() {
            -self.scaled_magnitude()
        } else {
            self.scaled_magnitude()
        }
    }

    /// Whether the value is neither infinite nor NaN.
    pub fn is_finite(self) -> (result: bool)
        ensures
            result == self.finite(),
    {
        (self.bits % SIGN) / EXPONENT_STEP < EXPONENT_LIMIT
    }

    /// Whether this value is less than the other: never, if one of them is NaN.
    pub open spec fn less(self, other: Binary64) -> bool {
        !self.nan() && !other.nan() && self.scaled() < other.scaled()
    }

    /// Whether this value is at least the other: never, if one of them is NaN.
    pub open spec fn at_least(self, other: Binary64) -> bool {
        !self.nan() && !other.nan() && self.scaled() >= other.scaled()
    }

    fn is_nan(self) -> (result: bool)
        ensures
            result == self.nan(),
    {
        let magnitude: u64 = self.bits % SIGN;
        magnitude / EXPONENT_STEP == EXPONENT_LIMIT && magnitude % EXPONENT_STEP != 0
    }

    /// The comparison `<`.
    pub fn below(self, other: Binary64) -> (result: bool)
        ensures
            result == self.less(other),
    {
        !self.is_nan() && !other.is_nan() && self.ordered_below(other)
    }

    /// The comparison `>=`.
    pub fn reaches(self, other: Binary64) -> (result: bool)
        ensures
            result == self.at_least(other),
    {
        !self.is_nan() && !other.is_nan() && !self.ordered_below(other)
    }

    fn ordered_below(self, other: Binary64) -> (result: bool)
        ensures
            result == (self.scaled() < other.scaled()),
    {
        let a: u64 = self.bits % SIGN;
        let b: u64 = other.bits % SIGN;
        proof {
            lemma_magnitudes_order(self, other);
            lemma_magnitudes_order(other, self);
            lemma_scaled_magnitude_sign(self);
            lemma_scaled_magnitude_sign(other);
        }
        if self.bits >= SIGN {
            if other.bits >= SIGN {
                b < a
            } else {
                a != 0 || b != 0
            }
        } else if other.bits >= SIGN {
            false
        } else {
            a < b
        }
    }
}

/// A value is zero exactly if its magnitude bits are.
proof fn lemma_scaled_magnitude_sign(x: Binary64)
    ensures
        x.scaled_magnitude() >= 0,
        x.scaled_magnitude() == 0 <==> x.magnitude() == 0,
{
    let e = x.exponent();
    let m = x.magnitude();
    assert(m == EXPONENT_STEP as int * (m / EXPONENT_STEP as int) + m % EXPONENT_STEP as int);
    if e != 0 {
        lemma_pow2_pos((e - 1) as nat);
        let p = pow2((e - 1) as nat) as int;
        let f = EXPONENT_STEP + x.fraction();
        assert(f * p > 0) by (nonlinear_arith)
            requires
                f > 0,
                p > 0,
        ;
    }
}

/// Magnitude bits order values as their absolute values do.
pub proof fn lemma_magnitudes_order(x: Binary64, y: Binary64)
    ensures
        x.magnitude() < y.magnitude() <==> x.scaled_magnitude() < y.scaled_magnitude(),
{
    if x.magnitude() < y.magnitude() {
        lemma_magnitudes_increase(x, y);
    } else if y.magnitude() < x.magnitude() {
        lemma_magnitudes_increase(y, x);
    }
}

proof fn lemma_magnitudes_increase(x: Binary64, y: Binary64)
    requires
        x.magnitude() < y.magnitude(),
    ensures
        x.scaled_magnitude() < y.scaled_magnitude(),
{
    let step = EXPONENT_STEP as int;
    let (mx, my) = (x.magnitude(), y.magnitude());
    let (ex, ey) = (x.exponent(), y.exponent());
    let (fx, fy) = (x.fraction(), y.fraction());
    assert(mx == step * ex + fx && my == step * ey + fy);
    assert(ex <= ey);
    if ey == 0 {
    } else if ex == ey {
        let p = pow2((ex - 1) as nat) as int;
        lemma_pow2_pos((ex - 1) as nat);
        assert((step + fx) * p < (step + fy) * p) by (nonlinear_arith)
            requires
                fx < fy,
                p > 0,
        ;
    } else {
        let q = pow2((ey - 1) as nat) as int;
        lemma_pow2_pos((ey - 1) as nat);
        assert((step + fy) * q >= step * q) by (nonlinear_arith)
            requires
                fy >= 0,
                q > 0,
        ;
        if ex == 0 {
            assert(step * q >= step) by (nonlinear_arith)
                requires
                    q >= 1,
                    step > 0,
            ;
        } else {
            let p = pow2((ex - 1) as nat) as int;
            lemma_pow2_pos((ex - 1) as nat);
            lemma_pow2_unfold(ex as nat);
            if ex < ey - 1 {
                lemma_pow2_strictly_increases(ex as nat, (ey - 1) as nat);
            }
            assert(2 * p <= q);
            assert((step + fx) * p < step * q) by (nonlinear_arith)
                requires
                    0 <= fx < step,
                    p > 0,
                    2 * p <= q,
            ;
        }
    }
}

/// Values are finite below the largest exponent. Those of one sign compare as their bits do, those
/// below zero the other way round; both zeros are the same; and nothing compares with a NaN.
pub proof fn comparisons_follow_the_bits(x: Binary64, y: Binary64)
    ensures
        x.finite() <==> x.bits < 0x7ff0_0000_0000_0000 || (0x8000_0000_0000_0000 <= x.bits
            && x.bits < 0xfff0_0000_0000_0000),
        x.finite() && y.finite() ==> {
            let (xn, yn) = (x.bits >= 0x8000_0000_0000_0000, y.bits >= 0x8000_0000_0000_0000);
            &&& x.at_least(y) == !x.less(y)
            &&& !xn && !yn ==> (x.less(y) <==> x.bits < y.bits)
            &&& xn && yn ==> (x.less(y) <==> y.bits < x.bits)
            &&& !xn && yn ==> !x.less(y)
            &&& xn && !yn ==> (x.less(y) <==> x.bits != 0x8000_0000_0000_0000 || y.bits != 0)
        },
        x.bits > 0x7ff0_0000_0000_0000 && x.bits < 0x8000_0000_0000_0000 ==> !x.less(y)
            && !y.less(x) && !x.at_least(y) && !y.at_least(x),
{
    lemma_magnitudes_order(x, y);
    lemma_magnitudes_order(y, x);
    lemma_scaled_magnitude_sign(x);
    lemma_scaled_magnitude_sign(y);
}

} // verus!
