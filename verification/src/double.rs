//! Double-precision numbers that are carried and compared, never computed with.
use vstd::prelude::*;

verus! {

/// The sign bit of a binary64 pattern, as a number.
pub const SIGN: u64 = 0x8000_0000_0000_0000;

/// The pattern of positive infinity; a larger magnitude is not a number.
pub const INFINITY: u64 = 0x7ff0_0000_0000_0000;

/// An IEEE 754 binary64 number, held as its bit pattern.
///
/// Prices, volumes and profits arrive as doubles. The rules of this library only
/// order them, and the bit pattern is enough for that: among numbers of one sign,
/// a larger pattern is a larger number. `==` compares patterns.
#[derive(Clone, Copy, Debug, PartialEq, Eq, Structural)]
pub struct Double {
    pub bits: u64,
}

impl Double {
    /// The pattern without its sign bit.
    pub open spec fn magnitude(self) -> int {
        if self.bits >= SIGN {
            self.bits - SIGN
        } else {
            self.bits as int
        }
    }

    pub open spec fn nan(self) -> bool {
        self.magnitude() > INFINITY
    }

    /// An integer that orders the numbers: both zeros have rank zero, and among
    /// numbers a larger one has a larger rank.
    pub open spec fn rank(self) -> int {
        if self.bits >= SIGN {
            -self.magnitude()
        } else {
            self.magnitude()
        }
    }

    /// `self < other`; false as soon as one side is not a number.
    pub open spec fn less(self, other: Double) -> bool {
        !self.nan() && !other.nan() && self.rank() < other.rank()
    }

    /// `self <= other`; false as soon as one side is not a number.
    pub open spec fn at_most(self, other: Double) -> bool {
        !self.nan() && !other.nan() && self.rank() <= other.rank()
    }

    /// `self == 0`.
    pub open spec fn zero(self) -> bool {
        self.rank() == 0
    }

    /// `self > 0`.
    pub open spec fn positive(self) -> bool {
        !self.nan() && self.rank() > 0
    }

    /// The number with its sign cleared.
    pub open spec fn absolute(self) -> Double {
        Double { bits: self.magnitude() as u64 }
    }

    /// The larger of two numbers; where one is not a number, the other.
    pub open spec fn larger(self, other: Double) -> Double {
        if self.nan() {
            other
        } else if other.nan() || other.rank() <= self.rank() {
            self
        } else {
            other
        }
    }

    fn weight(&self) -> (m: u64)
        ensures
            m == self.magnitude(),
    {
        if self.bits >= SIGN {
            self.bits - SIGN
        } else {
            self.bits
        }
    }

    pub fn is_nan(&self) -> (r: bool)
        ensures
            r == self.nan(),
    {
        self.weight() > INFINITY
    }

    pub fn lt(&self, other: &Double) -> (r: bool)
        ensures
            r == self.less(*other),
    {
        if self.is_nan() || other.is_nan() {
            return false;
        }
        let a: u64 = self.weight();
        let b: u64 = other.weight();
        if self.bits >= SIGN {
            if other.bits >= SIGN {
                b < a
            } else {
                a > 0 || b > 0
            }
        } else {
            other.bits < SIGN && a < b
        }
    }

    pub fn le(&self, other: &Double) -> (r: bool)
        ensures
            r == self.at_most(*other),
    {
        !self.is_nan() && !other.is_nan() && !other.lt(self)
    }

    pub fn is_zero(&self) -> (r: bool)
        ensures
            r == self.zero(),
    {
        self.weight() == 0
    }

    pub fn is_positive(&self) -> (r: bool)
        ensures
            r == self.positive(),
    {
        self.bits < SIGN && self.bits > 0 && !self.is_nan()
    }

    pub fn abs(&self) -> (r: Double)
        ensures
            r == self.absolute(),
    {
        Double { bits: self.weight() }
    }

    pub fn max(&self, other: &Double) -> (r: Double)
        ensures
            r == self.larger(*other),
    {
        if self.is_nan() {
            *other
        } else if other.is_nan() || !self.lt(other) {
            *self
        } else {
            *other
        }
    }
}

/// The order is total on numbers: of any two exactly one of "less", "greater" and
/// "of equal rank" holds.
pub proof fn law_order_is_total(a: Double, b: Double)
    requires
        !a.nan(),
        !b.nan(),
    ensures
        a.less(b) || b.less(a) || a.rank() == b.rank(),
        !(a.less(b) && b.at_most(a)),
        a.at_most(b) || b.less(a),
{
}

/// "Less than" is transitive.
pub proof fn law_order_is_transitive(a: Double, b: Double, c: Double)
    requires
        a.less(b),
        b.less(c),
    ensures
        a.less(c),
{
}

/// Clearing the sign never yields a number below zero.
pub proof fn law_absolute_is_not_negative(a: Double)
    ensures
        a.absolute().nan() == a.nan(),
        !a.absolute().less(Double { bits: 0 }),
        a.absolute().absolute() == a.absolute(),
{
}

/// The order is that of the bit patterns: numbers without a sign grow with their
/// pattern, those with one shrink, and those with one stand below those without, but
/// for the two zeros, which are equal. What is above infinity is not a number and
/// compares with nothing.
pub proof fn law_order_is_that_of_the_bits(a: Double, b: Double)
    ensures
        a.nan() <==> a.bits % 0x8000_0000_0000_0000 > 0x7ff0_0000_0000_0000,
        a.nan() || b.nan() ==> !a.less(b) && !a.at_most(b),
        !a.nan() && !b.nan() ==> {
            let minus = 0x8000_0000_0000_0000u64;
            &&& a.bits < minus && b.bits < minus ==> (a.less(b) <==> a.bits < b.bits)
            &&& a.bits >= minus && b.bits >= minus ==> (a.less(b) <==> b.bits < a.bits)
            &&& a.bits >= minus && b.bits < minus ==> (a.less(b) <==> a.bits > minus || b.bits > 0)
            &&& a.bits < minus && b.bits >= minus ==> !a.less(b)
            &&& a.at_most(b) <==> !b.less(a)
            &&& a.less(b) <==> a.rank() < b.rank()
        },
{
}

/// A number is zero, above zero or neither by its pattern alone.
pub proof fn law_sign_is_that_of_the_bits(a: Double)
    ensures
        a.zero() <==> a.bits == 0 || a.bits == 0x8000_0000_0000_0000,
        a.positive() <==> 0 < a.bits <= 0x7ff0_0000_0000_0000,
        a.positive() <==> (Double { bits: 0 }).less(a),
        a.zero() <==> a.at_most(Double { bits: 0 }) && (Double { bits: 0 }).at_most(a),
        a.absolute().bits == a.bits % 0x8000_0000_0000_0000,
{
}

/// The larger of two numbers is one of the two, and neither is above it; what is not a
/// number gives way to the other.
pub proof fn law_larger_is_the_upper_of_two(a: Double, b: Double)
    ensures
        a.larger(b) == a || a.larger(b) == b,
        !a.nan() && !b.nan() ==> a.at_most(a.larger(b)) && b.at_most(a.larger(b)),
        a.nan() ==> a.larger(b) == b,
        !a.nan() && b.nan() ==> a.larger(b) == a,
{
}

/// The power of two by which the fraction of a number with this exponent is divided,
/// for the exponents of numbers from one hundredth to about a thousand.
pub open spec fn fraction_unit(exponent: int) -> int {
    if exponent == 1016 {
        0x0800_0000_0000_0000
    } else if exponent == 1017 {
        0x0400_0000_0000_0000
    } else if exponent == 1018 {
        0x0200_0000_0000_0000
    } else if exponent == 1019 {
        0x0100_0000_0000_0000
    } else if exponent == 1020 {
        0x0080_0000_0000_0000
    } else if exponent == 1021 {
        0x0040_0000_0000_0000
    } else if exponent == 1032 {
        0x0000_0800_0000_0000
    } else {
        0
    }
}

/// The double that is nearest to `n` hundredths: with its fraction as a whole number of
/// units, a hundred times the fraction is off by at most half of a hundred.
pub open spec fn is_hundredths(d: Double, n: int) -> bool {
    let exponent = d.bits as int / 0x0010_0000_0000_0000;
    let fraction = 0x0010_0000_0000_0000 + d.bits as int % 0x0010_0000_0000_0000;
    let unit = fraction_unit(exponent);
    unit > 0 && -50 <= 100 * fraction - n * unit <= 50
}

} // verus!
