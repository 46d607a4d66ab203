//! Prices and sizes.
//!
//! A number is carried as the bit pattern of an IEEE-754 double together with
//! the text that printing the double gives. Every comparison the library makes
//! is decided on the bit pattern, in integer arithmetic.

use vstd::prelude::*;

verus! {

/// The sign bit of a double.
pub const SIGN_BIT: u64 = 0x8000_0000_0000_0000;

/// The bit pattern of positive infinity. Larger magnitudes are NaN.
pub const INFINITY: u64 = 0x7ff0_0000_0000_0000;

/// The bit pattern of one hundred.
pub const HUNDRED: u64 = 0x4059_0000_0000_0000;

/// A double-precision number: its bit pattern and its printed text.
#[derive(Debug)]
pub struct Num {
    pub bits: u64,
    pub text: String,
}

/// The mathematical content of a [`Num`].
pub struct NumView {
    pub bits: u64,
    pub text: Seq<char>,
}

impl View for Num {
    type V = NumView;

    open spec fn view(&self) -> NumView {
        NumView { bits: self.bits, text: self.text@ }
    }
}

/// Magnitude bits of a double, without its sign.
pub open spec fn magnitude(bits: u64) -> int {
    if bits >= SIGN_BIT {
        bits - SIGN_BIT
    } else {
        bits as int
    }
}

/// Whether a bit pattern is one of the NaN patterns.
pub open spec fn is_nan_bits(bits: u64) -> bool {
    magnitude(bits) > INFINITY
}

/// The place of a bit pattern in the total order of doubles in which both
/// zeros are equal, all NaN patterns are equal, and NaN is above infinity.
pub open spec fn order_key(bits: u64) -> int {
    if is_nan_bits(bits) {
        INFINITY + 1
    } else if bits >= SIGN_BIT {
        -magnitude(bits)
    } else {
        magnitude(bits)
    }
}

impl Clone for Num {
    fn clone(&self) -> (r: Self)
        ensures
            r == *self,
    {
        Num { bits: self.bits, text: self.text.clone() }
    }
}

impl Num {
    /// Whether the number is NaN.
    pub open spec fn nan(self) -> bool {
        is_nan_bits(self.bits)
    }

    /// Position in the total order of [`order_key`].
    pub open spec fn key(self) -> int {
        order_key(self.bits)
    }

    /// IEEE `<`: false where either side is NaN.
    pub open spec fn below(self, other: Num) -> bool {
        !self.nan() && !other.nan() && self.key() < other.key()
    }

    /// IEEE `<=`: false where either side is NaN.
    pub open spec fn at_most(self, other: Num) -> bool {
        !self.nan() && !other.nan() && self.key() <= other.key()
    }

    /// IEEE `==`: false where either side is NaN, true of the two zeros.
    pub open spec fn equals(self, other: Num) -> bool {
        !self.nan() && !other.nan() && self.key() == other.key()
    }

    /// Equal to zero, of either sign.
    pub open spec fn zero(self) -> bool {
        self.key() == 0
    }

    /// Strictly above zero, and not NaN.
    pub open spec fn positive(self) -> bool {
        !self.nan() && self.key() > 0
    }

    /// A number from the bit pattern of a double and the double's printed text.
    pub fn new(bits: u64, text: String) -> (r: Num)
        ensures
            r == (Num { bits, text }),
    {
        Num { bits, text }
    }

    /// The number zero, which prints as `0`.
    pub fn zero_value() -> (r: Num)
        ensures
            r@ == (NumView { bits: 0, text: "0"@ }),
    {
        Num { bits: 0, text: "0".to_owned() }
    }

    /// Whether the number is NaN.
    pub fn is_nan(&self) -> (r: bool)
        ensures
            r == self.nan(),
    {
        let m: u64 = if self.bits >= SIGN_BIT { self.bits - SIGN_BIT } else { self.bits };
        m > INFINITY
    }

    /// The number's position in the total order.
    pub fn sort_key(&self) -> (r: i64)
        ensures
            r == self.key(),
    {
        let m: u64 = if self.bits >= SIGN_BIT { self.bits - SIGN_BIT } else { self.bits };
        if m > INFINITY {
            0x7ff0_0000_0000_0001
        } else if self.bits >= SIGN_BIT {
            -(m as i64)
        } else {
            m as i64
        }
    }

    /// IEEE `<`.
    pub fn lt(&self, other: &Num) -> (r: bool)
        ensures
            r == self.below(*other),
    {
        !self.is_nan() && !other.is_nan() && self.sort_key() < other.sort_key()
    }

    /// IEEE `<=`.
    pub fn le(&self, other: &Num) -> (r: bool)
        ensures
            r == self.at_most(*other),
    {
        !self.is_nan() && !other.is_nan() && self.sort_key() <= other.sort_key()
    }

    /// IEEE `==`.
    pub fn same(&self, other: &Num) -> (r: bool)
        ensures
            r == self.equals(*other),
    {
        !self.is_nan() && !other.is_nan() && self.sort_key() == other.sort_key()
    }

    /// Whether the number is zero, of either sign.
    pub fn is_zero(&self) -> (r: bool)
        ensures
            r == self.zero(),
    {
        self.sort_key() == 0
    }

    /// Whether the number is above zero.
    pub fn is_positive(&self) -> (r: bool)
        ensures
            r == self.positive(),
    {
        !self.is_nan() && self.sort_key() > 0
    }
}

/// The float operations the library asks its caller to perform. Doubles are
/// not part of the library: it decides what is computed and what follows from
/// the result, and the caller's arithmetic unit does the computing.
#[derive(Debug, Clone, Copy, PartialEq, Eq, Structural)]
pub enum FloatOp {
    /// The sum of two numbers.
    Sum,
    /// The first number less the second.
    Difference,
    /// The price that lies the second number per cent below the first:
    /// `a * (1 - b / 100)`.
    PercentBelow,
    /// The price that lies the second number per cent above the first:
    /// `a * (1 + b / 100)`.
    PercentAbove,
}

/// An arithmetic unit: it answers every request, and always in the same way.
pub open spec fn arithmetic<A: Fn(FloatOp, Num, Num) -> Num>(unit: A) -> bool {
    &&& forall|op: FloatOp, a: Num, b: Num| #[trigger] call_requires(unit, (op, a, b))
    &&& forall|op: FloatOp, a: Num, b: Num, x: Num, y: Num|
        #[trigger] call_ensures(unit, (op, a, b), x) && #[trigger] call_ensures(unit, (op, a, b), y)
            ==> x == y
}

/// What the arithmetic unit answers.
pub open spec fn answer<A: Fn(FloatOp, Num, Num) -> Num>(unit: A, op: FloatOp, a: Num, b: Num) -> Num {
    choose|r: Num| call_ensures(unit, (op, a, b), r)
}

/// Asks the arithmetic unit.
pub fn ask<A: Fn(FloatOp, Num, Num) -> Num>(unit: &A, op: FloatOp, a: &Num, b: &Num) -> (r: Num)
    requires
        arithmetic(*unit),
    ensures
        r == answer(*unit, op, *a, *b),
{
    let x: Num = a.clone();
    let y: Num = b.clone();
    let r = unit(op, x, y);
    assert(call_ensures(*unit, (op, *a, *b), r));
    r
}

/// Which bits are which numbers: the bits above those of infinity, with
/// either sign, are no number; zero has either sign; and what lies above zero
/// has the sign bit clear.
pub proof fn bits_tell_the_number(n: Num)
    ensures
        n.nan() <==> (INFINITY < n.bits < SIGN_BIT) || n.bits > SIGN_BIT + INFINITY,
        n.zero() <==> n.bits == 0 || n.bits == SIGN_BIT,
        n.positive() <==> 0 < n.bits <= INFINITY,
{
}

/// Numbers with the sign bit clear are ordered as their bits are, those with
/// it set the other way round, and these lie below those, but for the two
/// zeros, which are equal. What is no number is neither below, nor at most,
/// nor equal to anything, and sorts after every number.
pub proof fn bits_order_the_numbers(a: Num, b: Num)
    ensures
        !a.nan() && !b.nan() && a.bits < SIGN_BIT && b.bits < SIGN_BIT ==> {
            &&& a.below(b) <==> a.bits < b.bits
            &&& a.at_most(b) <==> a.bits <= b.bits
            &&& a.equals(b) <==> a.bits == b.bits
        },
        !a.nan() && !b.nan() && a.bits >= SIGN_BIT && b.bits >= SIGN_BIT ==> {
            &&& a.below(b) <==> a.bits > b.bits
            &&& a.at_most(b) <==> a.bits >= b.bits
            &&& a.equals(b) <==> a.bits == b.bits
        },
        !a.nan() && !b.nan() && a.bits >= SIGN_BIT && b.bits < SIGN_BIT ==> {
            &&& a.at_most(b)
            &&& a.below(b) <==> !(a.bits == SIGN_BIT && b.bits == 0)
            &&& a.equals(b) <==> a.bits == SIGN_BIT && b.bits == 0
            &&& b.at_most(a) <==> a.bits == SIGN_BIT && b.bits == 0
            &&& !b.below(a)
        },
        a.nan() || b.nan() ==> !a.below(b) && !a.at_most(b) && !a.equals(b),
        !a.nan() && b.nan() ==> a.key() < b.key(),
        a.nan() && b.nan() ==> a.key() == b.key(),
{
}

/// The bits of a hundred are those of `1.5625 * 2^6`: the exponent is six
/// above its offset, and the fraction makes up the rest. Infinity has the
/// largest exponent and no fraction, and the sign is the highest bit.
pub proof fn bits_of_the_constants()
    ensures
        HUNDRED as int / 0x10_0000_0000_0000 == 1023 + 6,
        (0x10_0000_0000_0000 + HUNDRED as int % 0x10_0000_0000_0000) * 64 == 100
            * 0x10_0000_0000_0000,
        INFINITY as int == 2047 * 0x10_0000_0000_0000,
        SIGN_BIT as int == 2048 * 0x10_0000_0000_0000,
{
}

} // verus!
