//! Numbers: IEEE 754 doubles, held as their 64 bits.
//!
//! The library never computes with a number. What it decides about one, it
//! decides from the bits: whether two numbers are equal or in order, what the
//! negation of a number is, and whether a number has a fractional part.
//! Everything else is left to the [`crate::host::Host`].
//!
//! From the most significant bit down, a double holds one sign bit, eleven
//! exponent bits and fifty-two fraction bits.

use vstd::arithmetic::power2::pow2;
use vstd::prelude::*;

verus! {

/// A number of the language. Two numbers with the same bits are the same
/// number; whether two numbers are equal in the language is
/// [`Number::equals`].
#[derive(Clone, Copy, Debug, PartialEq, Eq, Structural)]
pub struct Number {
    pub bits: u64,
}

/// Whether the sign bit is set.
pub open spec fn negative(number: Number) -> bool {
    number.bits >= 0x8000_0000_0000_0000
}

/// The bits without the sign bit. Among the numbers of one sign, a larger
/// magnitude is a number further from zero.
pub open spec fn magnitude(number: Number) -> int {
    number.bits as int % 0x8000_0000_0000_0000
}

/// The exponent bits.
pub open spec fn exponent(number: Number) -> int {
    magnitude(number) / 0x10_0000_0000_0000
}

/// The fraction bits.
pub open spec fn fraction(number: Number) -> int {
    number.bits as int % 0x10_0000_0000_0000
}

/// Whether the bits stand for no number at all ("not a number").
pub open spec fn is_nan(number: Number) -> bool {
    magnitude(number) > 0x7ff0_0000_0000_0000
}

/// Whether the number is neither infinite nor "not a number".
pub open spec fn is_finite(number: Number) -> bool {
    exponent(number) < 2047
}

/// The place of a number in the order of the numbers: numbers that are not
/// "not a number" compare as their places do. Both zeros have the place 0.
pub open spec fn place(number: Number) -> int {
    if negative(number) {
        -magnitude(number)
    } else {
        magnitude(number)
    }
}

/// `left == right` in the language: "not a number" equals nothing, not even
/// itself, and the two zeros are equal.
pub open spec fn equal(left: Number, right: Number) -> bool {
    !is_nan(left) && !is_nan(right) && place(left) == place(right)
}

/// `left < right` in the language: false where either is "not a number".
pub open spec fn less(left: Number, right: Number) -> bool {
    !is_nan(left) && !is_nan(right) && place(left) < place(right)
}

/// `left <= right` in the language: false where either is "not a number".
pub open spec fn less_or_equal(left: Number, right: Number) -> bool {
    !is_nan(left) && !is_nan(right) && place(left) <= place(right)
}

/// `-number`: the same bits with the sign bit flipped.
pub open spec fn negation(number: Number) -> Number {
    if negative(number) {
        Number { bits: (number.bits - 0x8000_0000_0000_0000) as u64 }
    } else {
        Number { bits: (number.bits + 0x8000_0000_0000_0000) as u64 }
    }
}

/// Whether the number is finite and has no fractional part. A finite number
/// other than zero is `(2^52 + fraction) * 2^(exponent - 1075)` or its
/// negation where the exponent is not zero, and smaller than one in
/// magnitude where it is.
pub open spec fn integral(number: Number) -> bool {
    let e = exponent(number);
    is_finite(number) && (magnitude(number) == 0 || e >= 1075 || (1023 <= e < 1075 && fraction(
        number,
    ) % (pow2((1075 - e) as nat) as int) == 0))
}

impl Number {
    pub fn from_bits(bits: u64) -> (number: Number)
        ensures
            number.bits == bits,
    {
        Number { bits }
    }

    fn magnitude(self) -> (bits: u64)
        ensures
            bits == magnitude(self),
    {
        self.bits % 0x8000_0000_0000_0000
    }

    fn is_negative(self) -> (yes: bool)
        ensures
            yes == negative(self),
    {
        self.bits >= 0x8000_0000_0000_0000
    }

    pub fn is_nan(self) -> (yes: bool)
        ensures
            yes == is_nan(self),
    {
        self.magnitude() > 0x7ff0_0000_0000_0000
    }

    /// `self == other` in the language.
    pub fn equals(self, other: Number) -> (yes: bool)
        ensures
            yes == equal(self, other),
    {
        if self.is_nan() || other.is_nan() {
            false
        } else if self.magnitude() == 0 {
            other.magnitude() == 0
        } else {
            self.bits == other.bits
        }
    }

    /// `self < other` in the language.
    pub fn less_than(self, other: Number) -> (yes: bool)
        ensures
            yes == less(self, other),
    {
        if self.is_nan() || other.is_nan() {
            false
        } else if self.is_negative() {
            if other.is_negative() {
                self.magnitude() > other.magnitude()
            } else {
                self.magnitude() > 0 || other.magnitude() > 0
            }
        } else {
            !other.is_negative() && self.magnitude() < other.magnitude()
        }
    }

    /// `self <= other` in the language.
    pub fn at_most(self, other: Number) -> (yes: bool)
        ensures
            yes == less_or_equal(self, other),
    {
        self.less_than(other) || self.equals(other)
    }

    /// `-self`.
    pub fn negated(self) -> (number: Number)
        ensures
            number == negation(self),
    {
        if self.is_negative() {
            Number { bits: self.bits - 0x8000_0000_0000_0000 }
        } else {
            Number { bits: self.bits + 0x8000_0000_0000_0000 }
        }
    }

    /// Whether the number is finite and has no fractional part.
    pub fn is_integral(self) -> (yes: bool)
        ensures
            yes == integral(self),
    {
        let magnitude = self.magnitude();
        let exponent: u64 = magnitude / 0x10_0000_0000_0000;
        if exponent >= 2047 {
            false
        } else if magnitude == 0 || exponent >= 1075 {
            true
        } else if exponent < 1023 {
            false
        } else {
            let shift: u64 = 1075 - exponent;
            proof {
                vstd::bits::lemma_u64_pow2_no_overflow(shift as nat);
                vstd::bits::lemma_u64_shl_is_mul(1, shift);
            }
            let unit: u64 = 1u64 << shift;
            (self.bits % 0x10_0000_0000_0000) % unit == 0
        }
    }
}

/// Negating twice gives the number back.
pub proof fn lemma_negation_is_an_involution(number: Number)
    ensures
        negation(negation(number)) == number,
{
}

/// Negation reverses the order and keeps equality.
pub proof fn lemma_negation_reverses_order(left: Number, right: Number)
    ensures
        less(negation(left), negation(right)) == less(right, left),
        equal(negation(left), negation(right)) == equal(left, right),
{
}

/// Of two numbers, neither of which is "not a number", exactly one of
/// "less", "equal" and "greater" holds.
pub proof fn lemma_order_is_total(left: Number, right: Number)
    requires
        !is_nan(left),
        !is_nan(right),
    ensures
        less(left, right) || equal(left, right) || less(right, left),
        !(less(left, right) && equal(left, right)),
        !(less(left, right) && less(right, left)),
        less_or_equal(left, right) == !less(right, left),
{
}

} // verus!
