use vstd::prelude::*;

verus! {

/// Encoding of the sign bit.
pub const SIGN: u64 = 0x8000_0000_0000_0000;

/// Encoding of positive infinity: all exponent bits set, empty fraction.
pub const INFINITY: u64 = 0x7ff0_0000_0000_0000;

/// Encoding of `1`.
pub const ONE: u64 = 0x3ff0_0000_0000_0000;

/// A real scalar: an IEEE-754 binary64 number held by its 64-bit encoding
/// (sign, 11 exponent bits, 52 fraction bits).
#[derive(Clone, Copy, Debug)]
pub struct R {
    pub bits: u64,
}

impl R {
    /// The encoding with the sign bit cleared.
    pub open spec fn magnitude(self) -> u64 {
        if self.bits >= SIGN {
            (self.bits - SIGN) as u64
        } else {
            self.bits
        }
    }

    /// NaN: all exponent bits set and a non-empty fraction, whatever the sign.
    pub open spec fn is_nan_spec(self) -> bool {
        self.magnitude() > INFINITY
    }

    /// Positive or negative zero.
    pub open spec fn is_zero_spec(self) -> bool {
        self.magnitude() == 0
    }

    /// The same encoding with the sign bit flipped.
    pub open spec fn neg_spec(self) -> R {
        if self.bits >= SIGN {
            R { bits: (self.bits - SIGN) as u64 }
        } else {
            R { bits: (self.bits + SIGN) as u64 }
        }
    }

    /// Numeric equality: NaN equals nothing, the two zeros equal each other,
    /// and any other two numbers are equal when their encodings are.
    pub open spec fn same_number(self, rhs: R) -> bool {
        &&& !self.is_nan_spec()
        &&& !rhs.is_nan_spec()
        &&& (self.bits == rhs.bits || (self.is_zero_spec() && rhs.is_zero_spec()))
    }

    /// The number with the given encoding.
    pub fn from_bits(bits: u64) -> (x: R)
        ensures
            x.bits == bits,
    {
        R { bits }
    }

    /// The encoding of the number.
    pub fn to_bits(self) -> (bits: u64)
        ensures
            bits == self.bits,
    {
        self.bits
    }

    /// Positive zero.
    pub fn zero() -> (x: R)
        ensures
            x.bits == 0,
    {
        R { bits: 0 }
    }

    /// One.
    pub fn one() -> (x: R)
        ensures
            x.bits == ONE,
    {
        R { bits: ONE }
    }

    /// `1` for `true` and `0` for `false`.
    pub fn from_bool(b: bool) -> (x: R)
        ensures
            x.bits == if b { ONE } else { 0 },
    {
        if b {
            R::one()
        } else {
            R::zero()
        }
    }

    fn magnitude_bits(self) -> (m: u64)
        ensures
            m == self.magnitude(),
    {
        if self.bits >= SIGN {
            self.bits - SIGN
        } else {
            self.bits
        }
    }

    /// Whether the number is NaN.
    pub fn is_nan(self) -> (b: bool)
        ensures
            b == self.is_nan_spec(),
    {
        self.magnitude_bits() > INFINITY
    }

    /// Whether the number is positive or negative zero.
    pub fn is_zero(self) -> (b: bool)
        ensures
            b == self.is_zero_spec(),
    {
        self.magnitude_bits() == 0
    }

    /// The negated number; NaN stays NaN, with its sign flipped.
    pub fn neg(self) -> (x: R)
        ensures
            x == self.neg_spec(),
    {
        if self.bits >= SIGN {
            R { bits: self.bits - SIGN }
        } else {
            R { bits: self.bits + SIGN }
        }
    }
}

impl PartialEq for R {
    /// Numeric equality, as `==` on the numbers themselves.
    fn eq(&self, rhs: &R) -> (b: bool) {
        !self.is_nan() && !rhs.is_nan() && (self.bits == rhs.bits || (self.is_zero()
            && rhs.is_zero()))
    }
}

impl vstd::std_specs::cmp::PartialEqSpecImpl for R {
    open spec fn obeys_eq_spec() -> bool {
        true
    }

    open spec fn eq_spec(&self, rhs: &R) -> bool {
        self.same_number(*rhs)
    }
}

/// Negating twice gives the number back, bit for bit.
pub proof fn lemma_neg_involution(x: R)
    ensures
        x.neg_spec().neg_spec() == x,
{
}

/// Negation keeps the magnitude, hence NaN-ness and zero-ness.
pub proof fn lemma_neg_keeps_magnitude(x: R)
    ensures
        x.neg_spec().magnitude() == x.magnitude(),
        x.neg_spec().is_nan_spec() == x.is_nan_spec(),
        x.neg_spec().is_zero_spec() == x.is_zero_spec(),
{
}

/// Numeric equality is symmetric, and reflexive exactly off NaN.
pub proof fn lemma_same_number(x: R, y: R)
    ensures
        x.same_number(y) == y.same_number(x),
        x.same_number(x) == !x.is_nan_spec(),
{
}

} // verus!
