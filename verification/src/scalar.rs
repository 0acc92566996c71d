//! Single-precision numbers held by their bit patterns.
//!
//! The renderer only ever stores, hands on and orders its intensities, depths and
//! scores. A `Scalar` therefore keeps the 32 bits of a binary32 number and
//! offers the numeric order on them; arithmetic is left to the caller.
use vstd::prelude::*;

verus! {

/// A binary32 number: one sign bit, eight exponent bits, 23 fraction bits.
///
/// `==` on `Scalar` compares bit patterns. The numeric relations are `lt`, `le`,
/// `gt` and `ge`, which treat the two zeros as equal and are false whenever
/// an operand is not a number.
#[derive(Clone, Copy, Debug, PartialEq, Eq, Structural)]
pub struct Scalar {
    pub bits: u32,
}

impl Scalar {
    /// The pattern without its sign bit: exponent and fraction read as one integer.
    pub open spec fn magnitude(self) -> int {
        self.bits as int % 0x8000_0000
    }

    /// Whether the sign bit is set.
    pub open spec fn sign(self) -> bool {
        self.bits >= 0x8000_0000
    }

    /// Whether the pattern encodes no number: an all-ones exponent with a
    /// fraction that is not zero.
    pub open spec fn spec_is_nan(self) -> bool {
        self.magnitude() > 0x7f80_0000
    }

    /// An integer that orders numbers as their values do. Binary32 is a
    /// sign-and-magnitude format whose magnitudes grow with their patterns, so
    /// the key is the magnitude, negated under the sign bit. Both zeros have key 0.
    pub open spec fn key(self) -> int {
        if self.sign() {
            -self.magnitude()
        } else {
            self.magnitude()
        }
    }

    /// `self < other` as numbers.
    pub open spec fn spec_lt(self, other: Scalar) -> bool {
        !self.spec_is_nan() && !other.spec_is_nan() && self.key() < other.key()
    }

    /// `self <= other` as numbers.
    pub open spec fn spec_le(self, other: Scalar) -> bool {
        !self.spec_is_nan() && !other.spec_is_nan() && self.key() <= other.key()
    }

    /// `self > other` as numbers.
    pub open spec fn spec_gt(self, other: Scalar) -> bool {
        other.spec_lt(self)
    }

    /// `self >= other` as numbers.
    pub open spec fn spec_ge(self, other: Scalar) -> bool {
        other.spec_le(self)
    }

    /// The smaller of two numbers, where a pattern that is no number yields to
    /// the other operand and the left operand is kept between equals.
    pub open spec fn spec_min(self, other: Scalar) -> Scalar {
        if self.spec_is_nan() || other.spec_lt(self) {
            other
        } else {
            self
        }
    }

    /// The larger of two numbers, with the conventions of `spec_min`.
    pub open spec fn spec_max(self, other: Scalar) -> Scalar {
        if self.spec_is_nan() || self.spec_lt(other) {
            other
        } else {
            self
        }
    }

    /// The number with the given bit pattern.
    pub fn from_bits(bits: u32) -> (s: Scalar)
        ensures
            s.bits == bits,
    {
        Scalar { bits }
    }

    /// The bit pattern of the number.
    pub fn to_bits(self) -> (bits: u32)
        ensures
            bits == self.bits,
    {
        self.bits
    }

    /// Positive zero.
    pub fn zero() -> (s: Scalar)
        ensures
            s.bits == 0,
            s.key() == 0,
            !s.spec_is_nan(),
    {
        Scalar { bits: 0 }
    }

    /// Positive infinity: the number that every other number lies below.
    pub open spec fn spec_infinity() -> Scalar {
        Scalar { bits: 0x7f80_0000 }
    }

    /// Positive infinity.
    #[verifier::when_used_as_spec(spec_infinity)]
    pub fn infinity() -> (s: Scalar)
        ensures
            s == Scalar::spec_infinity(),
    {
        Scalar { bits: 0x7f80_0000 }
    }

    /// No number lies above positive infinity.
    pub proof fn lemma_infinity_is_greatest(a: Scalar)
        ensures
            !Scalar::spec_infinity().spec_is_nan(),
            !Scalar::spec_infinity().spec_lt(a),
            !a.spec_is_nan() ==> a.spec_le(Scalar::spec_infinity()),
    {
    }

    #[verifier::when_used_as_spec(spec_is_nan)]
    pub fn is_nan(self) -> (r: bool)
        ensures
            r == self.spec_is_nan(),
    {
        self.bits % 0x8000_0000 > 0x7f80_0000
    }

    fn order_key(self) -> (k: i64)
        ensures
            k == self.key(),
    {
        let magnitude: u32 = self.bits % 0x8000_0000;
        if self.bits >= 0x8000_0000 {
            -(magnitude as i64)
        } else {
            magnitude as i64
        }
    }

    #[verifier::when_used_as_spec(spec_lt)]
    pub fn lt(self, other: Scalar) -> (r: bool)
        ensures
            r == self.spec_lt(other),
    {
        !self.is_nan() && !other.is_nan() && self.order_key() < other.order_key()
    }

    #[verifier::when_used_as_spec(spec_le)]
    pub fn le(self, other: Scalar) -> (r: bool)
        ensures
            r == self.spec_le(other),
    {
        !self.is_nan() && !other.is_nan() && self.order_key() <= other.order_key()
    }

    #[verifier::when_used_as_spec(spec_gt)]
    pub fn gt(self, other: Scalar) -> (r: bool)
        ensures
            r == self.spec_gt(other),
    {
        other.lt(self)
    }

    #[verifier::when_used_as_spec(spec_ge)]
    pub fn ge(self, other: Scalar) -> (r: bool)
        ensures
            r == self.spec_ge(other),
    {
        other.le(self)
    }

    #[verifier::when_used_as_spec(spec_min)]
    pub fn min(self, other: Scalar) -> (m: Scalar)
        ensures
            m == self.spec_min(other),
    {
        if self.is_nan() || other.lt(self) {
            other
        } else {
            self
        }
    }

    #[verifier::when_used_as_spec(spec_max)]
    pub fn max(self, other: Scalar) -> (m: Scalar)
        ensures
            m == self.spec_max(other),
    {
        if self.is_nan() || self.lt(other) {
            other
        } else {
            self
        }
    }

    /// Among numbers, `lt` is a strict order and `le` its reflexive closure;
    /// a pattern that is no number is related to nothing, itself included.
    pub proof fn lemma_order(a: Scalar, b: Scalar, c: Scalar)
        ensures
            !a.spec_lt(a),
            a.spec_lt(b) && b.spec_lt(c) ==> a.spec_lt(c),
            a.spec_lt(b) && b.spec_le(c) ==> a.spec_lt(c),
            a.spec_le(b) && b.spec_lt(c) ==> a.spec_lt(c),
            a.spec_lt(b) ==> a.spec_le(b) && !b.spec_le(a),
            !a.spec_is_nan() && !b.spec_is_nan() ==> (a.spec_lt(b) || b.spec_le(a)),
            a.spec_is_nan() ==> !a.spec_le(a) && !a.spec_lt(b) && !b.spec_lt(a),
            a.spec_le(a) <==> !a.spec_is_nan(),
    {
    }
}

} // verus!
