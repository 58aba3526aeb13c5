//! IEEE-754 single-precision values held by their bit pattern.
//!
//! The editor never does arithmetic on its parameters; it only compares them
//! (with IEEE semantics) and hands them on. Holding the 32-bit pattern keeps
//! every such comparison an integer computation.
use vstd::prelude::*;

verus! {

/// A 32-bit float, held by its IEEE-754 bit pattern.
#[derive(Clone, Copy, Debug)]
pub struct F32 {
    pub bits: u32,
}

/// The bit pattern is a NaN: exponent all ones, mantissa non-zero.
pub open spec fn is_nan_bits(b: u32) -> bool {
    (0x7f80_0001 <= b <= 0x7fff_ffff) || (0xff80_0001 <= b)
}

/// The bit pattern is +0.0 or -0.0.
pub open spec fn is_zero_bits(b: u32) -> bool {
    b == 0 || b == 0x8000_0000
}

/// IEEE equality: NaN equals nothing, the two zeros are equal, and otherwise
/// two values are equal exactly when their bit patterns are.
pub open spec fn ieee_eq_bits(a: u32, b: u32) -> bool {
    &&& !is_nan_bits(a)
    &&& !is_nan_bits(b)
    &&& (a == b || (is_zero_bits(a) && is_zero_bits(b)))
}

impl F32 {
    pub open spec fn spec_is_zero(self) -> bool {
        is_zero_bits(self.bits)
    }

    pub open spec fn spec_eq(self, other: F32) -> bool {
        ieee_eq_bits(self.bits, other.bits)
    }

    pub open spec fn spec_is_nan(self) -> bool {
        is_nan_bits(self.bits)
    }

    pub fn from_bits(bits: u32) -> (r: F32)
        ensures
            r.bits == bits,
    {
        F32 { bits }
    }

    pub fn to_bits(&self) -> (r: u32)
        ensures
            r == self.bits,
    {
        self.bits
    }

    /// `0.0`
    pub fn zero() -> (r: F32)
        ensures
            r.bits == 0,
    {
        F32 { bits: 0 }
    }

    /// `1.0`
    pub fn one() -> (r: F32)
        ensures
            r.bits == 0x3f80_0000,
    {
        F32 { bits: 0x3f80_0000 }
    }

    /// `self == 0.0` with IEEE semantics.
    pub fn is_zero(&self) -> (r: bool)
        ensures
            r == self.spec_is_zero(),
    {
        self.bits == 0 || self.bits == 0x8000_0000
    }

    pub fn is_nan(&self) -> (r: bool)
        ensures
            r == self.spec_is_nan(),
    {
        (0x7f80_0001 <= self.bits && self.bits <= 0x7fff_ffff) || 0xff80_0001 <= self.bits
    }

    /// `self == other` with IEEE semantics.
    pub fn ieee_eq(&self, other: &F32) -> (r: bool)
        ensures
            r == self.spec_eq(*other),
    {
        if self.is_nan() || other.is_nan() {
            false
        } else {
            self.bits == other.bits || (self.is_zero() && other.is_zero())
        }
    }
}

/// Comparing with zero is IEEE equality with `0.0`.
pub proof fn lemma_is_zero_is_eq_zero(x: F32)
    ensures
        x.spec_is_zero() == x.spec_eq(F32 { bits: 0 }),
{
}

/// IEEE equality is symmetric.
pub proof fn lemma_ieee_eq_symmetric(a: F32, b: F32)
    ensures
        a.spec_eq(b) == b.spec_eq(a),
{
}

/// IEEE equality is reflexive on every value but NaN.
pub proof fn lemma_ieee_eq_reflexive(a: F32)
    ensures
        a.spec_eq(a) == !a.spec_is_nan(),
{
}

} // verus!
