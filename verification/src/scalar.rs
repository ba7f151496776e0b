//! Single-precision numbers carried as their 32-bit patterns.
//!
//! Coordinates pass through the painter untouched except for two questions
//! (is it a NaN, is it zero) and one constant (two to the power -16). All
//! three are statements about the sign, exponent and fraction fields of the
//! pattern, so the pattern is all this library keeps.

use vstd::prelude::*;

verus! {

/// Pattern of positive zero.
pub const ZERO_BITS: u32 = 0;

/// Pattern of two to the power -16: sign 0, exponent field 111, fraction 0.
pub const UV_NUDGE_BITS: u32 = 0x3780_0000;

/// A binary32 number, held as its bit pattern.
#[derive(Clone, Copy, Debug, PartialEq, Eq, Structural)]
pub struct Scalar {
    pub bits: u32,
}

/// The sign bit of a pattern: bit 31.
pub open spec fn sign_field(bits: u32) -> nat {
    (bits as nat) / 0x8000_0000
}

/// The biased exponent of a pattern: bits 23 to 30.
pub open spec fn exponent_field(bits: u32) -> nat {
    ((bits as nat) / 0x80_0000) % 0x100
}

/// The fraction of a pattern: bits 0 to 22.
pub open spec fn fraction_field(bits: u32) -> nat {
    (bits as nat) % 0x80_0000
}

impl Scalar {
    /// The pattern denotes a NaN: exponent all ones, fraction not zero.
    pub open spec fn nan(self) -> bool {
        exponent_field(self.bits) == 0xff && fraction_field(self.bits) != 0
    }

    /// The pattern denotes zero, of either sign: it compares equal to zero.
    pub open spec fn zero(self) -> bool {
        exponent_field(self.bits) == 0 && fraction_field(self.bits) == 0
    }

    /// The pattern denotes exactly two to the power `e`, a normal number.
    pub open spec fn power_of_two(self, e: int) -> bool {
        &&& sign_field(self.bits) == 0
        &&& 0 < e + 127 < 0xff
        &&& exponent_field(self.bits) == e + 127
        &&& fraction_field(self.bits) == 0
    }

    pub fn from_bits(bits: u32) -> (s: Scalar)
        ensures
            s.bits == bits,
    {
        Scalar { bits }
    }

    pub fn to_bits(&self) -> (bits: u32)
        ensures
            bits == self.bits,
    {
        self.bits
    }

    /// Positive zero.
    pub fn zero_value() -> (s: Scalar)
        ensures
            s.bits == ZERO_BITS,
            s.zero(),
            !s.nan(),
    {
        Scalar { bits: ZERO_BITS }
    }

    /// Two to the power -16, the offset by which a degenerate texture
    /// coordinate is moved.
    pub fn uv_nudge() -> (s: Scalar)
        ensures
            s.bits == UV_NUDGE_BITS,
            s.power_of_two(-16),
            !s.zero(),
            !s.nan(),
    {
        Scalar { bits: UV_NUDGE_BITS }
    }

    pub fn is_nan(&self) -> (b: bool)
        ensures
            b == self.nan(),
    {
        let bits: u32 = self.bits;
        let exponent: u32 = (bits >> 23) & 0xff;
        let fraction: u32 = bits & 0x7f_ffff;
        proof {
            lemma_fields(bits);
        }
        exponent == 0xff && fraction != 0
    }

    pub fn is_zero(&self) -> (b: bool)
        ensures
            b == self.zero(),
    {
        let bits: u32 = self.bits;
        let magnitude: u32 = bits & 0x7fff_ffff;
        proof {
            lemma_fields(bits);
            assert(magnitude == 0 <==> ((bits >> 23) & 0xff) == 0 && (bits & 0x7f_ffff) == 0)
                by (bit_vector)
                requires
                    magnitude == bits & 0x7fff_ffff,
            ;
        }
        magnitude == 0
    }
}

/// Shifts and masks read the same fields as division and remainder.
pub proof fn lemma_fields(bits: u32)
    ensures
        ((bits >> 23) & 0xff) == exponent_field(bits),
        (bits & 0x7f_ffff) == fraction_field(bits),
        (bits >> 31) == sign_field(bits),
{
    assert(((bits >> 23) & 0xff) == (bits / 0x80_0000) % 0x100) by (bit_vector);
    assert((bits & 0x7f_ffff) == bits % 0x80_0000) by (bit_vector);
    assert((bits >> 31) == bits / 0x8000_0000) by (bit_vector);
}

} // verus!
