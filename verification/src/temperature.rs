use vstd::prelude::*;

verus! {

/// The bits of 1.0 in IEEE 754 single precision.
pub const ONE_BITS: u32 = 0x3F80_0000;

/// The bits of -0.0 in IEEE 754 single precision.
pub const NEGATIVE_ZERO_BITS: u32 = 0x8000_0000;

/// A sampling temperature, held as the bits of its IEEE 754
/// single-precision encoding. The library never computes with the number;
/// it carries it, and tells whether it lies between 0.0 and 1.0.
#[derive(Clone, Copy, Debug, PartialEq, Eq, Structural)]
pub struct Temperature {
    pub bits: u32,
}

/// Whether the bits encode a number from 0.0 to 1.0, both included. With
/// the sign bit clear the encodings are ordered as the numbers are, so
/// these are the bits up to those of 1.0; beside them stands -0.0, which
/// equals 0.0. Every other negative number, the infinities and the
/// non-numbers are outside.
pub open spec fn encodes_unit_range(bits: u32) -> bool {
    bits <= ONE_BITS || bits == NEGATIVE_ZERO_BITS
}

impl Temperature {
    /// The temperature with the given encoding.
    pub fn from_bits(bits: u32) -> (t: Temperature)
        ensures
            t.bits == bits,
    {
        Temperature { bits }
    }

    /// The encoding of the temperature.
    pub fn to_bits(self) -> (bits: u32)
        ensures
            bits == self.bits,
    {
        self.bits
    }

    /// Tells whether the temperature lies between 0.0 and 1.0.
    pub fn in_unit_range(self) -> (r: bool)
        ensures
            r == encodes_unit_range(self.bits),
    {
        self.bits <= ONE_BITS || self.bits == NEGATIVE_ZERO_BITS
    }
}

} // verus!
