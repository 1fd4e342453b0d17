//! The orientation value: a unit quaternion whose four `f32` components are
//! carried as their raw IEEE-754 bit patterns. Keeping the components as bit
//! patterns is exact (no rounding, no re-normalisation) and matches how the
//! cell stores them in its four 32-bit slots.

use vstd::prelude::*;

verus! {

/// Bit pattern of `1.0_f32`.
pub const F32_ONE_BITS: u32 = 0x3F80_0000;

/// Mask of the IEEE-754 sign bit of a 32-bit float.
pub const F32_SIGN_BIT: u32 = 0x8000_0000;

/// A quaternion `(x, y, z, w)`, each component the raw bit pattern of an
/// `f32`. Components are never reinterpreted or re-normalised here; producers
/// are trusted to supply a valid rotation.
#[derive(Clone, Copy, Debug, PartialEq, Eq, Structural)]
pub struct QuatBits {
    pub x: u32,
    pub y: u32,
    pub z: u32,
    pub w: u32,
}

impl QuatBits {
    /// The identity rotation `(0, 0, 0, 1)`.
    pub open spec fn spec_identity() -> QuatBits {
        QuatBits { x: 0, y: 0, z: 0, w: F32_ONE_BITS }
    }

    /// The identity rotation `(0, 0, 0, 1)`.
    pub fn identity() -> (r: QuatBits)
        ensures
            r == QuatBits::spec_identity(),
    {
        QuatBits { x: 0, y: 0, z: 0, w: F32_ONE_BITS }
    }
}

/// IEEE-754 negation of a float, on its bit pattern: the sign bit flips and
/// nothing else changes.
pub open spec fn spec_neg_f32_bits(b: u32) -> u32 {
    b ^ F32_SIGN_BIT
}

/// Negate a float given as its bit pattern by flipping the sign bit, which is
/// exactly what IEEE-754 (and Rust's `-` on `f32`) does for every value,
/// zeros and NaNs included.
pub fn neg_f32_bits(b: u32) -> (r: u32)
    ensures
        r == spec_neg_f32_bits(b),
{
    b ^ F32_SIGN_BIT
}

} // verus!
