//! Trust and performance scores as IEEE 754 single-precision bit patterns.
//!
//! The ledger accepts any caller-supplied score, including negative values,
//! zeroes and NaN, and never does arithmetic on them: the only question it
//! ever asks of a score is whether it is strictly greater than zero. A score
//! therefore travels through the ledger as the raw 32-bit encoding of the
//! number, and the one comparison the read path needs is decided on the bits.

use vstd::prelude::*;

verus! {

/// Whether the single-precision number encoded by `bits` is strictly
/// greater than zero.
///
/// In the IEEE 754 single-precision encoding, a value compares greater
/// than zero exactly when its sign bit is clear, it is not the zero
/// encoding, and it is not a NaN (exponent field all ones with a nonzero
/// fraction field). Positive subnormals and positive infinity both
/// compare greater than zero; both zero encodings, every negative value
/// and every NaN do not.
pub open spec fn f32_bits_positive(bits: u32) -> bool {
    &&& bits & 0x8000_0000u32 == 0
    &&& bits != 0
    &&& !(bits & 0x7F80_0000u32 == 0x7F80_0000u32 && bits & 0x007F_FFFFu32 != 0)
}

/// Decides `f32_bits_positive` on an encoded score.
pub fn score_is_positive(bits: u32) -> (r: bool)
    ensures
        r == f32_bits_positive(bits),
{
    let sign_clear: bool = bits & 0x8000_0000u32 == 0;
    let nonzero: bool = bits != 0;
    let is_nan: bool = bits & 0x7F80_0000u32 == 0x7F80_0000u32 && bits & 0x007F_FFFFu32 != 0;
    sign_clear && nonzero && !is_nan
}

} // verus!
