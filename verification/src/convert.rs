//! Brain floats and little-endian values as bit patterns.
use vstd::prelude::*;

verus! {

/// Bits of the single precision value of a brain float: its own bits in front, and the quiet
/// bit set where it is not a number.
pub open spec fn brain_widened(bits: u16) -> u32 {
    if bits & 0x7FFF > 0x7F80 {
        (bits as u32 | 0x0040u32) << 16
    } else {
        (bits as u32) << 16
    }
}

/// Calls the widening of `half::bf16`. Claimed is that the bits of the brain float become the upper
/// half of the result, with the quiet bit set where it is not a number.
#[verifier::external_body]
pub(crate) fn brain_widen(bits: u16) -> (s: u32)
    ensures
        s == brain_widened(bits),
{
    bytemuck::cast(half::bf16::from_bits(bits).to_f32())
}

} // verus!
