//! Values shared by the image and the frame decoders.

use vstd::prelude::*;

verus! {

/// Dimensions of an image, a preview or an intrinsic size, in pixels.
#[derive(Debug, PartialEq, Eq, Clone, Copy, Structural)]
pub struct ImageSize {
    pub width: u32,
    pub height: u32,
}

/// The signed value that an unsigned coded value stands for: even values
/// count downwards from zero, odd values upwards, one step every two values.
pub open spec fn spec_unpack_signed(val: u32) -> int {
    if val % 2 == 0 {
        -(val as int / 2)
    } else {
        val as int / 2
    }
}

/// Recovers a signed offset from its unsigned coded form.
pub fn unpack_signed(val: u32) -> (r: i32)
    ensures
        r == spec_unpack_signed(val),
{
    assert(val & 1 == val % 2) by (bit_vector);
    let half: i32 = (val / 2) as i32;
    if val & 1 == 0 {
        -half
    } else {
        half
    }
}

} // verus!
