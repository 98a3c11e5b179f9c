//! Clearing the boot framebuffer.

use vstd::prelude::*;

verus! {

/// The colour, `0x00RRGGBB`, that the framebuffer is cleared to at boot.
pub const BACKGROUND: u32 = 0xeeeeee;

/// Paints every pixel of `pixels` in [`BACKGROUND`].
pub fn fill_framebuffer(pixels: &mut [u32])
    ensures
        final(pixels)@.len() == old(pixels)@.len(),
        forall|i: int| 0 <= i < final(pixels)@.len() ==> final(pixels)@[i] == BACKGROUND,
{
    let len = pixels.len();
    let mut i: usize = 0;
    while i < len
        invariant
            len == pixels@.len(),
            len == old(pixels)@.len(),
            i <= len,
            forall|k: int| 0 <= k < i ==> pixels@[k] == BACKGROUND,
        decreases len - i,
    {
        pixels[i] = BACKGROUND;
        i = i + 1;
    }
}

} // verus!
