//! The boot thread's stack, as the bootloader hands it over.

use vstd::prelude::*;

verus! {

/// The boot stack: virtual pages `bottom_virt` to `top_virt` (page numbers),
/// with the top page backed by the physical frame `top_phys` (a frame
/// number) and the frames below it backing the pages below.
#[derive(Debug, Clone, Copy, PartialEq, Eq, Structural)]
pub struct BootStack {
    pub bottom_virt: usize,
    pub top_virt: usize,
    pub top_phys: usize,
}

/// The frames and pages that the boot thread's stack owns.
#[derive(Debug, Clone, Copy, PartialEq, Eq, Structural)]
pub struct StackParts {
    /// The first frame owned.
    pub first_frame: usize,
    /// The number of frames owned.
    pub frame_count: usize,
    /// The first page owned.
    pub first_page: usize,
    /// The number of pages owned.
    pub page_count: usize,
}

/// The frames and pages of the boot stack: `top_virt - bottom_virt - 1`
/// frames ending below the top frame, and one page more starting at the
/// bottom page. The stack must span at least three pages, so that it owns a
/// frame, and the frames must not reach below frame zero.
pub fn stack_parts(stack: BootStack) -> (parts: StackParts)
    requires
        stack.top_virt - stack.bottom_virt - 1 >= 1,
        stack.top_phys >= stack.top_virt - stack.bottom_virt - 1,
    ensures
        parts.frame_count == stack.top_virt - stack.bottom_virt - 1,
        parts.first_frame == stack.top_phys - parts.frame_count,
        parts.first_page == stack.bottom_virt,
        parts.page_count == parts.frame_count + 1,
{
    let stack_phys_len = stack.top_virt - stack.bottom_virt - 1;
    StackParts {
        first_frame: stack.top_phys - stack_phys_len,
        frame_count: stack_phys_len,
        first_page: stack.bottom_virt,
        page_count: stack_phys_len + 1,
    }
}

} // verus!
