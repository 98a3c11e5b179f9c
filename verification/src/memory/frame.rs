//! Physical addresses, 4 KiB frames and memory-map entries.

use vstd::prelude::*;

verus! {

/// Size in bytes of one physical frame.
pub const FRAME_SIZE: u64 = 4096;

/// A physical memory address.
#[derive(Debug, Clone, Copy, PartialEq, Eq, Structural)]
pub struct PhysicalAddress(pub u64);

impl PhysicalAddress {
    /// Wraps a raw physical address.
    pub fn new(addr: u64) -> (res: Self)
        ensures
            res.0 == addr,
    {
        PhysicalAddress(addr)
    }
}

/// A 4 KiB physical frame, named by the address of its first byte.
#[derive(Debug, Clone, Copy, PartialEq, Eq, Structural)]
pub struct Frame {
    start: u64,
}

impl Frame {
    /// Frames start on a frame boundary.
    #[verifier::type_invariant]
    pub closed spec fn aligned(self) -> bool {
        self.start % FRAME_SIZE == 0
    }

    /// The address of the first byte of the frame.
    pub closed spec fn spec_start(self) -> u64 {
        self.start
    }

    /// The number of the frame: its start address divided by the frame size.
    pub open spec fn number(self) -> int {
        self.spec_start() as int / FRAME_SIZE as int
    }

    /// The frame that starts at `addr`, which must lie on a frame boundary.
    pub fn new(addr: PhysicalAddress) -> (frame: Self)
        requires
            addr.0 % FRAME_SIZE == 0,
        ensures
            frame.spec_start() == addr.0,
    {
        Frame { start: addr.0 }
    }

    /// The frame that contains `addr`.
    pub fn align_down(addr: PhysicalAddress) -> (frame: Self)
        ensures
            frame.spec_start() == addr.0 - addr.0 % FRAME_SIZE,
    {
        Frame { start: addr.0 - addr.0 % FRAME_SIZE }
    }

    /// The address of the first byte of the frame.
    pub fn start(&self) -> (addr: PhysicalAddress)
        ensures
            addr.0 == self.spec_start(),
            addr.0 % FRAME_SIZE == 0,
    {
        proof {
            use_type_invariant(self);
        }
        PhysicalAddress(self.start)
    }

    /// The frame `count` frames below this one, or `None` when that would lie
    /// below address zero.
    pub fn checked_sub(&self, count: usize) -> (res: Option<Frame>)
        ensures
            count > self.number() ==> res is None,
            count <= self.number() ==> (res matches Some(f) && f.number() == self.number() - count),
    {
        proof {
            use_type_invariant(self);
        }
        let number: u64 = self.start / FRAME_SIZE;
        if (count as u64) > number {
            None
        } else {
            let start: u64 = (number - count as u64) * FRAME_SIZE;
            assert(start % FRAME_SIZE == 0) by (nonlinear_arith)
                requires start == (number - count) * FRAME_SIZE, number >= count;
            Some(Frame { start })
        }
    }
}

/// The kind of memory that a memory-map entry describes.
#[derive(Debug, Clone, Copy, PartialEq, Eq, Structural)]
pub enum MemoryType {
    Free,
    Reserved,
}

/// A half-open range of physical addresses, `[start, end)`.
#[derive(Debug, Clone, Copy, PartialEq, Eq, Structural)]
pub struct Range(pub PhysicalAddress, pub PhysicalAddress);

impl Range {
    /// The first address in the range.
    pub fn start(&self) -> (addr: PhysicalAddress)
        ensures
            addr == self.0,
    {
        self.0
    }

    /// The first address past the range.
    pub fn end(&self) -> (addr: PhysicalAddress)
        ensures
            addr == self.1,
    {
        self.1
    }
}

/// One entry of the memory map handed over by the bootloader.
#[derive(Debug, Clone, Copy, PartialEq, Eq, Structural)]
pub struct MemoryMapEntry {
    pub coverage: Range,
    pub ty: MemoryType,
}

impl MemoryMapEntry {
    /// The first address past the area that the entry covers.
    pub fn end(&self) -> (addr: PhysicalAddress)
        ensures
            addr == self.coverage.1,
    {
        self.coverage.1
    }
}

} // verus!
