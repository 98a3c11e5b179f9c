use kernel::memory::frame::{Frame, MemoryMapEntry, MemoryType, PhysicalAddress, Range};
use kernel::memory::watermark_allocator::{last_free_index, AllocError, WatermarkAllocator};

const MEMORY_LAYOUT: [MemoryMapEntry; 5] = [
    MemoryMapEntry {
        coverage: Range(PhysicalAddress(0), PhysicalAddress(0x2000)),
        ty: MemoryType::Free,
    },
    MemoryMapEntry {
        coverage: Range(PhysicalAddress(0x2000), PhysicalAddress(0x4000)),
        ty: MemoryType::Reserved,
    },
    MemoryMapEntry {
        coverage: Range(PhysicalAddress(0x6000), PhysicalAddress(0x7300)),
        ty: MemoryType::Free,
    },
    MemoryMapEntry {
        coverage: Range(PhysicalAddress(0x8200), PhysicalAddress(0x9000)),
        ty: MemoryType::Free,
    },
    MemoryMapEntry {
        coverage: Range(PhysicalAddress(0xa000), PhysicalAddress(0x10000)),
        ty: MemoryType::Free,
    },
];

// `WatermarkAllocator::new` requires a free area; these maps fail it.
#[test]
fn fail_when_empty_memory() {
    assert_eq!(last_free_index(&[]), None);
}

#[test]
fn fail_when_no_free_memory() {
    assert_eq!(last_free_index(&MEMORY_LAYOUT[1..2]), None);
}

#[test]
fn last_free_index_finds_last_free_entry() {
    assert_eq!(last_free_index(&MEMORY_LAYOUT), Some(4));
    assert_eq!(last_free_index(&MEMORY_LAYOUT[0..2]), Some(0));
}

#[test]
fn allocates_available_frames_downwards() {
    let mut alloc = WatermarkAllocator::new(&MEMORY_LAYOUT[0..1]);
    assert_eq!(alloc.allocate_contiguous(1, 0), Ok(Frame::new(PhysicalAddress(0x1000))));
    assert_eq!(alloc.allocate_contiguous(1, 0), Ok(Frame::new(PhysicalAddress(0x0000))));
    assert_eq!(alloc.allocate_contiguous(1, 0), Err(AllocError));
}

#[test]
fn does_not_return_partial_frame_end() {
    let mut alloc = WatermarkAllocator::new(&MEMORY_LAYOUT[2..3]);
    assert_ne!(alloc.allocate_contiguous(1, 0), Ok(Frame::new(PhysicalAddress(0x7000))));
}

#[test]
fn does_not_return_partial_frame_start() {
    let mut alloc = WatermarkAllocator::new(&MEMORY_LAYOUT[3..4]);
    assert_ne!(alloc.allocate_contiguous(1, 0), Ok(Frame::new(PhysicalAddress(0x8000))));
}

#[test]
fn jumps_between_areas() {
    let mut alloc = WatermarkAllocator::new(&MEMORY_LAYOUT[0..3]);
    assert_eq!(alloc.allocate_contiguous(1, 0), Ok(Frame::new(PhysicalAddress(0x6000))));
    assert_eq!(alloc.allocate_contiguous(1, 0), Ok(Frame::new(PhysicalAddress(0x1000))));
    assert_eq!(alloc.allocate_contiguous(1, 0), Ok(Frame::new(PhysicalAddress(0x0000))));
    assert_eq!(alloc.allocate_contiguous(1, 0), Err(AllocError));
}

#[test]
fn allocates_multiple_pages() {
    let mut alloc = WatermarkAllocator::new(&MEMORY_LAYOUT[4..5]);
    assert_eq!(alloc.allocate_contiguous(3, 0), Ok(Frame::new(PhysicalAddress(0xd000))));
    assert_eq!(alloc.allocate_contiguous(2, 0), Ok(Frame::new(PhysicalAddress(0xb000))));
    assert_eq!(alloc.allocate_contiguous(1, 0), Ok(Frame::new(PhysicalAddress(0xa000))));
    assert_eq!(alloc.allocate_contiguous(1, 0), Err(AllocError));
}

#[test]
fn allocator_views_up_to_last_free_area() {
    let layout = [MEMORY_LAYOUT[0], MEMORY_LAYOUT[1]];
    let alloc = WatermarkAllocator::new(&layout);
    assert_eq!(alloc.get_inner().remaining_areas(), 1);
    assert_eq!(alloc.get_inner().prev_frame(), Frame::new(PhysicalAddress(0x2000)));
}

#[test]
fn failed_request_drops_exhausted_areas() {
    let mut alloc = WatermarkAllocator::new(&MEMORY_LAYOUT[0..3]);
    // Three frames fit in neither the area at 0x6000 nor the one at 0x0.
    assert_eq!(alloc.allocate_contiguous(3, 0), Err(AllocError));
    assert_eq!(alloc.get_inner().remaining_areas(), 1);
    // The watermark is kept.
    assert_eq!(alloc.get_inner().prev_frame(), Frame::new(PhysicalAddress(0x7000)));
}

#[test]
fn exhausting_the_map_empties_the_view() {
    let mut alloc = WatermarkAllocator::new(&MEMORY_LAYOUT[3..5]);
    assert_eq!(alloc.allocate_contiguous(6, 0), Ok(Frame::new(PhysicalAddress(0xa000))));
    // 0x9000 lies below the area; the area at 0x8200 has no whole frame.
    assert_eq!(alloc.allocate_contiguous(1, 0), Err(AllocError));
    assert_eq!(alloc.get_inner().remaining_areas(), 0);
    assert_eq!(alloc.get_inner().prev_frame(), Frame::new(PhysicalAddress(0xa000)));
}

#[test]
fn frame_arithmetic() {
    let f = Frame::align_down(PhysicalAddress(0x7300));
    assert_eq!(f.start(), PhysicalAddress(0x7000));
    assert_eq!(f.checked_sub(7), Some(Frame::new(PhysicalAddress(0))));
    assert_eq!(f.checked_sub(8), None);
    assert_eq!(Frame::align_down(PhysicalAddress(0x2000)).start(), PhysicalAddress::new(0x2000));
    assert_eq!(MEMORY_LAYOUT[2].end(), PhysicalAddress(0x7300));
    assert_eq!(MEMORY_LAYOUT[2].coverage.start(), PhysicalAddress(0x6000));
    assert_eq!(MEMORY_LAYOUT[2].coverage.end(), PhysicalAddress(0x7300));
}

#[test]
fn failed_request_can_leave_watermark_above_the_area() {
    // After a request that cuts the view back to a smaller area fails, the
    // watermark still lies in the dropped area, and the next request is
    // carved from just below it.
    let layout = [
        MemoryMapEntry { coverage: Range(PhysicalAddress(0), PhysicalAddress(0x1000)), ty: MemoryType::Free },
        MemoryMapEntry { coverage: Range(PhysicalAddress(0x1000), PhysicalAddress(0x10000)), ty: MemoryType::Reserved },
        MemoryMapEntry { coverage: Range(PhysicalAddress(0x10000), PhysicalAddress(0x11000)), ty: MemoryType::Free },
    ];
    let mut alloc = WatermarkAllocator::new(&layout);
    assert_eq!(alloc.allocate_contiguous(1, 0), Ok(Frame::new(PhysicalAddress(0x10000))));
    assert_eq!(alloc.allocate_contiguous(2, 0), Err(AllocError));
    assert_eq!(alloc.get_inner().remaining_areas(), 1);
    assert_eq!(alloc.allocate_contiguous(1, 0), Ok(Frame::new(PhysicalAddress(0xf000))));
}
