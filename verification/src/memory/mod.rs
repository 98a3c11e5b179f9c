//! Physical memory: addresses and frames, the firmware memory map, a
//! watermark frame allocator that works on it, and frame reference counts.

pub mod frame;
pub mod negative_slice;
pub mod watermark_allocator;
pub mod refcount;
