//! Verified core of a small x86-64 kernel: I/O port descriptors and QEMU's
//! debug devices, physical memory bookkeeping (frames, a watermark frame
//! allocator over the bootloader's memory map, frame reference counts),
//! panic bookkeeping and symbol lookup for stack traces, TSC time
//! conversion, and the decisions of the per-core thread scheduler.
//!
//! Everything that touches the hardware (port instructions, CPUID, the TSC,
//! timers, interrupts, context switches) is left to the platform layer,
//! which hands this crate plain values and carries out what it returns.

pub mod port;
pub mod qemu;
pub mod framebuffer;
pub mod memory;
pub mod panicking;
pub mod threading;
pub mod timing;
