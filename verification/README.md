# kernel

The verified core of a small x86-64 hobby kernel, written in Verus.

`src/` is the library. Verus checks all of it. Its functions state their
results in contracts, except the `==` and `partial_cmp` of timed events,
whose meaning is given by their specification impls (they compare times).
One contract is taken on trust: that of the wrapper around
`core::str::from_utf8` in `panicking` (it succeeds exactly on valid UTF-8
and keeps the bytes), from the standard library's documentation:

- `port`, `qemu`, `framebuffer`: I/O port descriptors, the values written to
  QEMU's debug devices, and clearing the boot framebuffer.
- `memory`: physical addresses and 4 KiB frames, slices with negative
  indexing, the watermark frame allocator over the bootloader's memory map
  (with the laws that every allocation lies inside a free area, that on a
  map whose free areas are sorted and do not overlap it is the highest run
  of frames that fits below the watermark, and that no two allocations of
  any run of requests overlap), and frame reference counts.
- `panicking`: the count of panics in flight and the symbol-map lookup used
  for stack traces.
- `timing`: the CPUID probe for the TSC frequency and the conversion of TSC
  ticks to nanoseconds.
- `threading`: the interrupt-guarded cell and the per-core scheduler, whose
  every operation is stated as a function on a value model of its state.

`app/` is the platform layer that the library cannot hold: inline assembly
for port I/O, CPUID and the TSC, the unwinding runtime, locks and globals, and
the glue that carries out the scheduler's decisions on the hardware through a
`Hal` trait that a target implements.

`tests/` runs the library on concrete inputs.
