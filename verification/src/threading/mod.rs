//! Threads: the per-core scheduler and the cell that guards it.

pub mod boot_stack;
pub mod irq_cell;
pub mod scheduler;
pub mod event_order;
