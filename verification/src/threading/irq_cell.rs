//! A cell whose contents are only reached with interrupts disabled.
//!
//! Locking the cell records the interrupt state that was in force before the
//! platform disabled interrupts; releasing the lock hands that state back so
//! that the platform can restore it. The cell refuses to be locked twice.

use vstd::prelude::*;

verus! {

/// A value reachable only while interrupts are disabled.
#[derive(Debug)]
pub struct IrqCell<T> {
    state: Option<usize>,
    data: T,
}

impl<T> IrqCell<T> {
    /// The interrupt state saved by the lock currently held, if any.
    pub closed spec fn saved(&self) -> Option<usize> {
        self.state
    }

    /// The value in the cell.
    pub closed spec fn value(&self) -> T {
        self.data
    }

    /// An unlocked cell holding `val`.
    pub fn new(val: T) -> (cell: Self)
        ensures
            cell.saved() is None,
            cell.value() == val,
    {
        IrqCell { state: None, data: val }
    }

    /// Whether the cell is locked.
    pub fn is_locked(&self) -> (locked: bool)
        ensures
            locked == self.saved() is Some,
    {
        self.state.is_some()
    }

    /// Locks the cell, recording `interrupt_state`, the interrupt state that
    /// was in force before interrupts were disabled for this lock. The cell
    /// must not be locked already.
    pub fn lock(&mut self, interrupt_state: usize) -> (guard: IrqGuard<'_, T>)
        requires
            old(self).saved() is None,
        ensures
            guard.cell.saved() == Some(interrupt_state),
            guard.cell.value() == old(self).value(),
            *final(self) == *final(guard.cell),
    {
        self.state = Some(interrupt_state);
        IrqGuard { cell: self }
    }

    /// Unlocks the cell, handing back the interrupt state to restore.
    pub fn unlock(&mut self) -> (interrupt_state: usize)
        requires
            old(self).saved() is Some,
        ensures
            Some(interrupt_state) == old(self).saved(),
            final(self).saved() is None,
            final(self).value() == old(self).value(),
    {
        let old_state = self.state.take();
        old_state.unwrap()
    }
}

/// Access to the contents of a locked [`IrqCell`].
#[derive(Debug)]
pub struct IrqGuard<'cell, T> {
    pub cell: &'cell mut IrqCell<T>,
}

impl<'cell, T> IrqGuard<'cell, T> {
    /// Reads the value.
    pub fn get(&self) -> (r: &T)
        ensures
            *r == old(self.cell).value(),
    {
        &self.cell.data
    }

    /// The value, for writing.
    pub fn get_mut(&mut self) -> (r: &mut T)
        ensures
            *r == old(self).cell.value(),
            final(self).cell.value() == *final(r),
            final(self).cell.saved() == old(self).cell.saved(),
            *final(final(self).cell) == *final(old(self).cell),
    {
        &mut self.cell.data
    }

    /// Replaces the value.
    pub fn set(&mut self, val: T)
        ensures
            final(self).cell.value() == val,
            final(self).cell.saved() == old(self).cell.saved(),
            *final(final(self).cell) == *final(old(self).cell),
    {
        self.cell.data = val;
    }

    /// Gives up the guard, unlocking the cell; returns the interrupt state to
    /// restore.
    pub fn release(self) -> (interrupt_state: usize)
        requires
            old(self.cell).saved() is Some,
        ensures
            Some(interrupt_state) == old(self.cell).saved(),
            final(self.cell).saved() is None,
            final(self.cell).value() == old(self.cell).value(),
    {
        self.cell.unlock()
    }
}

} // verus!
