//! Timed events compare by their time alone.

use vstd::prelude::*;
use vstd::std_specs::cmp::{PartialEqSpecImpl, PartialOrdSpecImpl};
use core::cmp::Ordering;
use crate::threading::scheduler::SchedulerEvent;

verus! {

impl PartialEq for SchedulerEvent {
    fn eq(&self, other: &Self) -> (same: bool) {
        self.time == other.time
    }
}

impl PartialEqSpecImpl for SchedulerEvent {
    open spec fn obeys_eq_spec() -> bool {
        true
    }

    open spec fn eq_spec(&self, other: &SchedulerEvent) -> bool {
        self.time == other.time
    }
}

impl Eq for SchedulerEvent {}

impl PartialOrd for SchedulerEvent {
    fn partial_cmp(&self, other: &Self) -> (order: Option<Ordering>) {
        if self.time < other.time {
            Some(Ordering::Less)
        } else if self.time == other.time {
            Some(Ordering::Equal)
        } else {
            Some(Ordering::Greater)
        }
    }
}

impl PartialOrdSpecImpl for SchedulerEvent {
    open spec fn obeys_partial_cmp_spec() -> bool {
        true
    }

    open spec fn partial_cmp_spec(&self, other: &SchedulerEvent) -> Option<Ordering> {
        if self.time < other.time {
            Some(Ordering::Less)
        } else if self.time == other.time {
            Some(Ordering::Equal)
        } else {
            Some(Ordering::Greater)
        }
    }
}

} // verus!
