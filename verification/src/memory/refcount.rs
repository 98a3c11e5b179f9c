//! Reference counts of shared physical frames.

use vstd::prelude::*;

verus! {

/// `c + 1`, wrapping around at the top of `usize`.
pub open spec fn count_up(c: usize) -> usize {
    if c == usize::MAX {
        0
    } else {
        (c + 1) as usize
    }
}

/// `c - 1`, wrapping around at zero.
pub open spec fn count_down(c: usize) -> usize {
    if c == 0 {
        usize::MAX
    } else {
        (c - 1) as usize
    }
}

/// The reference count of one frame, with the position of the next segment
/// of the count table, if the table continues.
#[derive(Debug)]
pub struct RefCountEntry {
    strong_count: usize,
    next_segment: Option<usize>,
}

impl RefCountEntry {
    /// The current count.
    pub closed spec fn count(&self) -> usize {
        self.strong_count
    }

    /// The position of the next segment of the table, if any.
    pub closed spec fn next(&self) -> Option<usize> {
        self.next_segment
    }

    /// An entry holding `strong_count` references.
    pub fn new(strong_count: usize, next_segment: Option<usize>) -> (entry: Self)
        ensures
            entry.count() == strong_count,
            entry.next() == next_segment,
    {
        RefCountEntry { strong_count, next_segment }
    }

    /// The current count.
    pub fn strong_count(&self) -> (c: usize)
        ensures
            c == self.count(),
    {
        self.strong_count
    }

    /// Records one more reference.
    pub fn increment(&mut self)
        ensures
            final(self).count() == count_up(old(self).count()),
            final(self).next() == old(self).next(),
    {
        self.strong_count = self.strong_count.wrapping_add(1);
    }

    /// Drops one reference; true when it was the last one.
    pub fn decrement(&mut self) -> (last: bool)
        ensures
            last == (old(self).count() == 1),
            final(self).count() == count_down(old(self).count()),
            final(self).next() == old(self).next(),
    {
        let old_count = self.strong_count;
        self.strong_count = self.strong_count.wrapping_sub(1);
        old_count == 1
    }
}

/// Taking a reference and dropping it again leaves the count as it was, and
/// the drop reports the last reference exactly when there was none before.
pub proof fn lemma_increment_then_decrement(c: usize)
    ensures
        count_down(count_up(c)) == c,
        (count_up(c) == 1) == (c == 0),
{
}

} // verus!
