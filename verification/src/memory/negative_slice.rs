//! Slices that can also be indexed from the back with negative indices.
//!
//! An index `i >= 0` names the element `i` places from the front, as with an
//! ordinary slice; an index `i < 0` names the element `-i` places from the
//! back, so `-1` is the last element. Ranges accept either kind at either end.

use vstd::prelude::*;

verus! {

/// The position in a sequence of length `len` that index `i` names: `i`
/// itself when it is not negative, else `len + i`.
pub open spec fn resolve(len: int, i: int) -> int {
    if i >= 0 {
        i
    } else {
        len + i
    }
}

/// A negative index counts from the back: `-k` names the same element as
/// `len - k`.
pub proof fn lemma_negative_index_from_back(len: int, k: int)
    requires
        0 < k <= len,
    ensures
        resolve(len, -k) == resolve(len, len - k),
        resolve(len, -k) == len - k,
{
}

/// The position that `index` names in a slice of length `len`, or `None`
/// when a negative index reaches before the start.
pub fn resolve_index(len: usize, index: isize) -> (pos: Option<usize>)
    ensures
        resolve(len as int, index as int) >= 0 ==> pos == Some(resolve(len as int, index as int) as usize),
        resolve(len as int, index as int) < 0 ==> pos is None,
{
    if index >= 0 {
        Some(index as usize)
    } else {
        let back: usize = (-(index as i128)) as usize;
        if back > len {
            None
        } else {
            Some(len - back)
        }
    }
}

/// A shared slice with negative indexing.
#[derive(Debug)]
pub struct NegativeSlice<'a, T>(pub &'a [T]);

impl<'a, T> View for NegativeSlice<'a, T> {
    type V = Seq<T>;

    open spec fn view(&self) -> Seq<T> {
        self.0@
    }
}

impl<'a, T> NegativeSlice<'a, T> {
    /// Views `a` with negative indexing.
    pub fn new(a: &'a [T]) -> (s: Self)
        ensures
            s@ == a@,
    {
        NegativeSlice(a)
    }

    /// Views `a` with negative indexing, for writing.
    pub fn new_mut(a: &'a mut [T]) -> (s: NegativeSliceMut<'a, T>)
        ensures
            s.elems() == old(a)@,
            final(a)@ == final(s.0)@,
    {
        NegativeSliceMut(a)
    }

    /// The number of elements.
    pub fn len(&self) -> (len: usize)
        ensures
            len == self@.len(),
    {
        self.0.len()
    }

    /// The elements as an ordinary slice.
    pub fn as_slice(&self) -> (s: &'a [T])
        ensures
            s@ == self@,
    {
        self.0
    }

    /// The element that `index` names.
    pub fn index(&self, index: isize) -> (elem: &'a T)
        requires
            0 <= resolve(self@.len() as int, index as int) < self@.len(),
        ensures
            *elem == self@[resolve(self@.len() as int, index as int)],
    {
        let pos = resolve_index(self.0.len(), index).unwrap();
        &self.0[pos]
    }

    /// The elements from position `start` up to, not including, position `end`
    /// (`self[start..end]`).
    pub fn index_range(&self, start: isize, end: isize) -> (sub: NegativeSlice<'a, T>)
        requires
            0 <= resolve(self@.len() as int, start as int) <= resolve(self@.len() as int, end as int)
                <= self@.len(),
        ensures
            sub@ == self@.subrange(
                resolve(self@.len() as int, start as int),
                resolve(self@.len() as int, end as int),
            ),
    {
        let s = resolve_index(self.0.len(), start).unwrap();
        let e = resolve_index(self.0.len(), end).unwrap();
        NegativeSlice(&self.0[s..e])
    }

    /// The elements from position `start` to the end (`self[start..]`).
    pub fn index_range_from(&self, start: isize) -> (sub: NegativeSlice<'a, T>)
        requires
            0 <= resolve(self@.len() as int, start as int) <= self@.len(),
        ensures
            sub@ == self@.subrange(resolve(self@.len() as int, start as int), self@.len() as int),
    {
        let s = resolve_index(self.0.len(), start).unwrap();
        NegativeSlice(&self.0[s..self.0.len()])
    }

    /// The elements before position `end` (`self[..end]`).
    pub fn index_range_to(&self, end: isize) -> (sub: NegativeSlice<'a, T>)
        requires
            0 <= resolve(self@.len() as int, end as int) <= self@.len(),
        ensures
            sub@ == self@.subrange(0, resolve(self@.len() as int, end as int)),
    {
        let e = resolve_index(self.0.len(), end).unwrap();
        NegativeSlice(&self.0[0..e])
    }

    /// The elements up to and including position `end` (`self[..=end]`).
    pub fn index_range_to_inclusive(&self, end: isize) -> (sub: NegativeSlice<'a, T>)
        requires
            0 <= resolve(self@.len() as int, end as int) < self@.len(),
        ensures
            sub@ == self@.subrange(0, resolve(self@.len() as int, end as int) + 1),
    {
        let e = resolve_index(self.0.len(), end).unwrap();
        NegativeSlice(&self.0[0..e + 1])
    }

    /// The elements from position `start` up to and including position `end`
    /// (`self[start..=end]`).
    pub fn index_range_inclusive(&self, start: isize, end: isize) -> (sub: NegativeSlice<'a, T>)
        requires
            0 <= resolve(self@.len() as int, start as int) <= resolve(self@.len() as int, end as int)
                + 1,
            0 <= resolve(self@.len() as int, end as int) < self@.len(),
        ensures
            sub@ == self@.subrange(
                resolve(self@.len() as int, start as int),
                resolve(self@.len() as int, end as int) + 1,
            ),
    {
        let s = resolve_index(self.0.len(), start).unwrap();
        let e = resolve_index(self.0.len(), end).unwrap();
        NegativeSlice(&self.0[s..e + 1])
    }

    /// All the elements (`self[..]`).
    pub fn index_full(&self) -> (sub: NegativeSlice<'a, T>)
        ensures
            sub@ == self@,
    {
        NegativeSlice(self.0)
    }
}

/// An exclusive slice with negative indexing.
#[derive(Debug)]
pub struct NegativeSliceMut<'a, T>(pub &'a mut [T]);

impl<'a, T> NegativeSliceMut<'a, T> {
    /// The current elements.
    pub open spec fn elems(&self) -> Seq<T> {
        self.0@
    }

    /// The element that `index` names, for writing.
    pub fn index_mut(&mut self, index: isize) -> (elem: &mut T)
        requires
            0 <= resolve(old(self).elems().len() as int, index as int) < old(self).elems().len(),
        ensures
            *elem == old(self).elems()[resolve(old(self).elems().len() as int, index as int)],
            final(self).elems() == old(self).elems().update(
                resolve(old(self).elems().len() as int, index as int),
                *final(elem),
            ),
            final(final(self).0)@ == final(old(self).0)@,
    {
        let pos = resolve_index(self.0.len(), index).unwrap();
        let (_front, back) = self.0.split_at_mut(pos);
        back.first_mut().unwrap()
    }

    /// The positions `s..e` of the slice, for writing.
    fn positions_mut(&mut self, s: usize, e: usize) -> (sub: NegativeSliceMut<'_, T>)
        requires
            s <= e <= old(self).elems().len(),
        ensures
            sub.elems() == old(self).elems().subrange(s as int, e as int),
            final(self).elems() == old(self).elems().subrange(0, s as int) + final(sub.0)@
                + old(self).elems().subrange(e as int, old(self).elems().len() as int),
            final(final(self).0)@ == final(old(self).0)@,
    {
        let (front, back) = self.0.split_at_mut(s);
        let (middle, _rest) = back.split_at_mut(e - s);
        proof {
            assert(old(self).elems().subrange(s as int, old(self).elems().len() as int).subrange(
                (e - s) as int,
                (old(self).elems().len() - s) as int,
            ) =~= old(self).elems().subrange(e as int, old(self).elems().len() as int));
        }
        NegativeSliceMut(middle)
    }

    /// The elements from position `start` up to, not including, position `end`
    /// (`self[start..end]`), for writing.
    pub fn index_range_mut(&mut self, start: isize, end: isize) -> (sub: NegativeSliceMut<'_, T>)
        requires
            0 <= resolve(old(self).elems().len() as int, start as int) <= resolve(
                old(self).elems().len() as int,
                end as int,
            ) <= old(self).elems().len(),
        ensures
            sub.elems() == old(self).elems().subrange(
                resolve(old(self).elems().len() as int, start as int),
                resolve(old(self).elems().len() as int, end as int),
            ),
            final(self).elems() == old(self).elems().subrange(
                0,
                resolve(old(self).elems().len() as int, start as int),
            ) + final(sub.0)@ + old(self).elems().subrange(
                resolve(old(self).elems().len() as int, end as int),
                old(self).elems().len() as int,
            ),
            final(final(self).0)@ == final(old(self).0)@,
    {
        let s = resolve_index(self.0.len(), start).unwrap();
        let e = resolve_index(self.0.len(), end).unwrap();
        self.positions_mut(s, e)
    }

    /// The elements from position `start` to the end (`self[start..]`), for
    /// writing.
    pub fn index_range_from_mut(&mut self, start: isize) -> (sub: NegativeSliceMut<'_, T>)
        requires
            0 <= resolve(old(self).elems().len() as int, start as int) <= old(self).elems().len(),
        ensures
            sub.elems() == old(self).elems().subrange(
                resolve(old(self).elems().len() as int, start as int),
                old(self).elems().len() as int,
            ),
            final(self).elems() == old(self).elems().subrange(
                0,
                resolve(old(self).elems().len() as int, start as int),
            ) + final(sub.0)@,
            final(final(self).0)@ == final(old(self).0)@,
    {
        let s = resolve_index(self.0.len(), start).unwrap();
        let len = self.0.len();
        let sub = self.positions_mut(s, len);
        proof {
            assert(old(self).elems().subrange(len as int, len as int) =~= Seq::<T>::empty());
        }
        sub
    }

    /// The elements before position `end` (`self[..end]`), for writing.
    pub fn index_range_to_mut(&mut self, end: isize) -> (sub: NegativeSliceMut<'_, T>)
        requires
            0 <= resolve(old(self).elems().len() as int, end as int) <= old(self).elems().len(),
        ensures
            sub.elems() == old(self).elems().subrange(
                0,
                resolve(old(self).elems().len() as int, end as int),
            ),
            final(self).elems() == final(sub.0)@ + old(self).elems().subrange(
                resolve(old(self).elems().len() as int, end as int),
                old(self).elems().len() as int,
            ),
            final(final(self).0)@ == final(old(self).0)@,
    {
        let e = resolve_index(self.0.len(), end).unwrap();
        let sub = self.positions_mut(0, e);
        proof {
            assert(old(self).elems().subrange(0, 0) =~= Seq::<T>::empty());
        }
        sub
    }

    /// The elements up to and including position `end` (`self[..=end]`), for
    /// writing.
    pub fn index_range_to_inclusive_mut(&mut self, end: isize) -> (sub: NegativeSliceMut<'_, T>)
        requires
            0 <= resolve(old(self).elems().len() as int, end as int) < old(self).elems().len(),
        ensures
            sub.elems() == old(self).elems().subrange(
                0,
                resolve(old(self).elems().len() as int, end as int) + 1,
            ),
            final(self).elems() == final(sub.0)@ + old(self).elems().subrange(
                resolve(old(self).elems().len() as int, end as int) + 1,
                old(self).elems().len() as int,
            ),
            final(final(self).0)@ == final(old(self).0)@,
    {
        let e = resolve_index(self.0.len(), end).unwrap();
        let sub = self.positions_mut(0, e + 1);
        proof {
            assert(old(self).elems().subrange(0, 0) =~= Seq::<T>::empty());
        }
        sub
    }

    /// The elements from position `start` up to and including position `end`
    /// (`self[start..=end]`), for writing.
    pub fn index_range_inclusive_mut(&mut self, start: isize, end: isize) -> (sub: NegativeSliceMut<
        '_,
        T,
    >)
        requires
            0 <= resolve(old(self).elems().len() as int, start as int) <= resolve(
                old(self).elems().len() as int,
                end as int,
            ) + 1,
            0 <= resolve(old(self).elems().len() as int, end as int) < old(self).elems().len(),
        ensures
            sub.elems() == old(self).elems().subrange(
                resolve(old(self).elems().len() as int, start as int),
                resolve(old(self).elems().len() as int, end as int) + 1,
            ),
            final(self).elems() == old(self).elems().subrange(
                0,
                resolve(old(self).elems().len() as int, start as int),
            ) + final(sub.0)@ + old(self).elems().subrange(
                resolve(old(self).elems().len() as int, end as int) + 1,
                old(self).elems().len() as int,
            ),
            final(final(self).0)@ == final(old(self).0)@,
    {
        let s = resolve_index(self.0.len(), start).unwrap();
        let e = resolve_index(self.0.len(), end).unwrap();
        self.positions_mut(s, e + 1)
    }

    /// All the elements (`self[..]`), for writing.
    pub fn index_full_mut(&mut self) -> (sub: NegativeSliceMut<'_, T>)
        ensures
            sub.elems() == old(self).elems(),
            final(self).elems() == final(sub.0)@,
            final(final(self).0)@ == final(old(self).0)@,
    {
        NegativeSliceMut(&mut *self.0)
    }
}

} // verus!