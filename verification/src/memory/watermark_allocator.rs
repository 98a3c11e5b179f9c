//! A watermark frame allocator over the bootloader's memory map.
//!
//! The allocator hands out frames from the top of the last free area of the
//! memory map downwards. When the current area cannot hold a request, it
//! drops that area (and any non-free areas before it) from its view of the
//! map and carves the request from the top of the next free area below.
//! Frames are never given back.

use vstd::prelude::*;
use crate::memory::frame::{Frame, FRAME_SIZE, MemoryMapEntry, MemoryType};
use crate::memory::negative_slice::NegativeSlice;

verus! {

/// The request could not be served.
#[derive(Debug, Clone, Copy, PartialEq, Eq, Structural)]
pub struct AllocError;

/// The number of the frame that holds the byte just below `end`, counting
/// frames from address zero: the frame number of the end address rounded
/// down to a frame boundary.
pub open spec fn floor_frame(end: u64) -> int {
    end as int / FRAME_SIZE as int
}

/// The index of the last free entry among the first `k` entries of `m`, or
/// `-1` when there is none.
pub open spec fn last_free_below(m: Seq<MemoryMapEntry>, k: int) -> int
    decreases k,
{
    if k <= 0 {
        -1
    } else if m[k - 1].ty == MemoryType::Free {
        k - 1
    } else {
        last_free_below(m, k - 1)
    }
}

/// The index that [`last_free_below`] gives lies below `k` and names a free
/// entry, when there is one.
pub proof fn lemma_last_free_below(m: Seq<MemoryMapEntry>, k: int)
    requires
        0 <= k <= m.len(),
    ensures
        -1 <= last_free_below(m, k) < k,
        last_free_below(m, k) >= 0 ==> m[last_free_below(m, k)].ty == MemoryType::Free,
    decreases k,
{
    if k > 0 && m[k - 1].ty != MemoryType::Free {
        lemma_last_free_below(m, k - 1);
    }
}

/// Where a request for `n` frames lands when the allocator's view of the map
/// is `m.subrange(0, len)` and the candidate start frame is `test`: the
/// length of the view afterwards and the start frame handed out, if any.
///
/// The candidate is taken when it starts inside the last area of the view.
/// Otherwise the view is cut back to the next free area below, and the
/// candidate becomes the top `n` frames of that area; the request fails when
/// no free area is left or the area's top lies below frame `n`.
pub open spec fn place(m: Seq<MemoryMapEntry>, len: int, test: int, n: int) -> (int, Option<int>)
    decreases len,
{
    if len <= 0 {
        (len, None)
    } else if test * FRAME_SIZE >= m[len - 1].coverage.0.0 {
        (len, Some(test))
    } else {
        let j = last_free_below(m, len - 1);
        if len > m.len() {
            (len, None)
        } else if j < 0 {
            (0, None)
        } else if floor_frame(m[j].coverage.1.0) < n {
            (j + 1, None)
        } else {
            proof {
                lemma_last_free_below(m, len - 1);
            }
            place(m, j + 1, floor_frame(m[j].coverage.1.0) - n, n)
        }
    }
}

/// The outcome of a request for `n` frames when the allocator views the
/// areas `m` and its watermark is frame `prev`: the length that the view is
/// cut back to, and the start frame handed out, if any. The first candidate
/// is the `n` frames just below the watermark.
pub open spec fn allocation(m: Seq<MemoryMapEntry>, prev: int, n: int) -> (int, Option<int>) {
    if prev < n {
        (m.len() as int, None)
    } else {
        place(m, m.len() as int, prev - n, n)
    }
}

/// The last entry of a non-empty map view is free.
pub open spec fn ends_in_free(m: Seq<MemoryMapEntry>) -> bool {
    m.len() >= 1 ==> m.last().ty == MemoryType::Free
}

/// The watermark lies at or below the end of the last area of the view.
pub open spec fn watermark_in_area(m: Seq<MemoryMapEntry>, prev: int) -> bool {
    m.len() >= 1 ==> prev * FRAME_SIZE <= m.last().coverage.1.0
}

/// An address on a frame boundary is its frame number times the frame size.
proof fn lemma_frame_multiple(addr: u64)
    requires
        addr % FRAME_SIZE == 0,
    ensures
        (addr as int / FRAME_SIZE as int) * FRAME_SIZE == addr,
{
}

/// Rounding an address down to a frame boundary keeps its frame number.
proof fn lemma_round_down(addr: u64)
    ensures
        ((addr - addr % FRAME_SIZE) as int) / FRAME_SIZE as int == floor_frame(addr),
        (addr - addr % FRAME_SIZE) as int % FRAME_SIZE as int == 0,
{
}

/// A candidate whose frames end inside the last area of the view lands, if it
/// lands at all, inside a free area of the view, at or below the candidate.
proof fn lemma_place_in_free_area(m: Seq<MemoryMapEntry>, len: int, test: int, n: int)
    requires
        1 <= len <= m.len(),
        n >= 1,
        test >= 0,
        m[len - 1].ty == MemoryType::Free,
        (test + n) * FRAME_SIZE <= m[len - 1].coverage.1.0,
        place(m, len, test, n).1 is Some,
    ensures
        ({
            let (l, r) = place(m, len, test, n);
            let f = r.unwrap();
            &&& 1 <= l <= len
            &&& m[l - 1].ty == MemoryType::Free
            &&& m[l - 1].coverage.0.0 <= f * FRAME_SIZE
            &&& (f + n) * FRAME_SIZE <= m[l - 1].coverage.1.0
            &&& l == len ==> f == test
        }),
    decreases len,
{
    if test * FRAME_SIZE < m[len - 1].coverage.0.0 {
        let j = last_free_below(m, len - 1);
        lemma_last_free_below(m, len - 1);
        let top = floor_frame(m[j].coverage.1.0);
        assert(top * FRAME_SIZE <= m[j].coverage.1.0);
        lemma_place_in_free_area(m, j + 1, top - n, n);
    }
}

/// Every allocation lies inside a free area of the memory map: it starts at
/// or above the area's start and ends at or below the area's end. When it
/// comes from the area that was current, it ends exactly at the old
/// watermark. The allocator's state afterwards again ends in a free area
/// that holds the new watermark.
pub proof fn lemma_allocation_in_free_area(m: Seq<MemoryMapEntry>, prev: int, n: int)
    requires
        n >= 1,
        ends_in_free(m),
        watermark_in_area(m, prev),
        allocation(m, prev, n).1 is Some,
    ensures
        ({
            let (l, r) = allocation(m, prev, n);
            let f = r.unwrap();
            &&& 1 <= l <= m.len()
            &&& m[l - 1].ty == MemoryType::Free
            &&& m[l - 1].coverage.0.0 <= f * FRAME_SIZE
            &&& (f + n) * FRAME_SIZE <= m[l - 1].coverage.1.0
            &&& l == m.len() ==> f + n == prev
            &&& ends_in_free(m.subrange(0, l))
            &&& watermark_in_area(m.subrange(0, l), f)
        }),
{
    lemma_place_in_free_area(m, m.len() as int, prev - n, n);
}

/// Two allocations in a row never overlap: the second comes from the same
/// area, directly below the first, or from an area earlier in the map.
pub proof fn lemma_successive_allocations(m: Seq<MemoryMapEntry>, prev: int, n1: int, n2: int)
    requires
        n1 >= 1,
        n2 >= 1,
        ends_in_free(m),
        watermark_in_area(m, prev),
        allocation(m, prev, n1).1 is Some,
        allocation(
            m.subrange(0, allocation(m, prev, n1).0),
            allocation(m, prev, n1).1.unwrap(),
            n2,
        ).1 is Some,
    ensures
        ({
            let (l1, r1) = allocation(m, prev, n1);
            let (l2, r2) = allocation(m.subrange(0, l1), r1.unwrap(), n2);
            &&& l2 <= l1
            &&& l2 == l1 ==> r2.unwrap() + n2 == r1.unwrap()
        }),
{
    lemma_allocation_in_free_area(m, prev, n1);
    let (l1, r1) = allocation(m, prev, n1);
    lemma_allocation_in_free_area(m.subrange(0, l1), r1.unwrap(), n2);
}

/// The free areas of `m` lie in ascending order and do not overlap: each
/// ends at or before the next free one starts, and none ends before it
/// starts. Other entries may lie anywhere.
pub open spec fn free_areas_sorted(m: Seq<MemoryMapEntry>) -> bool {
    &&& forall|i: int|
        0 <= i < m.len() && m[i].ty == MemoryType::Free ==> #[trigger] m[i].coverage.0.0
            <= m[i].coverage.1.0
    &&& forall|i: int, j: int|
        0 <= i < j < m.len() && m[i].ty == MemoryType::Free && m[j].ty == MemoryType::Free
            ==> #[trigger] m[i].coverage.1.0 <= #[trigger] m[j].coverage.0.0
}

/// Every free area of the view below the current one ends at or below the
/// watermark `prev`.
pub open spec fn lower_areas_below(m: Seq<MemoryMapEntry>, prev: int) -> bool {
    forall|j: int|
        0 <= j < m.len() - 1 && m[j].ty == MemoryType::Free ==> #[trigger] floor_frame(
            m[j].coverage.1.0,
        ) <= prev
}

/// An address at or below the start of frame `f` lies in a frame at or
/// below `f`.
proof fn lemma_floor_below(addr: u64, f: int)
    requires
        addr <= f * FRAME_SIZE,
    ensures
        floor_frame(addr) <= f,
{
}

/// On a map with sorted free areas, a candidate that ends at or below
/// `bound`, in a view that ends in a free area and whose lower free areas
/// end at or below `bound` too, lands (if at all) at or below `bound`; the
/// new view again ends in a free area, and its lower free areas end at or
/// below the frame handed out.
proof fn lemma_place_below(m: Seq<MemoryMapEntry>, len: int, test: int, n: int, bound: int)
    requires
        0 <= len <= m.len(),
        n >= 1,
        test + n <= bound,
        free_areas_sorted(m),
        len >= 1 ==> m[len - 1].ty == MemoryType::Free,
        forall|j: int|
            0 <= j < len - 1 && m[j].ty == MemoryType::Free ==> #[trigger] floor_frame(
                m[j].coverage.1.0,
            ) <= bound,
    ensures
        ({
            let (l, r) = place(m, len, test, n);
            &&& 0 <= l <= len
            &&& (l >= 1 ==> m[l - 1].ty == MemoryType::Free)
            &&& (r matches Some(f) ==> f + n <= bound && forall|j: int|
                0 <= j < l - 1 && m[j].ty == MemoryType::Free ==> #[trigger] floor_frame(
                    m[j].coverage.1.0,
                ) <= f)
        }),
    decreases len,
{
    if len > 0 {
        if test * FRAME_SIZE >= m[len - 1].coverage.0.0 {
            assert forall|j: int|
                0 <= j < len - 1 && m[j].ty == MemoryType::Free implies #[trigger] floor_frame(
                m[j].coverage.1.0,
            ) <= test by {
                assert(m[j].coverage.1.0 <= m[len - 1].coverage.0.0);
                lemma_floor_below(m[j].coverage.1.0, test);
            }
        } else {
            let j = last_free_below(m, len - 1);
            lemma_last_free_below(m, len - 1);
            if j >= 0 && floor_frame(m[j].coverage.1.0) >= n {
                lemma_place_below(m, j + 1, floor_frame(m[j].coverage.1.0) - n, n, bound);
            }
        }
    }
}

/// The `n` frames from frame `g` on lie inside the free area `m[j]` and end
/// at or below frame `bound`.
pub open spec fn fits(m: Seq<MemoryMapEntry>, j: int, g: int, n: int, bound: int) -> bool {
    &&& 0 <= j < m.len()
    &&& m[j].ty == MemoryType::Free
    &&& g >= 0
    &&& m[j].coverage.0.0 <= g * FRAME_SIZE
    &&& (g + n) * FRAME_SIZE <= m[j].coverage.1.0
    &&& g + n <= bound
}

/// A run of frames that ends inside an area ends at or below the area's top
/// frame.
proof fn lemma_frames_below_top(g: int, addr: u64)
    requires
        g * FRAME_SIZE <= addr,
    ensures
        g <= floor_frame(addr),
{
}

/// `place` finds the highest run of `n` frames, below the candidate's end,
/// that fits in a free area of the view, and fails only when there is none.
proof fn lemma_place_highest(m: Seq<MemoryMapEntry>, len: int, test: int, n: int)
    requires
        1 <= len <= m.len(),
        n >= 1,
        test >= 0,
        free_areas_sorted(m),
        m[len - 1].ty == MemoryType::Free,
        (test + n) * FRAME_SIZE <= m[len - 1].coverage.1.0,
        forall|j: int|
            0 <= j < len - 1 && m[j].ty == MemoryType::Free ==> #[trigger] floor_frame(
                m[j].coverage.1.0,
            ) <= test + n,
    ensures
        ({
            let (l, r) = place(m, len, test, n);
            match r {
                Some(f) => fits(m, l - 1, f, n, test + n) && forall|j: int, g: int|
                    0 <= j < len && #[trigger] fits(m, j, g, n, test + n) ==> g <= f,
                None => forall|j: int, g: int| 0 <= j < len ==> !#[trigger] fits(m, j, g, n, test + n),
            }
        }),
    decreases len,
{
    let bound = test + n;
    if test * FRAME_SIZE >= m[len - 1].coverage.0.0 {
    } else {
        let j = last_free_below(m, len - 1);
        lemma_last_free_below(m, len - 1);
        lemma_last_free_none_between(m, len - 1);
        if j < 0 {
            assert forall|k: int, g: int| 0 <= k < len implies !#[trigger] fits(m, k, g, n, bound) by {
                if fits(m, k, g, n, bound) && k < len - 1 {
                    assert(last_free_below(m, len - 1) >= k);
                }
            }
        } else {
            let top = floor_frame(m[j].coverage.1.0);
            assert forall|k: int, g: int|
                0 <= k < len && #[trigger] fits(m, k, g, n, bound) implies k <= j && g + n <= top by {
                if k == len - 1 {
                } else {
                    assert(k <= j);
                    lemma_frames_below_top(g + n, m[k].coverage.1.0);
                    if k < j {
                        assert(m[k].coverage.1.0 <= m[j].coverage.0.0);
                    }
                    vstd::arithmetic::div_mod::lemma_div_is_ordered(
                        m[k].coverage.1.0 as int,
                        m[j].coverage.1.0 as int,
                        FRAME_SIZE as int,
                    );
                }
            }
            if top >= n {
                assert(top * FRAME_SIZE <= m[j].coverage.1.0);
                assert forall|k: int|
                    0 <= k < j + 1 - 1 && m[k].ty == MemoryType::Free implies #[trigger] floor_frame(
                    m[k].coverage.1.0,
                ) <= top - n + n by {
                    assert(m[k].coverage.1.0 <= m[j].coverage.0.0);
                    vstd::arithmetic::div_mod::lemma_div_is_ordered(
                        m[k].coverage.1.0 as int,
                        m[j].coverage.1.0 as int,
                        FRAME_SIZE as int,
                    );
                }
                lemma_place_highest(m, j + 1, top - n, n);
                assert forall|k: int, g: int|
                    0 <= k < len && #[trigger] fits(m, k, g, n, bound) implies fits(m, k, g, n, top) by {
                }
                let (l, r) = place(m, j + 1, top - n, n);
                if let Some(f) = r {
                    assert(top <= bound);
                    assert(fits(m, l - 1, f, n, bound));
                }
            }
        }
    }
}

/// Between the last free entry below `k` and `k`, no entry is free.
proof fn lemma_last_free_none_between(m: Seq<MemoryMapEntry>, k: int)
    requires
        0 <= k <= m.len(),
    ensures
        forall|i: int| last_free_below(m, k) < i < k ==> m[i].ty != MemoryType::Free,
    decreases k,
{
    if k > 0 && m[k - 1].ty != MemoryType::Free {
        lemma_last_free_none_between(m, k - 1);
    }
}

/// On a map whose free areas are sorted, with the watermark inside the
/// current free area and every lower free area ending at or below it, a
/// request for `n` frames is served by the highest run of `n` frames that
/// fits in a free area of the view below the watermark, and fails exactly
/// when no such run exists.
pub proof fn lemma_allocation_is_highest_fit(m: Seq<MemoryMapEntry>, prev: int, n: int)
    requires
        n >= 1,
        free_areas_sorted(m),
        ends_in_free(m),
        watermark_in_area(m, prev),
        lower_areas_below(m, prev),
    ensures
        ({
            let (l, r) = allocation(m, prev, n);
            match r {
                Some(f) => fits(m, l - 1, f, n, prev) && forall|j: int, g: int|
                    #[trigger] fits(m, j, g, n, prev) ==> g <= f,
                None => forall|j: int, g: int| !#[trigger] fits(m, j, g, n, prev),
            }
        }),
{
    if prev >= n && m.len() >= 1 {
        lemma_place_highest(m, m.len() as int, prev - n, n);
        assert(allocation(m, prev, n) == place(m, m.len() as int, prev - n, n));
        assert forall|j: int, g: int| #[trigger] fits(m, j, g, n, prev) implies 0 <= j < m.len()
            && fits(m, j, g, n, prev - n + n) by {
        }
    } else {
        assert(allocation(m, prev, n).1 is None);
        assert forall|j: int, g: int| !#[trigger] fits(m, j, g, n, prev) by {
        }
    }
}

/// One request against the view `m` with watermark `prev`: the view
/// afterwards, the watermark afterwards, and the frame handed out, if any.
pub open spec fn step(m: Seq<MemoryMapEntry>, prev: int, n: int) -> (Seq<MemoryMapEntry>, int, Option<int>) {
    let (l, r) = allocation(m, prev, n);
    (
        m.subrange(0, l),
        match r {
            Some(f) => f,
            None => prev,
        },
        r,
    )
}

/// What a run of requests for `reqs[0]`, `reqs[1]`, ... frames hands out,
/// one answer per request, starting from the view `m` and watermark `prev`.
pub open spec fn run(m: Seq<MemoryMapEntry>, prev: int, reqs: Seq<int>) -> Seq<Option<int>>
    decreases reqs.len(),
{
    if reqs.len() == 0 {
        Seq::empty()
    } else {
        let (m1, prev1, r) = step(m, prev, reqs[0]);
        seq![r] + run(m1, prev1, reqs.drop_first())
    }
}

proof fn lemma_run_below(m: Seq<MemoryMapEntry>, prev: int, reqs: Seq<int>)
    requires
        free_areas_sorted(m),
        ends_in_free(m),
        lower_areas_below(m, prev),
        forall|i: int| 0 <= i < reqs.len() ==> #[trigger] reqs[i] >= 1,
    ensures
        run(m, prev, reqs).len() == reqs.len(),
        forall|i: int|
            0 <= i < reqs.len() ==> (#[trigger] run(m, prev, reqs)[i] matches Some(f) ==> f + reqs[i]
                <= prev),
        forall|i: int, j: int|
            #![trigger run(m, prev, reqs)[i], run(m, prev, reqs)[j]]
            0 <= i < j < reqs.len() ==> (run(m, prev, reqs)[i] matches Some(fi) ==> (run(
                m,
                prev,
                reqs,
            )[j] matches Some(fj) ==> fj + reqs[j] <= fi)),
    decreases reqs.len(),
{
    if reqs.len() > 0 {
        let n = reqs[0];
        let (l, r) = allocation(m, prev, n);
        if prev >= n {
            lemma_place_below(m, m.len() as int, prev - n, n, prev);
        }
        let (m1, prev1, r0) = step(m, prev, n);
        let tail = reqs.drop_first();
        assert forall|i: int| 0 <= i < tail.len() implies #[trigger] tail[i] >= 1 by {
            assert(tail[i] == reqs[i + 1]);
        }
        assert(free_areas_sorted(m1)) by {
            assert forall|i: int, j: int|
                0 <= i < j < m1.len() && m1[i].ty == MemoryType::Free && m1[j].ty
                    == MemoryType::Free implies #[trigger] m1[i].coverage.1.0
                <= #[trigger] m1[j].coverage.0.0 by {
                assert(m1[i] == m[i] && m1[j] == m[j]);
            }
        }
        assert(ends_in_free(m1));
        assert(lower_areas_below(m1, prev1)) by {
            assert forall|j: int|
                0 <= j < m1.len() - 1 && m1[j].ty == MemoryType::Free implies #[trigger] floor_frame(
                m1[j].coverage.1.0,
            ) <= prev1 by {
                assert(m1[j] == m[j]);
            }
        }
        lemma_run_below(m1, prev1, tail);
        let rs = run(m, prev, reqs);
        let rt = run(m1, prev1, tail);
        assert(rs == seq![r0] + rt);
        assert forall|i: int| 0 <= i < reqs.len() implies (#[trigger] rs[i] matches Some(f) ==> f
            + reqs[i] <= prev) by {
            if i > 0 {
                assert(rs[i] == rt[i - 1]);
                assert(reqs[i] == tail[i - 1]);
            }
        }
        assert forall|i: int, j: int|
            #![trigger rs[i], rs[j]]
            0 <= i < j < reqs.len() implies (rs[i] matches Some(fi) ==> (
        rs[j] matches Some(fj) ==> fj + reqs[j] <= fi)) by {
            assert(rs[j] == rt[j - 1]);
            assert(reqs[j] == tail[j - 1]);
            if i > 0 {
                assert(rs[i] == rt[i - 1]);
                assert(reqs[i] == tail[i - 1]);
            }
        }
    }
}

/// On a memory map whose free areas are sorted and do not overlap, no frame
/// is ever handed out twice: over any run of requests, each later allocation
/// ends at or below the start of every earlier one. (On maps whose free
/// areas overlap or are out of order this does not hold.)
pub proof fn lemma_runs_never_overlap(m: Seq<MemoryMapEntry>, prev: int, reqs: Seq<int>)
    requires
        free_areas_sorted(m),
        ends_in_free(m),
        lower_areas_below(m, prev),
        forall|i: int| 0 <= i < reqs.len() ==> #[trigger] reqs[i] >= 1,
    ensures
        run(m, prev, reqs).len() == reqs.len(),
        forall|i: int, j: int|
            #![trigger run(m, prev, reqs)[i], run(m, prev, reqs)[j]]
            0 <= i < j < reqs.len() ==> (run(m, prev, reqs)[i] matches Some(fi) ==> (run(
                m,
                prev,
                reqs,
            )[j] matches Some(fj) ==> fj + reqs[j] <= fi)),
{
    lemma_run_below(m, prev, reqs);
}

/// The index of the last free entry of `entries`, if any.
pub fn last_free_index(entries: &[MemoryMapEntry]) -> (idx: Option<usize>)
    ensures
        last_free_below(entries@, entries@.len() as int) < 0 ==> idx is None,
        last_free_below(entries@, entries@.len() as int) >= 0 ==> idx == Some(
            last_free_below(entries@, entries@.len() as int) as usize,
        ),
{
    let mut k: usize = entries.len();
    while k > 0
        invariant
            k <= entries@.len(),
            last_free_below(entries@, entries@.len() as int) == last_free_below(entries@, k as int),
        decreases k,
    {
        if entries[k - 1].ty == MemoryType::Free {
            return Some(k - 1);
        }
        k = k - 1;
    }
    None
}

/// The allocator's state: the part of the memory map still in use, whose
/// last entry is the area currently allocated from, and the lowest frame
/// handed out from it so far (the watermark).
#[derive(Debug)]
pub struct WatermarkAllocatorInner<'mem_map> {
    mem_map: NegativeSlice<'mem_map, MemoryMapEntry>,
    prev_frame: Frame,
}

impl<'mem_map> WatermarkAllocatorInner<'mem_map> {
    /// The memory-map entries still in view.
    pub closed spec fn areas(&self) -> Seq<MemoryMapEntry> {
        self.mem_map@
    }

    /// The watermark: the number of the lowest frame handed out from the
    /// current area, or the frame at its top before the first allocation.
    pub closed spec fn watermark(&self) -> int {
        self.prev_frame.number()
    }

    /// The area currently allocated from.
    fn current_area(&self) -> (area: &'mem_map MemoryMapEntry)
        requires
            self.areas().len() >= 1,
        ensures
            *area == self.areas().last(),
    {
        self.mem_map.index(-1)
    }

    /// An allocator over `mem_map` that starts at the top of its last free
    /// area. The map must hold a free area.
    pub fn new(mem_map: &'mem_map [MemoryMapEntry]) -> (alloc: Self)
        requires
            last_free_below(mem_map@, mem_map@.len() as int) >= 0,
            mem_map@.len() <= isize::MAX,
        ensures
            alloc.areas() == mem_map@.subrange(0, last_free_below(mem_map@, mem_map@.len() as int) + 1),
            alloc.watermark() == floor_frame(
                mem_map@[last_free_below(mem_map@, mem_map@.len() as int)].coverage.1.0,
            ),
            ends_in_free(alloc.areas()),
            watermark_in_area(alloc.areas(), alloc.watermark()),
            free_areas_sorted(mem_map@) ==> free_areas_sorted(alloc.areas()) && lower_areas_below(
                alloc.areas(),
                alloc.watermark(),
            ),
    {
        proof {
            lemma_last_free_below(mem_map@, mem_map@.len() as int);
            let i = last_free_below(mem_map@, mem_map@.len() as int);
            if free_areas_sorted(mem_map@) {
                assert forall|j: int|
                    0 <= j < i && mem_map@[j].ty == MemoryType::Free implies #[trigger] floor_frame(
                    mem_map@[j].coverage.1.0,
                ) <= floor_frame(mem_map@[i].coverage.1.0) by {
                    assert(mem_map@[j].coverage.1.0 <= mem_map@[i].coverage.0.0);
                    assert(mem_map@[i].coverage.0.0 <= mem_map@[i].coverage.1.0);
                    vstd::arithmetic::div_mod::lemma_div_is_ordered(
                        mem_map@[j].coverage.1.0 as int,
                        mem_map@[i].coverage.1.0 as int,
                        FRAME_SIZE as int,
                    );
                }
            }
        }
        let last_free_section = last_free_index(mem_map).unwrap();
        let last_free_address = mem_map[last_free_section];
        let view = NegativeSlice::new(mem_map).index_range_to_inclusive(last_free_section as isize);
        let prev_frame = Frame::align_down(last_free_address.coverage.end());
        WatermarkAllocatorInner { mem_map: view, prev_frame }
    }

    /// The number of memory-map entries still in view.
    pub fn remaining_areas(&self) -> (n: usize)
        ensures
            n == self.areas().len(),
    {
        self.mem_map.len()
    }

    /// The watermark frame.
    pub fn prev_frame(&self) -> (f: Frame)
        ensures
            f.number() == self.watermark(),
    {
        self.prev_frame
    }

    /// Hands out `page_count` contiguous frames, returning the first. Only
    /// frame alignment (`alignment_log2 == 0`) is supported.
    ///
    /// The allocation is the one that [`allocation`] describes: the view of
    /// the memory map is cut back as it says, and on success the returned
    /// frame becomes the new watermark.
    pub fn allocate_contiguous(&mut self, page_count: usize, alignment_log2: usize) -> (res: Result<
        Frame,
        AllocError,
    >)
        requires
            alignment_log2 == 0,
            page_count >= 1,
            old(self).watermark() >= page_count ==> old(self).areas().len() >= 1,
        ensures
            final(self).areas() == old(self).areas().subrange(
                0,
                allocation(old(self).areas(), old(self).watermark(), page_count as int).0,
            ),
            match res {
                Ok(f) => {
                    &&& allocation(old(self).areas(), old(self).watermark(), page_count as int).1
                        == Some(f.number())
                    &&& final(self).watermark() == f.number()
                },
                Err(_) => {
                    &&& allocation(old(self).areas(), old(self).watermark(), page_count as int).1
                        is None
                    &&& final(self).watermark() == old(self).watermark()
                },
            },
    {
        let ghost m0 = self.mem_map@;
        let ghost n = page_count as int;
        let mut test_frame = match self.prev_frame.checked_sub(page_count) {
            Some(f) => f,
            None => {
                proof {
                    assert(m0.subrange(0, m0.len() as int) =~= m0);
                }
                return Err(AllocError);
            },
        };
        proof {
            assert(m0.subrange(0, m0.len() as int) =~= m0);
        }
        loop
            invariant
                self.mem_map@ == m0.subrange(0, self.mem_map@.len() as int),
                1 <= self.mem_map@.len() <= m0.len(),
                self.prev_frame == old(self).prev_frame,
                m0 == old(self).mem_map@,
                n == page_count,
                page_count >= 1,
                place(m0, self.mem_map@.len() as int, test_frame.number(), n) == allocation(
                    m0,
                    old(self).watermark(),
                    n,
                ),
            ensures
                allocation(m0, old(self).watermark(), n) == (
                    self.mem_map@.len() as int,
                    Some(test_frame.number()),
                ),
            decreases self.mem_map@.len(),
        {
            let start = test_frame.start();
            proof {
                lemma_frame_multiple(start.0);
            }
            if start.0 >= self.current_area().coverage.start().0 {
                break;
            } else {
                let ghost outer_len = self.mem_map@.len() as int;
                loop
                    invariant_except_break
                        last_free_below(m0, outer_len - 1) == last_free_below(
                            m0,
                            self.mem_map@.len() - 1,
                        ),
                    invariant
                        self.mem_map@ == m0.subrange(0, self.mem_map@.len() as int),
                        1 <= self.mem_map@.len() <= outer_len,
                        outer_len <= m0.len(),
                        self.prev_frame == old(self).prev_frame,
                        m0 == old(self).mem_map@,
                        n == page_count,
                        page_count >= 1,
                        test_frame.number() * FRAME_SIZE < m0[outer_len - 1].coverage.0.0,
                        place(m0, outer_len, test_frame.number(), n) == allocation(
                            m0,
                            old(self).watermark(),
                            n,
                        ),
                    ensures
                        last_free_below(m0, outer_len - 1) == self.mem_map@.len() - 1,
                        m0[self.mem_map@.len() - 1].ty == MemoryType::Free,
                    decreases self.mem_map@.len(),
                {
                    self.mem_map = self.mem_map.index_range_to(-1);
                    proof {
                        assert(self.mem_map@ =~= m0.subrange(0, self.mem_map@.len() as int));
                    }
                    if self.mem_map.len() == 0 {
                        proof {
                            assert(self.mem_map@ =~= m0.subrange(0, 0));
                        }
                        return Err(AllocError);
                    }
                    if self.current_area().ty == MemoryType::Free {
                        break;
                    }
                }
                let end_frame = Frame::align_down(self.current_area().end());
                proof {
                    lemma_round_down(self.mem_map@.last().coverage.1.0);
                    lemma_last_free_below(m0, outer_len - 1);
                }
                test_frame = match end_frame.checked_sub(page_count) {
                    Some(f) => f,
                    None => {
                        return Err(AllocError);
                    },
                };
            }
        }
        self.prev_frame = test_frame;
        Ok(test_frame)
    }
}

/// A watermark frame allocator; see [`WatermarkAllocatorInner`].
#[derive(Debug)]
pub struct WatermarkAllocator<'mem_map>(WatermarkAllocatorInner<'mem_map>);

impl<'mem_map> WatermarkAllocator<'mem_map> {
    /// The state of the underlying allocator.
    pub closed spec fn inner(&self) -> WatermarkAllocatorInner<'mem_map> {
        self.0
    }

    /// An allocator over `mem_map`; see [`WatermarkAllocatorInner::new`].
    pub fn new(mem_map: &'mem_map [MemoryMapEntry]) -> (alloc: Self)
        requires
            last_free_below(mem_map@, mem_map@.len() as int) >= 0,
            mem_map@.len() <= isize::MAX,
        ensures
            alloc.inner().areas() == mem_map@.subrange(
                0,
                last_free_below(mem_map@, mem_map@.len() as int) + 1,
            ),
            alloc.inner().watermark() == floor_frame(
                mem_map@[last_free_below(mem_map@, mem_map@.len() as int)].coverage.1.0,
            ),
    {
        WatermarkAllocator(WatermarkAllocatorInner::new(mem_map))
    }

    /// The underlying allocator, for inspection.
    pub fn get_inner(&self) -> (inner: &WatermarkAllocatorInner<'mem_map>)
        ensures
            *inner == self.inner(),
    {
        &self.0
    }

    /// Hands out `page_count` contiguous frames; see
    /// [`WatermarkAllocatorInner::allocate_contiguous`].
    pub fn allocate_contiguous(&mut self, page_count: usize, alignment_log2: usize) -> (res: Result<
        Frame,
        AllocError,
    >)
        requires
            alignment_log2 == 0,
            page_count >= 1,
            old(self).inner().watermark() >= page_count ==> old(self).inner().areas().len() >= 1,
        ensures
            final(self).inner().areas() == old(self).inner().areas().subrange(
                0,
                allocation(old(self).inner().areas(), old(self).inner().watermark(), page_count as int).0,
            ),
            match res {
                Ok(f) => {
                    &&& allocation(
                        old(self).inner().areas(),
                        old(self).inner().watermark(),
                        page_count as int,
                    ).1 == Some(f.number())
                    &&& final(self).inner().watermark() == f.number()
                },
                Err(_) => {
                    &&& allocation(
                        old(self).inner().areas(),
                        old(self).inner().watermark(),
                        page_count as int,
                    ).1 is None
                    &&& final(self).inner().watermark() == old(self).inner().watermark()
                },
            },
    {
        self.0.allocate_contiguous(page_count, alignment_log2)
    }
}

} // verus!
