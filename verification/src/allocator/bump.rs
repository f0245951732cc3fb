//! A bump allocator: it hands out memory by moving a pointer forward and
//! never reuses memory. Only the number of live allocations is tracked.
use vstd::prelude::*;

use crate::allocator::{align_up, align_up_spec};

verus! {

/// A simple bump allocator that allocates memory in a linear fashion.
pub struct BumpAllocator {
    heap_start: usize,
    heap_end: usize,
    next: usize,
    allocations: usize,
}

/// What `dump_free_list` reports: used bytes, total bytes and live allocations.
#[derive(Clone, Copy, Debug, PartialEq, Eq)]
pub struct BumpUsage {
    pub used: usize,
    pub total: usize,
    pub allocations: usize,
}

/// `a + b`, saturated at `usize::MAX`.
pub open spec fn saturating_add_spec(a: int, b: int) -> int {
    if a + b > usize::MAX {
        usize::MAX as int
    } else {
        a + b
    }
}

/// Where the bump allocator places `size` bytes aligned to `align` when its
/// pointer is at `next` and its heap ends at `end`; `None` if they do not fit.
pub open spec fn bump_fit(next: int, end: int, size: int, align: int) -> Option<int> {
    let s = align_up_spec(next, align);
    if s <= usize::MAX && saturating_add_spec(s, size) <= end {
        Some(s)
    } else {
        None
    }
}

/// Every allocation is aligned, lies in the heap above the pointer, and a
/// later allocation (from the pointer moved past this one) starts at or
/// after its end: bump allocations never overlap.
pub proof fn lemma_bump_allocations_disjoint(next: int, end: int, size1: int, align1: int, size2: int, align2: int)
    requires
        0 <= next,
        align1 > 0,
        align2 > 0,
        size1 >= 0,
        bump_fit(next, end, size1, align1) is Some,
    ensures
        ({
            let s1 = bump_fit(next, end, size1, align1)->0;
            let next1 = saturating_add_spec(s1, size1);
            &&& next <= s1
            &&& s1 % align1 == 0
            &&& next1 <= end
            &&& s1 + size1 <= usize::MAX ==> s1 + size1 == next1
            &&& bump_fit(next1, end, size2, align2) matches Some(s2) ==> next1 <= s2
        }),
{
    let s1 = align_up_spec(next, align1);
    crate::allocator::lemma_align_up_bounds(next, align1);
    let next1 = saturating_add_spec(s1, size1);
    crate::allocator::lemma_align_up_bounds(next1, align2);
}

/// Where a bump allocation goes, said without `align_up_spec`: the block
/// starts at the first multiple of `align` at or after the pointer; whenever
/// that block ends within the heap, the allocation succeeds there, and a
/// successful allocation always starts there and ends within the heap.
pub proof fn lemma_bump_fit_is_first_aligned_fit(next: int, end: int, size: int, align: int, s: int)
    requires
        0 <= next,
        end <= usize::MAX,
        size >= 0,
        align > 0,
    ensures
        s % align == 0 && next <= s < next + align && s + size <= end ==> bump_fit(next, end, size, align) == Some(s),
        bump_fit(next, end, size, align) == Some(s) ==> {
            &&& s % align == 0
            &&& next <= s < next + align
            &&& saturating_add_spec(s, size) <= end
        },
{
    crate::allocator::lemma_align_up_bounds(next, align);
    if s % align == 0 && next <= s < next + align && s + size <= end {
        crate::allocator::lemma_align_up_unique(next, align, s);
    }
}

impl BumpAllocator {
    pub closed spec fn start(&self) -> int {
        self.heap_start as int
    }

    pub closed spec fn end(&self) -> int {
        self.heap_end as int
    }

    /// The first address that has not been handed out yet.
    pub closed spec fn next_free(&self) -> int {
        self.next as int
    }

    pub closed spec fn allocation_count(&self) -> int {
        self.allocations as int
    }

    /// The allocator's pointer never leaves the heap, which lies in the address space.
    pub open spec fn wf(&self) -> bool {
        &&& 0 <= self.start() <= self.next_free() <= self.end() <= usize::MAX
        &&& 0 <= self.allocation_count() <= usize::MAX
    }

    /// Create a new empty bump allocator.
    pub fn new() -> (r: BumpAllocator)
        ensures
            r.wf(),
            r.start() == 0,
            r.end() == 0,
            r.next_free() == 0,
            r.allocation_count() == 0,
    {
        BumpAllocator { heap_start: 0, heap_end: 0, next: 0, allocations: 0 }
    }

    /// Initialize the bump allocator with the heap `[heap_start, heap_start + heap_size)`.
    pub fn init(&mut self, heap_start: usize, heap_size: usize)
        requires
            heap_start + heap_size <= usize::MAX,
        ensures
            final(self).wf(),
            final(self).start() == heap_start,
            final(self).end() == heap_start + heap_size,
            final(self).next_free() == heap_start,
            final(self).allocation_count() == 0,
    {
        self.heap_start = heap_start;
        self.heap_end = heap_start + heap_size;
        self.next = heap_start;
        self.allocations = 0;
    }

    /// Report the used and total heap bytes and the number of live allocations.
    pub fn dump_free_list(&self) -> (r: BumpUsage)
        requires
            self.wf(),
        ensures
            r.used == self.next_free() - self.start(),
            r.total == self.end() - self.start(),
            r.allocations == self.allocation_count(),
    {
        BumpUsage {
            used: self.next - self.heap_start,
            total: self.heap_end - self.heap_start,
            allocations: self.allocations,
        }
    }

    /// Allocate `size` bytes aligned to `align`.
    /// The block starts at the first multiple of `align` at or after the
    /// allocator's pointer; `None` (a null pointer) when it does not fit.
    pub fn allocate(&mut self, size: usize, align: usize) -> (r: Option<usize>)
        requires
            old(self).wf(),
            align > 0,
            old(self).allocation_count() < usize::MAX,
        ensures
            final(self).wf(),
            final(self).start() == old(self).start(),
            final(self).end() == old(self).end(),
            match bump_fit(old(self).next_free(), old(self).end(), size as int, align as int) {
                Some(s) => {
                    &&& r == Some(s as usize)
                    &&& final(self).next_free() == saturating_add_spec(s, size as int)
                    &&& final(self).allocation_count() == old(self).allocation_count() + 1
                },
                None => {
                    &&& r is None
                    &&& final(self).next_free() == old(self).next_free()
                    &&& final(self).allocation_count() == old(self).allocation_count()
                },
            },
    {
        match align_up(self.next, align) {
            Some(alloc_start) => {
                let alloc_end = alloc_start.saturating_add(size);
                if alloc_end <= self.heap_end {
                    proof {
                        crate::allocator::lemma_align_up_bounds(self.next as int, align as int);
                    }
                    self.next = alloc_end;
                    self.allocations = self.allocations + 1;
                    Some(alloc_start)
                } else {
                    None
                }
            },
            None => None,
        }
    }

    /// Deallocation frees nothing; only the count of live allocations drops.
    pub fn dealloc(&mut self, ptr: usize, size: usize, align: usize)
        requires
            old(self).wf(),
        ensures
            final(self).wf(),
            final(self).start() == old(self).start(),
            final(self).end() == old(self).end(),
            final(self).next_free() == old(self).next_free(),
            final(self).allocation_count() == if old(self).allocation_count() == 0 {
                0
            } else {
                old(self).allocation_count() - 1
            },
    {
        self.allocations = self.allocations.saturating_sub(1);
    }
}

} // verus!
