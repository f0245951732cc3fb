//! A heap allocator that keeps its free memory in a list of blocks, ordered
//! by address, and merges a freed block with its free neighbours.
use vstd::prelude::*;

use crate::allocator::{align_up, align_up_spec, lemma_align_up_bounds};
use crate::allocator::bump::saturating_add_spec;

verus! {

/// Size of a free-block header (a size and a link: two machine words).
/// A free block must be able to hold one.
pub const NODE_SIZE: usize = 16;

/// Alignment of a free-block header.
pub const NODE_ALIGN: usize = 8;

/// A free block of the heap: its start address and its size in bytes.
#[derive(Clone, Copy, Debug, PartialEq, Eq)]
pub struct ListNode {
    pub start: usize,
    pub size: usize,
}

impl ListNode {
    /// One past the last address of the block.
    pub open spec fn end(self) -> int {
        self.start + self.size
    }

    /// Create a free block of `size` bytes at `start`.
    pub fn new(start: usize, size: usize) -> (r: ListNode)
        ensures
            r.start == start,
            r.size == size,
    {
        ListNode { start, size }
    }

    /// Get the start address of the memory block.
    pub fn start_addr(&self) -> (r: usize)
        ensures
            r == self.start,
    {
        self.start
    }

    /// Get the end address of the memory block.
    pub fn end_addr(&self) -> (r: usize)
        requires
            self.end() <= usize::MAX,
        ensures
            r == self.end(),
    {
        self.start + self.size
    }
}

/// A well-formed free list: every block can hold a header and fits in the
/// address space, and the blocks are ordered by address with a gap between
/// any two of them (adjacent free blocks are always merged).
pub open spec fn list_wf(s: Seq<ListNode>) -> bool {
    &&& forall|i: int| 0 <= i < s.len() ==> #[trigger] s[i].size >= NODE_SIZE && s[i].end() <= usize::MAX
    &&& forall|i: int, j: int| 0 <= i < j < s.len() ==> #[trigger] s[i].end() < #[trigger] s[j].start
}

/// Address `a` lies in one of the blocks of `s`.
pub open spec fn covers(s: Seq<ListNode>, a: int) -> bool {
    exists|i: int| 0 <= i < s.len() && #[trigger] s[i].start <= a < s[i].end()
}

/// The range `[addr, addr + size)` shares no address with any block of `s`.
pub open spec fn disjoint_from(s: Seq<ListNode>, addr: int, size: int) -> bool {
    forall|i: int| 0 <= i < s.len() ==> addr + size <= #[trigger] s[i].start || s[i].end() <= addr
}

/// Where an allocation of `size` bytes aligned to `align` would start inside
/// block `n`: the first aligned address of the block, provided the allocation
/// fits and the space left behind it is either empty or large enough to hold
/// a free-block header.
pub open spec fn alloc_start_in(n: ListNode, size: usize, align: usize) -> Option<int> {
    let s = align_up_spec(n.start as int, align as int);
    let e = saturating_add_spec(s, size as int);
    if s > usize::MAX || e > n.end() {
        None
    } else if n.end() - e > 0 && n.end() - e < NODE_SIZE {
        None
    } else {
        Some(s)
    }
}

/// The list that `add_free_block` builds is well formed and covers exactly the
/// old free addresses and the added block.
proof fn lemma_add_block_result(
    s0: Seq<ListNode>,
    addr: int,
    size: int,
    idx: int,
    merge_next: bool,
    merge_prev: bool,
    s2: Seq<ListNode>,
)
    requires
        list_wf(s0),
        size >= NODE_SIZE,
        addr >= 0,
        addr + size <= usize::MAX,
        0 <= idx <= s0.len(),
        forall|i: int| 0 <= i < idx ==> #[trigger] s0[i].end() <= addr,
        forall|i: int| idx <= i < s0.len() ==> #[trigger] s0[i].start >= addr + size,
        merge_next == (idx < s0.len() && addr + size == s0[idx].start),
        merge_prev == (idx > 0 && s0[idx - 1].end() == addr),
        ({
            let s1 = if merge_next { s0.remove(idx) } else { s0 };
            let new_size = if merge_next { size + s0[idx].size } else { size };
            if merge_prev {
                s2 == s1.update(idx - 1, ListNode { start: s1[idx - 1].start, size: (s1[idx - 1].size + new_size) as usize })
            } else {
                s2 == s1.insert(idx, ListNode { start: addr as usize, size: new_size as usize })
            }
        }),
    ensures
        list_wf(s2),
        forall|a: int| #[trigger] covers(s2, a) <==> covers(s0, a) || addr <= a < addr + size,
        s0.len() - 1 <= s2.len() <= s0.len() + 1,
{
    let new_size = if merge_next { size + s0[idx].size } else { size };
    let lo = if merge_prev { idx - 1 } else { idx };
    let hi = if merge_next { idx + 1 } else { idx };
    let merged = ListNode {
        start: (if merge_prev { s0[idx - 1].start as int } else { addr }) as usize,
        size: (if merge_prev { s0[idx - 1].size + new_size } else { new_size }) as usize,
    };
    lemma_add_block_shape(s0, addr, size, idx, merge_next, merge_prev, s2, lo, hi, merged);
    lemma_replace_range_wf(s0, addr, size, idx, merge_next, merge_prev, s2, lo, hi, merged);
    lemma_replace_range_covers(s0, addr, size, idx, merge_next, merge_prev, s2, lo, hi, merged);
}

/// `s2` is `s0` with the blocks `lo..hi` replaced by the single block `merged`.
proof fn lemma_add_block_shape(
    s0: Seq<ListNode>,
    addr: int,
    size: int,
    idx: int,
    merge_next: bool,
    merge_prev: bool,
    s2: Seq<ListNode>,
    lo: int,
    hi: int,
    merged: ListNode,
)
    requires
        0 <= idx <= s0.len(),
        addr >= 0,
        addr + size <= usize::MAX,
        merge_next ==> idx < s0.len() && s0[idx].end() <= usize::MAX,
        merge_prev ==> idx > 0 && s0[idx - 1].end() == addr,
        merge_next ==> addr + size == s0[idx].start,
        ({
            let s1 = if merge_next { s0.remove(idx) } else { s0 };
            let new_size = if merge_next { size + s0[idx].size } else { size };
            if merge_prev {
                s2 == s1.update(idx - 1, ListNode { start: s1[idx - 1].start, size: (s1[idx - 1].size + new_size) as usize })
            } else {
                s2 == s1.insert(idx, ListNode { start: addr as usize, size: new_size as usize })
            }
        }),
        lo == if merge_prev { idx - 1 } else { idx },
        hi == if merge_next { idx + 1 } else { idx },
        merged == (ListNode {
            start: (if merge_prev { s0[idx - 1].start as int } else { addr }) as usize,
            size: (if merge_prev { s0[idx - 1].size + (if merge_next { size + s0[idx].size } else { size }) } else { if merge_next { size + s0[idx].size } else { size } }) as usize,
        }),
    ensures
        s2.len() == s0.len() - (hi - lo) + 1,
        s2[lo] == merged,
        forall|k: int| 0 <= k < lo ==> #[trigger] s2[k] == s0[k],
        forall|k: int| lo < k < s2.len() ==> #[trigger] s2[k] == s0[k + (hi - lo) - 1],
{
}

/// Replacing the blocks `lo..hi` by the merged block keeps the list well formed.
proof fn lemma_replace_range_wf(
    s0: Seq<ListNode>,
    addr: int,
    size: int,
    idx: int,
    merge_next: bool,
    merge_prev: bool,
    s2: Seq<ListNode>,
    lo: int,
    hi: int,
    merged: ListNode,
)
    requires
        list_wf(s0),
        size >= NODE_SIZE,
        addr >= 0,
        addr + size <= usize::MAX,
        0 <= idx <= s0.len(),
        forall|i: int| 0 <= i < idx ==> #[trigger] s0[i].end() <= addr,
        forall|i: int| idx <= i < s0.len() ==> #[trigger] s0[i].start >= addr + size,
        merge_next == (idx < s0.len() && addr + size == s0[idx].start),
        merge_prev == (idx > 0 && s0[idx - 1].end() == addr),
        lo == if merge_prev { idx - 1 } else { idx },
        hi == if merge_next { idx + 1 } else { idx },
        merged.start == if merge_prev { s0[idx - 1].start as int } else { addr },
        merged.end() == if merge_next { s0[idx].end() } else { addr + size },
        s2.len() == s0.len() - (hi - lo) + 1,
        s2[lo] == merged,
        forall|k: int| 0 <= k < lo ==> #[trigger] s2[k] == s0[k],
        forall|k: int| lo < k < s2.len() ==> #[trigger] s2[k] == s0[k + (hi - lo) - 1],
    ensures
        list_wf(s2),
{
    assert forall|i: int| 0 <= i < s2.len() implies #[trigger] s2[i].size >= NODE_SIZE && s2[i].end() <= usize::MAX by {
        if i > lo {
            assert(s2[i] == s0[i + (hi - lo) - 1]);
        } else if i < lo {
            assert(s2[i] == s0[i]);
        }
    }
    assert forall|i: int, j: int| 0 <= i < j < s2.len() implies #[trigger] s2[i].end() < #[trigger] s2[j].start by {
        if j < lo {
            assert(s2[i] == s0[i] && s2[j] == s0[j]);
            assert(s0[i].end() < s0[j].start);
            assert(s2[i].end() < s2[j].start);
        } else if j == lo {
            assert(s2[i] == s0[i]);
            if merge_prev {
                assert(s0[i].end() < s0[idx - 1].start);
            } else {
                assert(s0[i].end() <= addr);
                if i == idx - 1 {
                    assert(s0[i].end() != addr);
                }
                if i < idx - 1 {
                    assert(s0[i].end() < s0[idx - 1].start);
                    assert(s0[idx - 1].end() <= addr);
                }
            }
            assert(s2[i].end() < s2[j].start);
        } else if i == lo {
            let jj = j + (hi - lo) - 1;
            assert(s2[j] == s0[jj]);
            if merge_next {
                assert(jj > idx);
                assert(s0[idx].end() < s0[jj].start);
            } else {
                assert(jj >= idx);
                assert(s0[jj].start >= addr + size);
                if jj == idx {
                    assert(s0[jj].start != addr + size);
                } else {
                    assert(s0[idx].end() < s0[jj].start);
                    assert(s0[idx].start >= addr + size);
                }
            }
            assert(s2[i] == merged);
            assert(merged.end() < s0[jj].start);
            assert(s2[i].end() < s2[j].start);
        } else if i < lo {
            let jj = j + (hi - lo) - 1;
            assert(s2[i] == s0[i] && s2[j] == s0[jj]);
            assert(s0[i].end() < s0[jj].start);
            assert(s2[i].end() < s2[j].start);
        } else {
            let ii = i + (hi - lo) - 1;
            let jj = j + (hi - lo) - 1;
            assert(s2[i] == s0[ii] && s2[j] == s0[jj]);
            assert(s0[ii].end() < s0[jj].start);
            assert(s2[i].end() < s2[j].start);
        }
    }
}

/// Replacing the blocks `lo..hi` by the merged block adds exactly `[addr, addr + size)`.
proof fn lemma_replace_range_covers(
    s0: Seq<ListNode>,
    addr: int,
    size: int,
    idx: int,
    merge_next: bool,
    merge_prev: bool,
    s2: Seq<ListNode>,
    lo: int,
    hi: int,
    merged: ListNode,
)
    requires
        list_wf(s0),
        addr >= 0,
        size >= 0,
        0 <= idx <= s0.len(),
        merge_next ==> idx < s0.len() && addr + size == s0[idx].start,
        merge_prev ==> idx > 0 && s0[idx - 1].end() == addr,
        lo == if merge_prev { idx - 1 } else { idx },
        hi == if merge_next { idx + 1 } else { idx },
        merged.start == if merge_prev { s0[idx - 1].start as int } else { addr },
        merged.end() == if merge_next { s0[idx].end() } else { addr + size },
        s2.len() == s0.len() - (hi - lo) + 1,
        s2[lo] == merged,
        forall|k: int| 0 <= k < lo ==> #[trigger] s2[k] == s0[k],
        forall|k: int| lo < k < s2.len() ==> #[trigger] s2[k] == s0[k + (hi - lo) - 1],
    ensures
        forall|a: int| #[trigger] covers(s2, a) <==> covers(s0, a) || addr <= a < addr + size,
{
    assert forall|a: int| #[trigger] covers(s2, a) implies covers(s0, a) || addr <= a < addr + size by {
        let k = choose|k: int| 0 <= k < s2.len() && #[trigger] s2[k].start <= a < s2[k].end();
        if k < lo {
            assert(s2[k] == s0[k]);
            assert(s0[k].start <= a < s0[k].end());
        } else if k > lo {
            let kk = k + (hi - lo) - 1;
            assert(s2[k] == s0[kk]);
            assert(s0[kk].start <= a < s0[kk].end());
        } else {
            if a < addr {
                assert(s0[idx - 1].start <= a < s0[idx - 1].end());
            } else if a >= addr + size {
                assert(s0[idx].start <= a < s0[idx].end());
            }
        }
    }
    assert forall|a: int| covers(s0, a) || addr <= a < addr + size implies #[trigger] covers(s2, a) by {
        if addr <= a < addr + size {
            assert(s2[lo].start <= a < s2[lo].end());
        } else {
            let k = choose|k: int| 0 <= k < s0.len() && #[trigger] s0[k].start <= a < s0[k].end();
            if k < lo {
                assert(s2[k] == s0[k]);
                assert(s2[k].start <= a < s2[k].end());
            } else if k >= hi {
                let kk = k - (hi - lo) + 1;
                assert(s2[kk] == s0[k]);
                assert(s2[kk].start <= a < s2[kk].end());
            } else if merge_prev && k == idx - 1 {
                assert(s2[lo].start <= a < s2[lo].end());
            } else {
                assert(merge_next && k == idx);
                assert(s2[lo].start <= a < s2[lo].end());
            }
        }
    }
}

/// The larger of two sizes.
pub open spec fn max_usize(a: usize, b: usize) -> usize {
    if a < b { b } else { a }
}

/// The `(size, align)` that an allocation request of `size` and `align` is served with.
pub open spec fn request_size_align(size: usize, align: usize) -> (usize, usize) {
    let al = max_usize(align, NODE_ALIGN);
    let padded = align_up_spec(size as int, al as int);
    (if padded < NODE_SIZE { NODE_SIZE } else { padded as usize }, al)
}

/// An adjusted request can hold a free-block header once freed: it is at
/// least as large as the request and as a header, and at least as strictly
/// aligned as the request and as a header.
pub proof fn lemma_adjusted_request_holds_a_header(size: usize, align: usize)
    requires
        align > 0,
        align_up_spec(size as int, max_usize(align, NODE_ALIGN) as int) <= isize::MAX,
    ensures
        request_size_align(size, align).0 >= NODE_SIZE,
        request_size_align(size, align).0 >= size,
        request_size_align(size, align).1 >= NODE_ALIGN,
        request_size_align(size, align).1 >= align,
{
    lemma_align_up_bounds(size as int, max_usize(align, NODE_ALIGN) as int);
}

/// The adjusted request, said without `align_up_spec`: the alignment is at
/// least 8; the size is the request's size rounded up to a multiple of that
/// alignment (`p` below), but at least 16.
pub proof fn lemma_adjusted_request_exact(size: usize, align: usize, p: int)
    requires
        align > 0,
        align_up_spec(size as int, max_usize(align, NODE_ALIGN) as int) <= isize::MAX,
    ensures
        request_size_align(size, align).1 == (if align < 8 { 8 } else { align }),
        ({
            let al = request_size_align(size, align).1 as int;
            p % al == 0 && size <= p < size + al ==> request_size_align(size, align).0 == (if p < 16 { 16 } else { p })
        }),
{
    let al = max_usize(align, NODE_ALIGN) as int;
    if p % al == 0 && size <= p < size + al {
        crate::allocator::lemma_align_up_unique(size as int, al, p);
    }
}

/// `block` is the first block of `s0` that can serve the request, the
/// allocation starts at `start` inside it, and `s1` is `s0` without it.
pub open spec fn first_fit(s0: Seq<ListNode>, size: usize, align: usize, block: ListNode, start: int, s1: Seq<ListNode>) -> bool {
    exists|i: int|
        0 <= i < s0.len()
        && #[trigger] s0[i] == block
        && alloc_start_in(block, size, align) == Some(start)
        && s1 == s0.remove(i)
        && forall|j: int| 0 <= j < i ==> #[trigger] alloc_start_in(s0[j], size, align) is None
}

/// Removing a block keeps a free list well formed.
proof fn lemma_remove_wf(s: Seq<ListNode>, i: int)
    requires
        list_wf(s),
        0 <= i < s.len(),
    ensures
        list_wf(s.remove(i)),
        forall|a: int| #[trigger] covers(s.remove(i), a) <==> covers(s, a) && !(s[i].start <= a < s[i].end()),
{
    let r = s.remove(i);
    assert forall|k: int, l: int| 0 <= k < l < r.len() implies #[trigger] r[k].end() < #[trigger] r[l].start by {
        let kk = if k < i { k } else { k + 1 };
        let ll = if l < i { l } else { l + 1 };
        assert(r[k] == s[kk] && r[l] == s[ll]);
        assert(s[kk].end() < s[ll].start);
    }
    assert forall|k: int| 0 <= k < r.len() implies #[trigger] r[k].size >= NODE_SIZE && r[k].end() <= usize::MAX by {
        let kk = if k < i { k } else { k + 1 };
        assert(r[k] == s[kk]);
    }
    assert forall|a: int| #[trigger] covers(r, a) <==> covers(s, a) && !(s[i].start <= a < s[i].end()) by {
        if covers(r, a) {
            let k = choose|k: int| 0 <= k < r.len() && #[trigger] r[k].start <= a < r[k].end();
            let kk = if k < i { k } else { k + 1 };
            assert(r[k] == s[kk]);
            assert(s[kk].start <= a < s[kk].end());
            if kk < i {
                assert(s[kk].end() < s[i].start);
            } else {
                assert(s[i].end() < s[kk].start);
            }
        }
        if covers(s, a) && !(s[i].start <= a < s[i].end()) {
            let k = choose|k: int| 0 <= k < s.len() && #[trigger] s[k].start <= a < s[k].end();
            let kk = if k < i { k } else { k - 1 };
            assert(r[kk] == s[k]);
            assert(r[kk].start <= a < r[kk].end());
        }
    }
}

/// An allocation of `size` bytes aligned to `align` was served at `start` from
/// the first block of `s0` that can hold it: `s1` is `s0` without the addresses
/// from that block's start up to the allocation's end.
pub open spec fn allocated_from(s0: Seq<ListNode>, size: usize, align: usize, start: int, s1: Seq<ListNode>) -> bool {
    exists|i: int|
        0 <= i < s0.len()
        && #[trigger] alloc_start_in(s0[i], size, align) == Some(start)
        && (forall|j: int| 0 <= j < i ==> #[trigger] alloc_start_in(s0[j], size, align) is None)
        && (forall|a: int| #[trigger] covers(s1, a)
            <==> covers(s0, a) && !(s0[i].start <= a < saturating_add_spec(start, size as int)))
}

/// An allocation is served from free memory: it is aligned, every address of
/// it was free before, and none of them is free after.
pub proof fn lemma_allocation_from_free_memory(s0: Seq<ListNode>, s1: Seq<ListNode>, size: usize, align: usize, start: int)
    requires
        list_wf(s0),
        align > 0,
        allocated_from(s0, size, align, start, s1),
    ensures
        start % align as int == 0,
        forall|a: int| start <= a < saturating_add_spec(start, size as int) ==> covers(s0, a) && !#[trigger] covers(s1, a),
{
    let i = choose|i: int|
        0 <= i < s0.len()
        && #[trigger] alloc_start_in(s0[i], size, align) == Some(start)
        && (forall|j: int| 0 <= j < i ==> #[trigger] alloc_start_in(s0[j], size, align) is None)
        && (forall|a: int| #[trigger] covers(s1, a)
            <==> covers(s0, a) && !(s0[i].start <= a < saturating_add_spec(start, size as int)));
    lemma_align_up_bounds(s0[i].start as int, align as int);
    assert forall|a: int| start <= a < saturating_add_spec(start, size as int) implies covers(s0, a) && !#[trigger] covers(s1, a) by {
        assert(s0[i].start <= a < s0[i].end());
    }
}

/// An allocation is served from the lowest free block that can hold it: no
/// free block that ends before the allocation starts could have served it.
pub proof fn lemma_allocation_from_lowest_block(s0: Seq<ListNode>, s1: Seq<ListNode>, size: usize, align: usize, start: int)
    requires
        list_wf(s0),
        align > 0,
        allocated_from(s0, size, align, start, s1),
    ensures
        forall|k: int| 0 <= k < s0.len() && s0[k].end() < start ==> #[trigger] alloc_start_in(s0[k], size, align) is None,
{
    let i = choose|i: int|
        0 <= i < s0.len()
        && #[trigger] alloc_start_in(s0[i], size, align) == Some(start)
        && (forall|j: int| 0 <= j < i ==> #[trigger] alloc_start_in(s0[j], size, align) is None)
        && (forall|a: int| #[trigger] covers(s1, a)
            <==> covers(s0, a) && !(s0[i].start <= a < saturating_add_spec(start, size as int)));
    lemma_align_up_bounds(s0[i].start as int, align as int);
    assert forall|k: int| 0 <= k < s0.len() && s0[k].end() < start implies #[trigger] alloc_start_in(s0[k], size, align) is None by {
        if k > i {
            assert(s0[i].end() < s0[k].start);
        }
    }
}

/// Freeing a block right after it was allocated gives the memory back: every
/// address free after the round trip was free before, and of the addresses
/// free before only the alignment padding in front of the block stays in use.
pub proof fn lemma_free_after_allocation(
    s0: Seq<ListNode>,
    s1: Seq<ListNode>,
    s2: Seq<ListNode>,
    size: usize,
    align: usize,
    start: int,
)
    requires
        list_wf(s0),
        list_wf(s1),
        align > 0,
        allocated_from(s0, size, align, start, s1),
        size > 0,
        start + size <= usize::MAX,
        forall|a: int| #[trigger] covers(s2, a) <==> covers(s1, a) || start <= a < start + size,
    ensures
        disjoint_from(s1, start, size as int),
        forall|a: int| #[trigger] covers(s2, a) ==> covers(s0, a),
        forall|a: int| covers(s0, a) && !#[trigger] covers(s2, a) ==> start - align < a < start,
{
    let i = choose|i: int|
        0 <= i < s0.len()
        && #[trigger] alloc_start_in(s0[i], size, align) == Some(start)
        && (forall|j: int| 0 <= j < i ==> #[trigger] alloc_start_in(s0[j], size, align) is None)
        && (forall|a: int| #[trigger] covers(s1, a)
            <==> covers(s0, a) && !(s0[i].start <= a < saturating_add_spec(start, size as int)));
    lemma_align_up_bounds(s0[i].start as int, align as int);
    assert forall|k: int| 0 <= k < s1.len() implies start + size <= #[trigger] s1[k].start || s1[k].end() <= start by {
        if !(start + size <= s1[k].start || s1[k].end() <= start) {
            let a = if s1[k].start <= start { start } else { s1[k].start as int };
            assert(s1[k].start <= a < s1[k].end());
            assert(covers(s1, a));
            assert(s0[i].start <= a < saturating_add_spec(start, size as int));
        }
    }
    assert forall|a: int| #[trigger] covers(s2, a) implies covers(s0, a) by {
        if start <= a < start + size {
            assert(s0[i].start <= a < s0[i].end());
        }
    }
}

/// Freeing a block right after it was allocated from the very start of a
/// free block (no alignment padding) gives back exactly the old free list.
pub proof fn lemma_free_after_allocation_restores(
    s0: Seq<ListNode>,
    s1: Seq<ListNode>,
    s2: Seq<ListNode>,
    size: usize,
    align: usize,
    start: int,
)
    requires
        list_wf(s0),
        list_wf(s1),
        list_wf(s2),
        align > 0,
        allocated_from(s0, size, align, start, s1),
        size > 0,
        start + size <= usize::MAX,
        forall|a: int| #[trigger] covers(s2, a) <==> covers(s1, a) || start <= a < start + size,
        exists|k: int| 0 <= k < s0.len() && #[trigger] s0[k].start == start,
    ensures
        s2 == s0,
{
    lemma_free_after_allocation(s0, s1, s2, size, align, start);
    let i = choose|i: int|
        0 <= i < s0.len()
        && #[trigger] alloc_start_in(s0[i], size, align) == Some(start)
        && (forall|j: int| 0 <= j < i ==> #[trigger] alloc_start_in(s0[j], size, align) is None)
        && (forall|a: int| #[trigger] covers(s1, a)
            <==> covers(s0, a) && !(s0[i].start <= a < saturating_add_spec(start, size as int)));
    lemma_align_up_bounds(s0[i].start as int, align as int);
    let k = choose|k: int| 0 <= k < s0.len() && #[trigger] s0[k].start == start;
    if k < i {
        assert(s0[k].end() < s0[i].start);
    } else if k > i {
        assert(s0[i].end() < s0[k].start);
    }
    assert(s0[i].start == start);
    assert forall|a: int| #![trigger covers(s0, a)] #![trigger covers(s2, a)] covers(s0, a) <==> covers(s2, a) by {
        if covers(s0, a) && !(s0[i].start <= a < saturating_add_spec(start, size as int)) {
            assert(covers(s1, a));
        }
    }
    lemma_free_list_canonical(s0, s2);
}

/// A well-formed free list is determined by the addresses it covers: two
/// well-formed lists that cover the same addresses are the same list.
pub proof fn lemma_free_list_canonical(s1: Seq<ListNode>, s2: Seq<ListNode>)
    requires
        list_wf(s1),
        list_wf(s2),
        forall|a: int| #![trigger covers(s1, a)] #![trigger covers(s2, a)] covers(s1, a) <==> covers(s2, a),
    ensures
        s1 == s2,
    decreases s1.len(),
{
    if s1.len() == 0 {
        if s2.len() > 0 {
            assert(covers(s2, s2[0].start as int));
        }
        assert(s1 =~= s2);
    } else {
        if s2.len() == 0 {
            assert(covers(s1, s1[0].start as int));
        }
        lemma_first_block(s1, s2);
        lemma_first_block(s2, s1);
        assert(s1[0] == s2[0]);
        let r1 = s1.drop_first();
        let r2 = s2.drop_first();
        lemma_drop_first_covers(s1);
        lemma_drop_first_covers(s2);
        assert forall|a: int| #[trigger] covers(r1, a) <==> covers(r2, a) by {
            assert(covers(r1, a) <==> covers(s1, a) && !(s1[0].start <= a < s1[0].end()));
            assert(covers(r2, a) <==> covers(s2, a) && !(s2[0].start <= a < s2[0].end()));
        }
        lemma_free_list_canonical(r1, r2);
        assert(s1 =~= s2) by {
            assert forall|k: int| 0 <= k < s1.len() implies s1[k] == s2[k] by {
                if k > 0 {
                    assert(s1[k] == r1[k - 1] && s2[k] == r2[k - 1]);
                }
            }
        }
    }
}

/// When two well-formed lists cover the same addresses, the first block of
/// `s2` starts no later than that of `s1`, and ends no later if both start
/// at the same address.
proof fn lemma_first_block(s1: Seq<ListNode>, s2: Seq<ListNode>)
    requires
        list_wf(s1),
        list_wf(s2),
        s1.len() > 0,
        s2.len() > 0,
        forall|a: int| #![trigger covers(s1, a)] #![trigger covers(s2, a)] covers(s1, a) <==> covers(s2, a),
    ensures
        s2[0].start <= s1[0].start,
        s2[0].end() <= s1[0].end() || s2[0].start < s1[0].start,
{
    let a = s1[0].start as int;
    assert(covers(s1, a));
    let k = choose|k: int| 0 <= k < s2.len() && #[trigger] s2[k].start <= a < s2[k].end();
    if k > 0 {
        assert(s2[0].end() < s2[k].start);
    }
    if s2[0].start == s1[0].start && s1[0].end() < s2[0].end() {
        let e = s1[0].end();
        assert(s2[0].start <= e < s2[0].end());
        assert(covers(s2, e));
        let j = choose|j: int| 0 <= j < s1.len() && #[trigger] s1[j].start <= e < s1[j].end();
        if j > 0 {
            assert(s1[0].end() < s1[j].start);
        }
    }
}

/// Dropping the first block of a well-formed list uncovers exactly that block.
proof fn lemma_drop_first_covers(s: Seq<ListNode>)
    requires
        list_wf(s),
        s.len() > 0,
    ensures
        list_wf(s.drop_first()),
        forall|a: int| #[trigger] covers(s.drop_first(), a) <==> covers(s, a) && !(s[0].start <= a < s[0].end()),
{
    lemma_remove_wf(s, 0);
    assert(s.drop_first() =~= s.remove(0));
}

/// A range inside block `i` shares no address with the other blocks.
proof fn lemma_inside_block_disjoint(s: Seq<ListNode>, i: int, addr: int, size: int)
    requires
        list_wf(s),
        0 <= i < s.len(),
        s[i].start <= addr,
        addr + size <= s[i].end(),
    ensures
        disjoint_from(s.remove(i), addr, size),
{
    let r = s.remove(i);
    assert forall|k: int| 0 <= k < r.len() implies addr + size <= #[trigger] r[k].start || r[k].end() <= addr by {
        if k < i {
            assert(r[k] == s[k]);
            assert(s[k].end() < s[i].start);
        } else {
            assert(r[k] == s[k + 1]);
            assert(s[i].end() < s[k + 1].start);
        }
    }
}

/// Where an allocation goes inside a free block, said without
/// `align_up_spec`: at the first multiple of `align` at or after the block's
/// start. Whenever the allocation ends within the block and leaves behind it
/// either nothing or room for a header, it is served there; a block that
/// serves it always does so there, within the block.
pub proof fn lemma_alloc_start_is_first_aligned_fit(n: ListNode, size: usize, align: usize, s: int)
    requires
        align > 0,
        n.end() <= usize::MAX,
    ensures
        ({
            let rest = n.end() - (s + size);
            s % align as int == 0 && n.start <= s < n.start + align && s + size <= n.end()
                && (rest == 0 || rest >= NODE_SIZE) ==> alloc_start_in(n, size, align) == Some(s)
        }),
        alloc_start_in(n, size, align) == Some(s) ==> {
            let e = saturating_add_spec(s, size as int);
            &&& s % align as int == 0
            &&& n.start <= s < n.start + align
            &&& e <= n.end()
            &&& (n.end() - e == 0 || n.end() - e >= NODE_SIZE)
        },
{
    lemma_align_up_bounds(n.start as int, align as int);
    let rest = n.end() - (s + size);
    if s % align as int == 0 && n.start <= s < n.start + align && s + size <= n.end() && (rest == 0 || rest >= NODE_SIZE) {
        crate::allocator::lemma_align_up_unique(n.start as int, align as int, s);
    }
}

/// A linked list allocator that uses a free list to manage memory.
pub struct LinkedListAllocator {
    nodes: Vec<ListNode>,
    heap_start: usize,
    heap_end: usize,
}

/// What `dump_free_list` reports: the heap bounds and the free blocks in address order.
#[derive(Debug)]
pub struct FreeListReport {
    pub heap_start: usize,
    pub heap_end: usize,
    pub blocks: Vec<ListNode>,
}

impl View for LinkedListAllocator {
    type V = Seq<ListNode>;

    /// The free blocks, in address order.
    closed spec fn view(&self) -> Seq<ListNode> {
        self.nodes@
    }
}

impl LinkedListAllocator {
    pub closed spec fn start(&self) -> int {
        self.heap_start as int
    }

    pub closed spec fn end(&self) -> int {
        self.heap_end as int
    }

    /// The free list is well formed and the heap lies in the address space.
    pub open spec fn wf(&self) -> bool {
        &&& list_wf(self@)
        &&& 0 <= self.start() <= self.end() <= usize::MAX
    }

    /// Create a new empty linked list allocator.
    pub fn new() -> (r: LinkedListAllocator)
        ensures
            r.wf(),
            r@ == Seq::<ListNode>::empty(),
            r.start() == 0,
            r.end() == 0,
    {
        LinkedListAllocator { nodes: Vec::new(), heap_start: 0, heap_end: 0 }
    }

    /// Add the free block `[addr, addr + size)` to the list, at its place in
    /// address order, merging it with the free block right after it and the
    /// one right before it when they touch.
    pub fn add_free_block(&mut self, addr: usize, size: usize)
        requires
            old(self).wf(),
            size >= NODE_SIZE,
            addr + size <= usize::MAX,
            disjoint_from(old(self)@, addr as int, size as int),
        ensures
            final(self).wf(),
            final(self).start() == old(self).start(),
            final(self).end() == old(self).end(),
            forall|a: int| #[trigger] covers(final(self)@, a)
                <==> covers(old(self)@, a) || addr <= a < addr + size,
            old(self)@.len() - 1 <= final(self)@.len() <= old(self)@.len() + 1,
    {
        let ghost s0 = self.nodes@;
        let mut idx: usize = 0;
        while idx < self.nodes.len() && self.nodes[idx].start <= addr
            invariant
                self.nodes@ == s0,
                idx <= s0.len(),
                forall|i: int| 0 <= i < idx ==> #[trigger] s0[i].start <= addr,
            decreases s0.len() - idx,
        {
            idx = idx + 1;
        }
        proof {
            // Blocks before `idx` end at or before `addr`; those from `idx` on start at or after its end.
            assert forall|i: int| 0 <= i < idx implies #[trigger] s0[i].end() <= addr by {
                assert(addr + size <= s0[i].start || s0[i].end() <= addr);
            }
            assert forall|i: int| idx <= i < s0.len() implies #[trigger] s0[i].start >= addr + size by {
                if i > idx {
                    assert(s0[idx as int].end() < s0[i].start);
                }
                assert(addr + size <= s0[i].start || s0[i].end() <= addr);
            }
        }
        let merge_next = idx < self.nodes.len() && addr + size == self.nodes[idx].start;
        let mut new_size = size;
        if merge_next {
            new_size = size + self.nodes[idx].size;
            self.nodes.remove(idx);
        }
        let ghost s1 = self.nodes@;
        proof {
            if merge_next {
                assert(s1 == s0.remove(idx as int));
            } else {
                assert(s1 == s0);
            }
        }
        let merge_prev = idx > 0 && self.nodes[idx - 1].start + self.nodes[idx - 1].size == addr;
        if merge_prev {
            let prev = self.nodes[idx - 1];
            self.nodes.set(idx - 1, ListNode { start: prev.start, size: prev.size + new_size });
        } else {
            self.nodes.insert(idx, ListNode { start: addr, size: new_size });
        }
        proof {
            let s2 = self.nodes@;
            lemma_add_block_result(s0, addr as int, size as int, idx as int, merge_next, merge_prev, s2);
        }
    }

    /// Initialize the allocator with the heap `[heap_start, heap_start + heap_size)`,
    /// which becomes free memory.
    pub fn init(&mut self, heap_start: usize, heap_size: usize)
        requires
            old(self).wf(),
            heap_size >= NODE_SIZE,
            heap_start + heap_size <= usize::MAX,
            disjoint_from(old(self)@, heap_start as int, heap_size as int),
        ensures
            final(self).wf(),
            final(self).start() == heap_start,
            final(self).end() == heap_start + heap_size,
            forall|a: int| #[trigger] covers(final(self)@, a)
                <==> covers(old(self)@, a) || heap_start <= a < heap_start + heap_size,
    {
        self.heap_start = heap_start;
        self.heap_end = heap_start + heap_size;
        self.add_free_block(heap_start, heap_size);
    }

    /// Check if the given block is large enough for an allocation with `size` and `align`.
    /// On success, returns where the allocation starts.
    pub fn check_block_for_alloc(block: &ListNode, size: usize, align: usize) -> (r: Result<usize, ()>)
        requires
            align > 0,
            block.end() <= usize::MAX,
        ensures
            match r {
                Ok(s) => alloc_start_in(*block, size, align) == Some(s as int),
                Err(_) => alloc_start_in(*block, size, align) is None,
            },
    {
        let alloc_start = match align_up(block.start_addr(), align) {
            Some(a) => a,
            None => return Err(()),
        };
        let alloc_end = alloc_start.saturating_add(size);
        if alloc_end > block.end_addr() {
            return Err(());
        }
        let excess_size = block.end_addr() - alloc_end;
        if excess_size > 0 && excess_size < NODE_SIZE {
            return Err(());
        }
        Ok(alloc_start)
    }

    /// Search the first free block that can hold an allocation with `size` and
    /// `align`, remove it from the list and return it with the allocation's start.
    pub fn find_free_block(&mut self, size: usize, align: usize) -> (r: Option<(ListNode, usize)>)
        requires
            old(self).wf(),
            align > 0,
        ensures
            final(self).wf(),
            final(self).start() == old(self).start(),
            final(self).end() == old(self).end(),
            r is None ==> final(self)@ == old(self)@,
            r is None ==> forall|i: int| 0 <= i < old(self)@.len() ==> #[trigger] alloc_start_in(old(self)@[i], size, align) is None,
            r matches Some((block, s)) ==> first_fit(old(self)@, size, align, block, s as int, final(self)@),
    {
        let ghost s0 = self.nodes@;
        let mut i: usize = 0;
        while i < self.nodes.len()
            invariant
                self.nodes@ == s0,
                old(self)@ == s0,
                old(self).wf(),
                self.heap_start == old(self).heap_start,
                self.heap_end == old(self).heap_end,
                list_wf(s0),
                align > 0,
                i <= s0.len(),
                forall|j: int| 0 <= j < i ==> #[trigger] alloc_start_in(s0[j], size, align) is None,
            decreases s0.len() - i,
        {
            let block = self.nodes[i];
            match Self::check_block_for_alloc(&block, size, align) {
                Ok(alloc_start) => {
                    let removed = self.nodes.remove(i);
                    proof {
                        lemma_remove_wf(s0, i as int);
                        assert(first_fit(s0, size, align, removed, alloc_start as int, self.nodes@));
                    }
                    return Some((removed, alloc_start));
                },
                Err(_) => {},
            }
            i = i + 1;
        }
        None
    }

    /// The request can be adjusted (see `size_align`): its size, rounded up
    /// to the adjusted alignment, stays within `isize::MAX`.
    pub fn can_adjust(size: usize, align: usize) -> (r: bool)
        requires
            align > 0,
        ensures
            r == (align_up_spec(size as int, max_usize(align, NODE_ALIGN) as int) <= isize::MAX),
    {
        let new_align = if align < NODE_ALIGN { NODE_ALIGN } else { align };
        match align_up(size, new_align) {
            Some(p) => p <= isize::MAX as usize,
            None => false,
        }
    }

    /// Adjust an allocation request so that the allocated block is also
    /// capable of storing a free-block header: the alignment becomes at least
    /// the header's, the size is padded to a multiple of it and is at least
    /// the header's size. Returns the adjusted `(size, align)`.
    pub fn size_align(size: usize, align: usize) -> (r: (usize, usize))
        requires
            align > 0,
            align_up_spec(size as int, max_usize(align, NODE_ALIGN) as int) <= isize::MAX,
        ensures
            r == request_size_align(size, align),
    {
        let new_align = if align < NODE_ALIGN { NODE_ALIGN } else { align };
        let padded = match align_up(size, new_align) {
            Some(p) => p,
            None => 0,
        };
        let new_size = if padded < NODE_SIZE { NODE_SIZE } else { padded };
        (new_size, new_align)
    }

    /// Allocate `size` bytes aligned to `align` from the first free block that
    /// can hold the adjusted request (see `size_align`). The part of the block
    /// behind the allocation goes back to the free list; the part before the
    /// aligned start is not reused. `None` stands for a null pointer.
    pub fn allocate(&mut self, size: usize, align: usize) -> (r: Option<usize>)
        requires
            old(self).wf(),
            align > 0,
            align_up_spec(size as int, max_usize(align, NODE_ALIGN) as int) <= isize::MAX,
        ensures
            final(self).wf(),
            final(self).start() == old(self).start(),
            final(self).end() == old(self).end(),
            ({
                let (sz, al) = request_size_align(size, align);
                &&& r is None <==> forall|i: int| 0 <= i < old(self)@.len() ==> #[trigger] alloc_start_in(old(self)@[i], sz, al) is None
                &&& r is None ==> final(self)@ == old(self)@
                &&& r matches Some(s) ==> allocated_from(old(self)@, sz, al, s as int, final(self)@)
            }),
    {
        let (size, align) = Self::size_align(size, align);
        match self.find_free_block(size, align) {
            Some((block, alloc_start)) => {
                let ghost s0 = old(self)@;
                let ghost s1 = self.nodes@;
                let ghost i = choose|i: int|
                    0 <= i < s0.len()
                    && #[trigger] s0[i] == block
                    && alloc_start_in(block, size, align) == Some(alloc_start as int)
                    && s1 == s0.remove(i)
                    && forall|j: int| 0 <= j < i ==> #[trigger] alloc_start_in(s0[j], size, align) is None;
                proof {
                    lemma_remove_wf(s0, i);
                    lemma_align_up_bounds(block.start as int, align as int);
                }
                let alloc_end = alloc_start.saturating_add(size);
                let excess_size = block.end_addr() - alloc_end;
                if excess_size > 0 {
                    proof {
                        lemma_inside_block_disjoint(s0, i, alloc_end as int, excess_size as int);
                    }
                    self.add_free_block(alloc_end, excess_size);
                }
                proof {
                    let s2 = self.nodes@;
                    assert forall|a: int| #[trigger] covers(s2, a)
                        <==> covers(s0, a) && !(block.start <= a < alloc_end) by {
                        if alloc_end <= a < block.end() {
                            assert(s0[i].start <= a < s0[i].end());
                        }
                    }
                    assert(allocated_from(s0, size, align, alloc_start as int, s2));
                }
                Some(alloc_start)
            },
            None => None,
        }
    }

    /// Free the block at `ptr` that was allocated with `size` and `align`: the
    /// adjusted block (see `size_align`) goes back to the free list.
    pub fn dealloc(&mut self, ptr: usize, size: usize, align: usize)
        requires
            old(self).wf(),
            align > 0,
            align_up_spec(size as int, max_usize(align, NODE_ALIGN) as int) <= isize::MAX,
            ptr + request_size_align(size, align).0 <= usize::MAX,
            disjoint_from(old(self)@, ptr as int, request_size_align(size, align).0 as int),
        ensures
            final(self).wf(),
            final(self).start() == old(self).start(),
            final(self).end() == old(self).end(),
            forall|a: int| #[trigger] covers(final(self)@, a)
                <==> covers(old(self)@, a) || ptr <= a < ptr + request_size_align(size, align).0,
    {
        let (size, _) = Self::size_align(size, align);
        self.add_free_block(ptr, size);
    }

    /// Report the heap bounds and the free blocks.
    pub fn dump_free_list(&self) -> (r: FreeListReport)
        ensures
            r.heap_start == self.start(),
            r.heap_end == self.end(),
            r.blocks@ == self@,
    {
        FreeListReport { heap_start: self.heap_start, heap_end: self.heap_end, blocks: self.nodes.clone() }
    }
}

} // verus!
