use heineos::allocator::align_up;
use heineos::allocator::bump::{BumpAllocator, BumpUsage};
use heineos::allocator::list::{LinkedListAllocator, ListNode, NODE_SIZE};

fn blocks(a: &LinkedListAllocator) -> Vec<(usize, usize)> {
    a.dump_free_list().blocks.iter().map(|n| (n.start, n.size)).collect()
}

#[test]
fn align_up_rounds_to_multiples() {
    assert_eq!(align_up(5, 8), Some(8));
    assert_eq!(align_up(16, 8), Some(16));
    assert_eq!(align_up(0, 4), Some(0));
    assert_eq!(align_up(17, 3), Some(18));
    assert_eq!(align_up(usize::MAX, 2), None);
    assert_eq!(align_up(usize::MAX - 1, 2), Some(usize::MAX - 1));
}

#[test]
fn bump_new_is_empty() {
    let b = BumpAllocator::new();
    assert_eq!(b.dump_free_list(), BumpUsage { used: 0, total: 0, allocations: 0 });
}

#[test]
fn bump_allocates_aligned_and_in_order() {
    let mut b = BumpAllocator::new();
    b.init(0x1000, 0x100);
    assert_eq!(b.allocate(10, 8), Some(0x1000));
    assert_eq!(b.allocate(4, 16), Some(0x1010));
    assert_eq!(b.dump_free_list(), BumpUsage { used: 0x14, total: 0x100, allocations: 2 });
}

#[test]
fn bump_allocations_never_overlap() {
    let mut b = BumpAllocator::new();
    b.init(0x2000, 0x1000);
    let sizes = [(3usize, 1usize), (7, 4), (100, 64), (1, 1), (33, 32)];
    let mut previous_end = 0x2000;
    for (size, align) in sizes {
        let start = b.allocate(size, align).unwrap();
        assert!(start >= previous_end);
        assert_eq!(start % align, 0);
        previous_end = start + size;
    }
    assert!(previous_end <= 0x3000);
}

#[test]
fn bump_out_of_memory_is_null() {
    let mut b = BumpAllocator::new();
    b.init(0x1000, 0x100);
    assert_eq!(b.allocate(0x100, 1), Some(0x1000));
    assert_eq!(b.allocate(1, 1), None);
    assert_eq!(b.dump_free_list(), BumpUsage { used: 0x100, total: 0x100, allocations: 1 });
}

#[test]
fn bump_alignment_beyond_address_space_is_null() {
    let mut b = BumpAllocator::new();
    b.init(usize::MAX - 10, 10);
    assert_eq!(b.allocate(1, 16), None);
    assert_eq!(b.allocate(1, 1), Some(usize::MAX - 10));
}

#[test]
fn bump_dealloc_only_counts() {
    let mut b = BumpAllocator::new();
    b.init(0x1000, 0x100);
    let p = b.allocate(8, 8).unwrap();
    b.dealloc(p, 8, 8);
    assert_eq!(b.dump_free_list(), BumpUsage { used: 8, total: 0x100, allocations: 0 });
    b.dealloc(p, 8, 8);
    assert_eq!(b.dump_free_list().allocations, 0);
    assert_eq!(b.allocate(8, 8), Some(0x1008));
}

#[test]
fn list_node_addresses() {
    let n = ListNode::new(0x1000, 0x40);
    assert_eq!(n.start_addr(), 0x1000);
    assert_eq!(n.end_addr(), 0x1040);
}

#[test]
fn list_new_and_init() {
    let mut a = LinkedListAllocator::new();
    assert!(blocks(&a).is_empty());
    a.init(0x1000, 0x1000);
    let report = a.dump_free_list();
    assert_eq!(report.heap_start, 0x1000);
    assert_eq!(report.heap_end, 0x2000);
    assert_eq!(blocks(&a), vec![(0x1000, 0x1000)]);
}

#[test]
fn list_size_align_fits_a_header() {
    assert_eq!(LinkedListAllocator::size_align(1, 1), (16, 8));
    assert_eq!(LinkedListAllocator::size_align(0, 1), (16, 8));
    assert_eq!(LinkedListAllocator::size_align(20, 4), (24, 8));
    assert_eq!(LinkedListAllocator::size_align(20, 32), (32, 32));
    assert_eq!(LinkedListAllocator::size_align(8, 64), (64, 64));
    assert_eq!(NODE_SIZE, 16);
}

#[test]
fn list_check_block_cases() {
    let block = ListNode::new(0x1000, 32);
    assert_eq!(LinkedListAllocator::check_block_for_alloc(&block, 24, 8), Err(()));
    assert_eq!(LinkedListAllocator::check_block_for_alloc(&block, 16, 8), Ok(0x1000));
    assert_eq!(LinkedListAllocator::check_block_for_alloc(&block, 32, 8), Ok(0x1000));
    assert_eq!(LinkedListAllocator::check_block_for_alloc(&block, 40, 8), Err(()));
    let unaligned = ListNode::new(0x1008, 0x40);
    assert_eq!(LinkedListAllocator::check_block_for_alloc(&unaligned, 16, 16), Ok(0x1010));
    let top = ListNode::new(usize::MAX - 31, 31);
    assert_eq!(LinkedListAllocator::check_block_for_alloc(&top, 16, 64), Err(()));
}

#[test]
fn list_allocate_splits_and_loses_padding() {
    let mut a = LinkedListAllocator::new();
    a.init(0x1000, 0x1000);
    assert_eq!(a.allocate(20, 4), Some(0x1000));
    assert_eq!(blocks(&a), vec![(0x1018, 0xFE8)]);
    assert_eq!(a.allocate(8, 64), Some(0x1040));
    assert_eq!(blocks(&a), vec![(0x1080, 0xF80)]);
    a.dealloc(0x1000, 20, 4);
    assert_eq!(blocks(&a), vec![(0x1000, 0x18), (0x1080, 0xF80)]);
    a.dealloc(0x1040, 8, 64);
    assert_eq!(blocks(&a), vec![(0x1000, 0x18), (0x1040, 0xFC0)]);
}

#[test]
fn list_dealloc_merges_with_both_neighbours() {
    let mut a = LinkedListAllocator::new();
    a.init(0x1000, 0x100);
    assert_eq!(a.allocate(16, 8), Some(0x1000));
    assert_eq!(a.allocate(16, 8), Some(0x1010));
    assert_eq!(a.allocate(16, 8), Some(0x1020));
    assert_eq!(blocks(&a), vec![(0x1030, 0xD0)]);
    a.dealloc(0x1000, 16, 8);
    assert_eq!(blocks(&a), vec![(0x1000, 0x10), (0x1030, 0xD0)]);
    a.dealloc(0x1020, 16, 8);
    assert_eq!(blocks(&a), vec![(0x1000, 0x10), (0x1020, 0xE0)]);
    a.dealloc(0x1010, 16, 8);
    assert_eq!(blocks(&a), vec![(0x1000, 0x100)]);
}

#[test]
fn list_allocate_takes_the_first_fit() {
    let mut a = LinkedListAllocator::new();
    a.init(0x1000, 0x100);
    assert_eq!(a.allocate(16, 8), Some(0x1000));
    assert_eq!(a.allocate(16, 8), Some(0x1010));
    a.dealloc(0x1000, 16, 8);
    assert_eq!(blocks(&a), vec![(0x1000, 0x10), (0x1020, 0xE0)]);
    assert_eq!(a.allocate(32, 8), Some(0x1020));
    assert_eq!(blocks(&a), vec![(0x1000, 0x10), (0x1040, 0xC0)]);
    assert_eq!(a.allocate(16, 8), Some(0x1000));
    assert_eq!(blocks(&a), vec![(0x1040, 0xC0)]);
}

#[test]
fn list_allocation_failure_leaves_the_list() {
    let mut a = LinkedListAllocator::new();
    a.init(0x1000, 0x100);
    assert_eq!(a.allocate(0x1000, 8), None);
    assert_eq!(blocks(&a), vec![(0x1000, 0x100)]);
    assert_eq!(a.allocate(0xF8, 8), None);
    assert_eq!(a.allocate(0x100, 8), Some(0x1000));
    assert!(blocks(&a).is_empty());
    assert_eq!(a.allocate(16, 8), None);
}

#[test]
fn list_find_free_block_removes_it() {
    let mut a = LinkedListAllocator::new();
    a.init(0x1000, 0x100);
    let (block, start) = a.find_free_block(0x40, 0x40).unwrap();
    assert_eq!(block, ListNode::new(0x1000, 0x100));
    assert_eq!(start, 0x1000);
    assert!(blocks(&a).is_empty());
    assert_eq!(a.find_free_block(16, 8), None);
}

#[test]
fn list_add_free_block_keeps_address_order() {
    let mut a = LinkedListAllocator::new();
    a.add_free_block(0x3000, 0x100);
    a.add_free_block(0x1000, 0x100);
    a.add_free_block(0x2000, 0x100);
    assert_eq!(blocks(&a), vec![(0x1000, 0x100), (0x2000, 0x100), (0x3000, 0x100)]);
    a.add_free_block(0x1100, 0xF00);
    assert_eq!(blocks(&a), vec![(0x1000, 0x1100), (0x3000, 0x100)]);
}

#[test]
fn list_round_trip_gives_memory_back() {
    let mut a = LinkedListAllocator::new();
    a.init(0x1008, 0x200);
    let p = a.allocate(48, 32).unwrap();
    assert_eq!(p, 0x1020);
    assert_eq!(blocks(&a), vec![(0x1060, 0x1A8)]);
    a.dealloc(p, 48, 32);
    // Only the alignment padding in front of the block stays in use.
    assert_eq!(blocks(&a), vec![(0x1020, 0x1E8)]);
}

#[test]
fn list_request_adjustment_limits() {
    assert!(LinkedListAllocator::can_adjust(16, 8));
    assert!(LinkedListAllocator::can_adjust(isize::MAX as usize - 7, 8));
    assert!(!LinkedListAllocator::can_adjust(isize::MAX as usize, 1));
    assert!(!LinkedListAllocator::can_adjust(usize::MAX, 8));
}

#[test]
fn list_round_trip_without_padding_restores_the_list() {
    let mut a = LinkedListAllocator::new();
    a.init(0x1000, 0x1000);
    a.add_free_block(0x3000, 0x100);
    let before = blocks(&a);
    let p = a.allocate(20, 4).unwrap();
    assert_eq!(p, 0x1000);
    a.dealloc(p, 20, 4);
    assert_eq!(blocks(&a), before);
}

#[test]
fn list_add_free_block_changes_the_length_by_at_most_one() {
    let mut a = LinkedListAllocator::new();
    a.add_free_block(0x1000, 0x10);
    a.add_free_block(0x1020, 0x10);
    assert_eq!(blocks(&a).len(), 2);
    a.add_free_block(0x1040, 0x10);
    assert_eq!(blocks(&a).len(), 3);
    a.add_free_block(0x1010, 0x10);
    assert_eq!(blocks(&a), vec![(0x1000, 0x30), (0x1040, 0x10)]);
    a.add_free_block(0x1030, 0x10);
    assert_eq!(blocks(&a), vec![(0x1000, 0x50)]);
}
