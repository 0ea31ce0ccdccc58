use kernel::allocator::bin::Allocator;
use kernel::allocator::global::GlobalAllocator;
use kernel::allocator::linked_list::LinkedList;
use kernel::allocator::model::{AllocErr, Unsupported};
use kernel::allocator::util::{align_down, align_up, is_power_of_two, log2_ceil};

#[test]
fn align_down_rounds_to_lower_multiple() {
    assert_eq!(align_down(0, 2), 0);
    assert_eq!(align_down(5, 4), 4);
    assert_eq!(align_down(0x1234, 0x1000), 0x1000);
    assert_eq!(align_down(4096, 4096), 4096);
    assert_eq!(align_down(0xFFFF, 1), 0xFFFF);
}

#[test]
fn align_up_rounds_to_upper_multiple() {
    assert_eq!(align_up(0, 2), 0);
    assert_eq!(align_up(5, 4), 8);
    assert_eq!(align_up(0x1234, 0x1000), 0x2000);
    assert_eq!(align_up(4096, 4096), 4096);
    assert_eq!(align_up(0x100008, 16), 0x100010);
}

#[test]
fn power_of_two_test() {
    assert!(!is_power_of_two(0));
    assert!(is_power_of_two(1));
    assert!(is_power_of_two(2));
    assert!(!is_power_of_two(3));
    assert!(is_power_of_two(4096));
    assert!(!is_power_of_two(4097));
    assert!(is_power_of_two(1 << 63));
    assert!(!is_power_of_two(usize::MAX));
}

#[test]
fn log2_ceil_values() {
    assert_eq!(log2_ceil(1), 0);
    assert_eq!(log2_ceil(2), 1);
    assert_eq!(log2_ceil(3), 2);
    assert_eq!(log2_ceil(4), 2);
    assert_eq!(log2_ceil(5), 3);
    assert_eq!(log2_ceil(8), 3);
    assert_eq!(log2_ceil(9), 4);
    assert_eq!(log2_ceil(65536), 16);
    assert_eq!(log2_ceil(65537), 17);
    assert_eq!(log2_ceil(1 << 63), 63);
    assert_eq!(log2_ceil((1 << 63) + 1), 64);
    assert_eq!(log2_ceil(usize::MAX), 64);
}

#[test]
fn new_allocator_has_bins_for_the_arena() {
    let a = Allocator::new(0x100000, 0x110000);
    assert_eq!(a.bin_num(), 13);
    assert_eq!(a.free_start(), 0x100000);
    assert_eq!(a.free_end(), 0x110000);
    for bin in 0..61 {
        assert_eq!(a.free_chunks(bin), 0);
    }
}

#[test]
fn bump_then_reuse_in_lifo_order() {
    let mut a = Allocator::new(0x100000, 0x110000);
    assert_eq!(a.allocate(8, 8), Ok(0x100000));
    assert_eq!(a.allocate(16, 16), Ok(0x100010));
    assert_eq!(a.free_start(), 0x100020);
    a.dealloc(0x100010, 16, 16);
    a.dealloc(0x100000, 8, 8);
    assert_eq!(a.free_chunks(0), 1);
    assert_eq!(a.free_chunks(1), 1);
    assert_eq!(a.allocate(8, 8), Ok(0x100000));
    assert_eq!(a.free_chunks(0), 0);
}

#[test]
fn adjacent_blocks_coalesce() {
    let mut a = Allocator::new(0x100000, 0x100000 + 8192);
    assert_eq!(a.bin_num(), 10);
    let p = a.allocate(8, 8).unwrap();
    let q = a.allocate(8, 8).unwrap();
    assert_eq!(p, 0x100000);
    assert_eq!(q, 0x100008);
    a.dealloc(p, 8, 8);
    assert_eq!(a.free_chunks(0), 1);
    a.dealloc(q, 8, 8);
    assert_eq!(a.free_chunks(0), 0);
    assert_eq!(a.free_chunks(1), 1);
    assert_eq!(a.allocate(16, 8), Ok(0x100000));
    assert_eq!(a.free_chunks(1), 0);
}

#[test]
fn bad_alignment_is_unsupported() {
    let mut a = Allocator::new(0x100000, 0x110000);
    assert_eq!(a.allocate(8, 3), Err(AllocErr::Unsupported { details: Unsupported::Alignment }));
    assert_eq!(a.allocate(8, 0), Err(AllocErr::Unsupported { details: Unsupported::Alignment }));
    assert_eq!(a.free_start(), 0x100000);
}

#[test]
fn largest_class_is_unsupported_and_beyond_is_exhausted() {
    let mut a = Allocator::new(0x100000, 0x110000);
    assert_eq!(a.allocate(0x8000, 8), Ok(0x100000));
    assert_eq!(a.allocate(0x8001, 8), Err(AllocErr::Unsupported { details: Unsupported::Size }));
    assert_eq!(a.allocate(0x10000, 8), Err(AllocErr::Unsupported { details: Unsupported::Size }));
    assert_eq!(a.allocate(0x10001, 8), Err(AllocErr::Exhausted { size: 0x10001, align: 8 }));
}

#[test]
fn wilderness_runs_out() {
    let mut a = Allocator::new(0x100000, 0x110000);
    assert_eq!(a.allocate(0x8000, 8), Ok(0x100000));
    assert_eq!(a.allocate(0x8000, 8), Ok(0x108000));
    assert_eq!(a.allocate(8, 8), Err(AllocErr::Exhausted { size: 8, align: 8 }));
    a.dealloc(0x108000, 0x8000, 8);
    assert_eq!(a.allocate(8, 8), Ok(0x108000));
    assert_eq!(a.free_chunks(0), 1);
    assert_eq!(a.free_chunks(11), 1);
}

#[test]
fn split_pushes_one_fragment_per_bin() {
    let mut a = Allocator::new(0x100000, 0x110000);
    let p = a.allocate(64, 8).unwrap();
    a.dealloc(p, 64, 8);
    assert_eq!(a.free_chunks(3), 1);
    assert_eq!(a.allocate(8, 8), Ok(0x100000));
    assert_eq!(a.free_chunks(0), 1);
    assert_eq!(a.free_chunks(1), 1);
    assert_eq!(a.free_chunks(2), 1);
    assert_eq!(a.free_chunks(3), 0);
    assert_eq!(a.allocate(8, 8), Ok(0x100008));
    assert_eq!(a.allocate(16, 8), Ok(0x100010));
    assert_eq!(a.allocate(32, 8), Ok(0x100020));
    assert_eq!(a.free_start(), 0x100040);
}

#[test]
fn large_alignment_skips_unaligned_blocks() {
    let mut a = Allocator::new(0x100000, 0x110000);
    let p = a.allocate(8, 8).unwrap();
    let q = a.allocate(8, 8).unwrap();
    let r = a.allocate(8, 8).unwrap();
    assert_eq!((p, q, r), (0x100000, 0x100008, 0x100010));
    a.dealloc(q, 8, 8);
    assert_eq!(a.allocate(8, 16), Ok(0x100020));
    assert_eq!(a.free_chunks(0), 1);
    assert_eq!(a.allocate(8, 8), Ok(0x100008));
}

#[test]
fn coalesced_block_sits_at_the_lower_address() {
    let mut a = Allocator::new(0x100000, 0x100000 + 8192);
    let p = a.allocate(8, 8).unwrap();
    let q = a.allocate(8, 8).unwrap();
    a.dealloc(q, 8, 8);
    a.dealloc(p, 8, 8);
    assert_eq!(a.free_chunks(0), 0);
    assert_eq!(a.free_chunks(1), 1);
    assert_eq!(a.free_chunk(1, 0), 0x100000);
}

#[test]
fn coalescing_climbs_through_the_bins() {
    let mut a = Allocator::new(0x100000, 0x100000 + 8192);
    let blocks: Vec<usize> = (0..4).map(|_| a.allocate(8, 8).unwrap()).collect();
    assert_eq!(blocks, vec![0x100000, 0x100008, 0x100010, 0x100018]);
    a.dealloc(blocks[0], 8, 8);
    a.dealloc(blocks[1], 8, 8);
    assert_eq!(a.free_chunk(1, 0), 0x100000);
    a.dealloc(blocks[3], 8, 8);
    assert_eq!(a.free_chunks(0), 1);
    a.dealloc(blocks[2], 8, 8);
    assert_eq!(a.free_chunks(0), 0);
    assert_eq!(a.free_chunks(1), 0);
    assert_eq!(a.free_chunks(2), 1);
    assert_eq!(a.free_chunk(2, 0), 0x100000);
    assert_eq!(a.allocate(32, 32), Ok(0x100000));
}

#[test]
fn coalescing_stops_below_the_last_bin() {
    let mut a = Allocator::new(0x100000, 0x100000 + 24);
    assert_eq!(a.bin_num(), 2);
    let p = a.allocate(16, 8).unwrap();
    assert_eq!(p, 0x100000);
    a.dealloc(p, 16, 8);
    assert_eq!(a.free_chunks(1), 1);
    assert_eq!(a.allocate(8, 8), Ok(0x100000));
    assert_eq!(a.free_chunks(0), 1);
    assert_eq!(a.free_chunk(0, 0), 0x100008);
    assert_eq!(a.allocate(16, 8), Err(AllocErr::Exhausted { size: 16, align: 8 }));
}

#[test]
fn allocate_after_matching_dealloc_succeeds() {
    for &(size, align) in &[(1, 1), (8, 8), (24, 8), (100, 64), (4096, 4096), (7, 2)] {
        let mut a = Allocator::new(0x100000, 0x110000);
        a.allocate(40, 8).unwrap();
        let p = a.allocate(size, align).unwrap();
        assert_eq!(p % align, 0);
        a.dealloc(p, size, align);
        assert_eq!(a.allocate(size, align), Ok(p));
    }
}

#[test]
fn merged_block_may_lose_its_alignment() {
    let mut a = Allocator::new(0x100000, 0x100000 + 24);
    assert_eq!(a.allocate(8, 8), Ok(0x100000));
    assert_eq!(a.allocate(8, 8), Ok(0x100008));
    a.dealloc(0x100008, 8, 8);
    assert_eq!(a.allocate(8, 16), Ok(0x100010));
    a.dealloc(0x100010, 8, 16);
    assert_eq!(a.free_chunks(0), 0);
    assert_eq!(a.free_chunk(1, 0), 0x100008);
    assert_eq!(a.allocate(8, 16), Err(AllocErr::Exhausted { size: 8, align: 16 }));
    assert_eq!(a.allocate(8, 8), Ok(0x100008));
}

#[test]
fn live_blocks_are_aligned_and_apart() {
    let mut a = Allocator::new(0x100000, 0x110000);
    let requests = [(8, 8), (16, 16), (3, 1), (64, 32), (8, 8), (200, 128), (24, 4), (1024, 1024)];
    let mut live: Vec<(usize, usize)> = Vec::new();
    for round in 0..3 {
        for &(size, align) in &requests {
            let p = a.allocate(size, align).unwrap();
            assert_eq!(p % align, 0);
            assert_eq!(p % 8, 0);
            assert!(0x100000 <= p && p + size <= 0x110000);
            for &(q, len) in &live {
                assert!(p + size <= q || q + len <= p);
            }
            live.push((p, size));
        }
        let mut kept = Vec::new();
        for (i, &(p, size)) in live.iter().enumerate() {
            if (i + round) % 2 == 0 {
                let align = requests.iter().find(|r| r.0 == size).unwrap().1;
                a.dealloc(p, size, align);
            } else {
                kept.push((p, size));
            }
        }
        live = kept;
    }
}

#[test]
fn free_list_is_a_stack() {
    let mut list = LinkedList::new();
    assert!(list.is_empty());
    assert_eq!(list.peek(), None);
    assert_eq!(list.pop(), None);
    list.push(0x10);
    list.push(0x20);
    list.push(0x30);
    assert_eq!(list.len(), 3);
    assert_eq!(list.peek(), Some(0x30));
    assert_eq!(list.get(0), 0x30);
    assert_eq!(list.get(1), 0x20);
    assert_eq!(list.get(2), 0x10);
    assert_eq!(list.remove(1), 0x20);
    assert_eq!(list.get(1), 0x10);
    assert_eq!(list.pop(), Some(0x30));
    assert_eq!(list.pop(), Some(0x10));
    assert!(list.is_empty());
}

#[test]
fn smallest_arena_has_no_bin() {
    let mut a = Allocator::new(0x100000, 0x100005);
    assert_eq!(a.bin_num(), 0);
    assert_eq!(a.allocate(1, 1), Err(AllocErr::Unsupported { details: Unsupported::Size }));
    assert_eq!(a.allocate(9, 1), Err(AllocErr::Exhausted { size: 9, align: 1 }));
}

#[test]
fn global_allocator_is_initialized_once() {
    let mut heap = GlobalAllocator::uninitialized();
    assert!(!heap.is_initialized());
    heap.initialize(0x100000, 0x110000);
    assert!(heap.is_initialized());
    assert_eq!(heap.allocate(8, 8), Ok(0x100000));
    assert_eq!(heap.allocate(8, 5), Err(AllocErr::Unsupported { details: Unsupported::Alignment }));
    heap.dealloc(0x100000, 8, 8);
    assert_eq!(heap.get_mut().free_chunks(0), 1);
    assert_eq!(heap.allocate(8, 8), Ok(0x100000));
    assert_eq!(heap.get_mut().free_start(), 0x100008);
}

#[test]
fn page_alignment_is_served_by_a_larger_block() {
    let mut a = Allocator::new(0x100000, 0x110000);
    let kept = a.allocate(8, 8).unwrap();
    let small = a.allocate(8, 8).unwrap();
    let page = a.allocate(4096, 4096).unwrap();
    assert_eq!(kept, 0x100000);
    assert_eq!(small, 0x100008);
    assert_eq!(page, 0x101000);
    a.dealloc(small, 8, 8);
    a.dealloc(page, 4096, 4096);
    assert_eq!(a.allocate(8, 4096), Ok(0x101000));
    assert_eq!(a.free_chunks(9), 0);
    for bin in 0..9 {
        assert_eq!(a.free_chunk(bin, 0), 0x101000 + (8 << bin));
    }
    assert_eq!(a.free_chunk(0, 1), 0x100008);
    assert_eq!(a.allocate(8, 4096), Ok(0x102000));
}
