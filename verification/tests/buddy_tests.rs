use sysplay::buddy::allocator::BuddyAllocatorImpl;
use sysplay::buddy::types::{BuddyBlock, Layout};

/// An allocator over an arena at a 4096-aligned address.
fn create_allocator(size: usize, min_block: usize) -> BuddyAllocatorImpl {
    BuddyAllocatorImpl::new(4096, size, min_block)
}

#[test]
fn test_basic_alloc_dealloc() {
    let mut allocator = create_allocator(1024, 32);
    let layout = Layout::from_size_align(64, 8).unwrap();
    let ptr = allocator.allocate(layout);
    assert!(ptr != 0);

    allocator.write(ptr, 0xAA);
    assert_eq!(allocator.read(ptr), 0xAA);
    allocator.dealloc(ptr, layout);
}

#[test]
fn test_split_and_merge() {
    let mut allocator = create_allocator(1024, 32);
    let big_layout = Layout::from_size_align(200, 8).unwrap();
    let ptr_big = allocator.allocate(big_layout);
    assert!(ptr_big != 0);

    let small_layout = Layout::from_size_align(32, 8).unwrap();
    let ptr_small = allocator.allocate(small_layout);
    assert!(ptr_small != 0);

    allocator.dealloc(ptr_small, small_layout);

    let ptr_big2 = allocator.allocate(big_layout);
    assert!(ptr_big2 != 0);

    allocator.dealloc(ptr_big2, big_layout);
    allocator.dealloc(ptr_big, big_layout);
}

#[test]
fn test_realloc_inplace() {
    let mut allocator = create_allocator(4096, 32);
    let layout = Layout::from_size_align(500, 8).unwrap();
    let ptr = allocator.allocate(layout);
    assert!(ptr != 0);
    let _block = BuddyBlock::from_ptr(ptr);

    let new_layout = Layout::from_size_align(600, 8).unwrap();
    let ptr2 = allocator.realloc(ptr, layout, new_layout.size());
    assert_eq!(ptr, ptr2);

    let new_layout2 = Layout::from_size_align(1000, 8).unwrap();
    let ptr3 = allocator.realloc(ptr2, new_layout, new_layout2.size());

    assert!(ptr3 != 0);

    allocator.dealloc(ptr3, new_layout2);
}

#[test]
fn test_realloc_fallback() {
    let mut allocator = create_allocator(1024, 32);
    let layout = Layout::from_size_align(64, 8).unwrap();
    let ptr = allocator.allocate(layout);
    assert!(ptr != 0);

    let new_layout = Layout::from_size_align(900, 8).unwrap();
    let ptr2 = allocator.realloc(ptr, layout, new_layout.size());

    if ptr2 != 0 {
        allocator.dealloc(ptr2, new_layout);
    } else {
        allocator.dealloc(ptr, layout);
    }
}

#[test]
fn test_alignment() {
    let mut allocator = create_allocator(1024, 32);
    for align in [1usize, 2, 4, 8, 16].iter() {
        let size = 64;
        let layout = Layout::from_size_align(size, *align).unwrap();
        let ptr = allocator.allocate(layout);
        assert!(ptr != 0);
        assert_eq!(ptr % align, 0);
        allocator.dealloc(ptr, layout);
    }
}

#[test]
fn test_zero_size_allocation() {
    let mut allocator = create_allocator(1024, 32);
    let layout = Layout::from_size_align(0, 1).unwrap();
    let ptr = allocator.allocate(layout);

    if ptr != 0 {
        allocator.dealloc(ptr, layout);
    }

    let layout2 = Layout::from_size_align(32, 8).unwrap();
    let ptr2 = allocator.allocate(layout2);
    assert!(ptr2 != 0);
    allocator.dealloc(ptr2, layout2);
}

#[test]
fn test_large_allocation_failure() {
    let mut allocator = create_allocator(1024, 32);
    let layout = Layout::from_size_align(1200, 8).unwrap();
    let ptr = allocator.allocate(layout);
    assert!(ptr == 0);
}

#[test]
fn freeing_the_only_allocation_restores_one_free_block() {
    let mut allocator = create_allocator(1024, 32);
    assert!(allocator.free_blocks().is_empty());
    let layout = Layout::from_size_align(40, 8).unwrap();
    let ptr = allocator.allocate(layout);
    assert!(ptr != 0);
    let during = allocator.free_blocks();
    assert!(during.len() > 1);
    assert!(during.iter().any(|b| !b.free));
    allocator.dealloc(ptr, layout);
    let after = allocator.free_blocks();
    assert_eq!(after.len(), 1);
    assert!(after[0].free);
    assert_eq!(after[0].ptr, allocator.first_block());
}

#[test]
fn distinct_allocations_do_not_overlap() {
    let mut allocator = create_allocator(4096, 32);
    let layout = Layout::from_size_align(100, 8).unwrap();
    let a = allocator.allocate(layout);
    let b = allocator.allocate(layout);
    assert!(a != 0 && b != 0);
    assert!(a + 100 <= b || b + 100 <= a);
}
