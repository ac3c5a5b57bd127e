use sysplay::buddy::types::Layout;
use sysplay::segregated::{Address, BlockHeader, SegregatedAllocator, Size, HEAP_SIZE, MAX_ORDER};

const START: usize = 0x10000;

fn heap() -> SegregatedAllocator {
    let mut a = SegregatedAllocator::new();
    a.init(START, HEAP_SIZE);
    a
}

#[test]
fn helpers() {
    assert_eq!(BlockHeader::size(), 16);
    assert_eq!(Size(1).to_order(), 0);
    assert_eq!(Size(16).to_order(), 0);
    assert_eq!(Size(17).to_order(), 1);
    assert_eq!(Size(32768).to_order(), 11);
    assert_eq!(Size(100_000).to_order(), 11);
    assert_eq!(Size::from_order(3).0, 128);
    assert_eq!(Size(100).with_padding(20).0, 64);
    assert_eq!(Address::new(5).add(3).0, 8);
    assert_eq!(Address(8).sub(3).0, 5);
    assert_eq!(Address(17).align_to(16).0, 32);
    assert_eq!(Address(32).align_to(16).0, 32);
    assert_eq!(Address(0x10010).xor(0x8000).0, 0x18010);
    assert!(Address(5).is_valid(Address(5), Address(6)));
    assert!(!Address(6).is_valid(Address(5), Address(6)));
}

#[test]
fn init_puts_one_block_in_the_top_list() {
    let a = heap();
    assert_eq!(a.free_list(MAX_ORDER - 1), vec![START]);
    for o in 0..MAX_ORDER - 1 {
        assert!(a.free_list(o).is_empty());
    }
    assert_eq!(a.used(), 0);
}

#[test]
fn allocation_splits_the_top_block() {
    let mut a = heap();
    let l = Layout::from_size_align(32, 8).unwrap();
    let p = a.allocate(l);
    assert_eq!(p, START + 0x20);
    assert_eq!(a.used(), 32768);
    assert!(a.free_list(11).is_empty());
    assert_eq!(a.free_list(1), vec![START + 0x10 + 32]);
    assert_eq!(a.free_list(10), vec![START + 0x10 + 16384]);
    let q = a.allocate(l);
    assert_eq!(q, START + 0x50);
    assert_eq!(a.used(), 32768 + 32);
    assert!(a.free_list(1).is_empty());
}

#[test]
fn freeing_the_first_block_loses_it() {
    let mut a = heap();
    let l = Layout::from_size_align(32, 8).unwrap();
    let p = a.allocate(l);
    a.deallocate(p, l);
    assert_eq!(a.used(), 0);
    assert!(a.free_list(11).is_empty());
}

#[test]
fn nothing_left_gives_null() {
    let mut a = SegregatedAllocator::new();
    let l = Layout::from_size_align(32, 8).unwrap();
    assert_eq!(a.allocate(l), 0);
}

#[test]
fn freeing_keeps_only_the_padding_counted() {
    let mut a = heap();
    let l = Layout::from_size_align(32, 64).unwrap();
    let p = a.allocate(l);
    assert_eq!(p, START + 0x50);
    assert_eq!(a.used(), 32768);
    a.deallocate(p, l);
    assert_eq!(a.used(), 48);
}
