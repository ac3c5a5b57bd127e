use sysplay::buddy::allocator::BuddyAllocatorImpl;
use sysplay::buddy::stress::{lcg_step, run_stress_test, AllocEntry, AllocStorage};
use sysplay::buddy::types::Layout;

#[test]
fn generator_step() {
    assert_eq!(lcg_step(0xDEADBEEF), 0x39369c141c014dfc);
    assert_eq!(lcg_step(0), 0x3039);
}

#[test]
fn storage_swap_removes() {
    let mut s = AllocStorage::new(2);
    assert!(s.is_empty());
    let l = Layout::from_size_align(8, 8).unwrap();
    assert!(s.push(AllocEntry { ptr: 10, layout: l }).is_ok());
    assert!(s.push(AllocEntry { ptr: 20, layout: l }).is_ok());
    assert!(s.push(AllocEntry { ptr: 30, layout: l }).is_err());
    assert_eq!(s.len(), 2);
    assert_eq!(s.capacity(), 2);
    assert_eq!(s.remove(0).unwrap().ptr, 10);
    assert_eq!(s.get(0).unwrap().ptr, 20);
    assert!(s.get(1).is_none());
    assert!(AllocEntry::null().is_null());
    s.clear();
    assert!(s.is_empty());
}

#[test]
fn workout_runs() {
    let mut a = BuddyAllocatorImpl::new(4096, 1 << 16, 32);
    let sum = run_stress_test(500, &mut a);
    assert!(sum.alloc_count + sum.free_count + sum.realloc_count <= 500);
    assert!(sum.total_freed <= sum.total_allocated);
    assert!(sum.alloc_count > 0);
}
