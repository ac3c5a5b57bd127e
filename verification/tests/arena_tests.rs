use sysplay::arena::{
    ArenaPtr, BlockInfo, BlockType, Closure, ClosureMeta, DataPtr, DropFn, FreeList, FuncPtr,
    FunctionAllocatorInner, HeaderPtr, HEADER_SIZE,
};

const BASE: usize = 0x10000;

#[test]
fn pointers_and_records() {
    assert!(ArenaPtr::null().is_null());
    assert!(!ArenaPtr(BASE).is_null());
    assert!(HeaderPtr::null().is_null());
    assert_eq!(HeaderPtr(BASE + 40).offset_from(BASE), 40);
    assert_eq!(HeaderPtr::from_data_ptr(ArenaPtr(BASE + HEADER_SIZE)).0, BASE);
    let meta = ClosureMeta::new(24, 8);
    assert_eq!(meta.data_size, 24);
    assert_eq!(meta.data_align, 8);
    assert_eq!(meta.func_ptr, FuncPtr(0));
    assert_eq!(meta.data_ptr, DataPtr(0));
    assert_eq!(meta.drop_fn, DropFn(0));
    let _ = FreeList::new();
    let d: ArenaPtr = Default::default();
    assert!(d.is_null());
}

#[test]
fn closure_size_is_a_pointer() {
    let c = Closure::new(|| 5u32);
    assert_eq!(c.size(), std::mem::size_of::<usize>());
    assert_eq!(c.align(), std::mem::align_of::<usize>());
    assert_eq!((c.0)(), 5);
}

#[test]
fn blocks_follow_each_other() {
    let mut arena = FunctionAllocatorInner::<1024>::new(BASE);
    let a = arena.allocate(32, 8, BlockType::Closure);
    assert_eq!(a.0, BASE + 72);
    let b = arena.allocate(16, 16, BlockType::Packet);
    assert_eq!(b.0, BASE + 176);
    assert_eq!(arena.count(), 2);
    assert_eq!(
        arena.blocks(),
        vec![
            BlockInfo { header_offset: 0, data_offset: 72, data_size: 32, data_align: 8 },
            BlockInfo { header_offset: 104, data_offset: 176, data_size: 16, data_align: 16 },
        ]
    );
}

#[test]
fn a_gap_in_front_is_used_first() {
    let mut arena = FunctionAllocatorInner::<1024>::new(BASE);
    let a = arena.allocate(8, 256, BlockType::Closure);
    assert_eq!(a.0, BASE + 256);
    let b = arena.allocate(8, 8, BlockType::Closure);
    assert_eq!(b.0, BASE + 72);
    let blocks = arena.blocks();
    assert_eq!(blocks[0].header_offset, 0);
    assert_eq!(blocks[1].header_offset, 184);
}

#[test]
fn a_full_arena_gives_null() {
    let mut arena = FunctionAllocatorInner::<256>::new(BASE);
    assert!(arena.allocate(2000, 8, BlockType::Closure).is_null());
    assert_eq!(arena.count(), 0);
    let a = arena.allocate(100, 8, BlockType::Closure);
    assert_eq!(a.0, BASE + 72);
    assert!(arena.allocate(100, 8, BlockType::Closure).is_null());
    assert_eq!(arena.count(), 1);
}

#[test]
fn giving_back_keeps_the_block() {
    let mut arena = FunctionAllocatorInner::<1024>::new(BASE);
    let a = arena.allocate(32, 8, BlockType::Closure);
    arena.dealloc(a);
    assert_eq!(arena.count(), 1);
    arena.remove_raw(ArenaPtr::null());
    arena.remove_raw(a);
    assert_eq!(arena.count(), 1);
    let b = arena.allocate(32, 8, BlockType::Closure);
    assert_eq!(b.0, BASE + 72 + 32 + 72);
    arena.clear();
    assert_eq!(arena.count(), 0);
    assert_eq!(arena.allocate(32, 8, BlockType::Packet).0, BASE + 72);
}
