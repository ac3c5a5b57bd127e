//! A fixed arena that hands out blocks for closures and their packets.
//!
//! Each block is a header followed by its data; the arena keeps its blocks
//! in a list ordered by address and places a new one in the first gap, from
//! the start of the arena, that its header, alignment and data fit in.
//! Addresses are plain integers here: the arena starts at `base`, and zero
//! stands for a null pointer.
use vstd::prelude::*;
use crate::text::{signed_decimal, push_signed_decimal, push_text};
use crate::arith::{round_up, round_up_exec, lemma_round_up_upper};
use crate::buddy::types::round_up_lower;
use crate::buddy::types::is_power_of_two;

verus! {

/// The bytes a block header takes in front of the block's data.
pub const HEADER_SIZE: usize = 72;

#[derive(Debug, Clone, Copy, PartialEq, Eq, Structural)]
pub enum BlockType {
    Free,
    Closure,
    Packet,
}

/// The address of the routine that runs a stored closure; zero for none.
#[derive(Debug, Clone, Copy, PartialEq, Eq, Structural)]
pub struct FuncPtr(pub usize);

/// The address of a stored closure's data; zero for none.
#[derive(Debug, Clone, Copy, PartialEq, Eq, Structural)]
pub struct DataPtr(pub usize);

/// The address of the routine that drops a block's data; zero for the
/// routine that does nothing.
#[derive(Debug, Clone, Copy, PartialEq, Eq, Structural)]
pub struct DropFn(pub usize);

/// What a header records of its block's data.
#[derive(Debug, Clone, Copy, PartialEq, Eq, Structural)]
pub struct ClosureMeta {
    pub func_ptr: FuncPtr,
    pub data_ptr: DataPtr,
    pub data_size: usize,
    pub data_align: usize,
    pub drop_fn: DropFn,
}

impl ClosureMeta {
    pub open spec fn spec_new(size: usize, align: usize) -> ClosureMeta {
        ClosureMeta {
            func_ptr: FuncPtr(0),
            data_ptr: DataPtr(0),
            data_size: size,
            data_align: align,
            drop_fn: DropFn(0),
        }
    }

    /// The record of a block of `size` bytes at alignment `align` that holds
    /// nothing to run or drop yet.
    pub fn new(size: usize, align: usize) -> (r: Self)
        ensures
            r == (ClosureMeta {
                func_ptr: FuncPtr(0),
                data_ptr: DataPtr(0),
                data_size: size,
                data_align: align,
                drop_fn: DropFn(0),
            }),
    {
        ClosureMeta {
            func_ptr: FuncPtr(0),
            data_ptr: DataPtr(0),
            data_size: size,
            data_align: align,
            drop_fn: DropFn(0),
        }
    }
}

/// The address of a block's data; zero is null.
#[derive(Debug, Clone, Copy, PartialEq, Eq, Structural)]
pub struct ArenaPtr(pub usize);

impl ArenaPtr {
    pub fn is_null(&self) -> (r: bool)
        ensures
            r == (self.0 == 0),
    {
        self.0 == 0
    }

    pub fn null() -> (r: Self)
        ensures
            r.0 == 0,
    {
        ArenaPtr(0)
    }
}

impl Default for ArenaPtr {
    fn default() -> (r: Self)
        ensures
            r.0 == 0,
    {
        ArenaPtr(0)
    }
}

/// The address of a block header; zero is null.
#[derive(Debug, Clone, Copy, PartialEq, Eq, Structural)]
pub struct HeaderPtr(pub usize);

impl HeaderPtr {
    pub fn null() -> (r: Self)
        ensures
            r.0 == 0,
    {
        HeaderPtr(0)
    }

    pub fn is_null(&self) -> (r: bool)
        ensures
            r == (self.0 == 0),
    {
        self.0 == 0
    }

    /// The distance in bytes from `base` up to the header.
    pub fn offset_from(&self, base: usize) -> (r: usize)
        requires
            self.0 >= base,
        ensures
            r == self.0 - base,
    {
        self.0 - base
    }

    /// The header in front of the data at `data_ptr`.
    pub fn from_data_ptr(data_ptr: ArenaPtr) -> (r: Self)
        requires
            data_ptr.0 >= HEADER_SIZE,
        ensures
            r.0 == data_ptr.0 - HEADER_SIZE,
    {
        HeaderPtr(data_ptr.0 - HEADER_SIZE)
    }
}

/// A header as the list shows it: its record, the next header in the list
/// and the kind of block.
#[derive(Debug, Clone, Copy, PartialEq, Eq, Structural)]
pub struct ClosureHeader {
    pub meta: ClosureMeta,
    pub next: HeaderPtr,
    pub block_type: BlockType,
}

/// Where a new block goes: its offsets, its addresses and its neighbours in
/// the list, with the list position it takes.
#[derive(Debug, Clone, Copy, PartialEq, Eq, Structural)]
pub struct FindSpaceResult {
    pub header_offset: usize,
    pub data_offset: usize,
    pub alloc_end: usize,
    pub header_ptr: HeaderPtr,
    pub data_ptr: ArenaPtr,
    pub prev: HeaderPtr,
    pub current: HeaderPtr,
    pub index: usize,
}

/// A block as a walk over the list reports it.
#[derive(Debug, Clone, Copy, PartialEq, Eq, Structural)]
pub struct BlockInfo {
    pub header_offset: usize,
    pub data_offset: usize,
    pub data_size: usize,
    pub data_align: usize,
}

/// One block of the list: where its header starts in the arena, and what
/// the header holds.
#[derive(Debug, Clone, Copy, PartialEq, Eq, Structural)]
pub struct Block {
    pub offset: usize,
    pub meta: ClosureMeta,
    pub block_type: BlockType,
}

/// The end of a block's data, as an offset in the arena.
pub open spec fn block_end(b: Block) -> int {
    b.offset + HEADER_SIZE + b.meta.data_size
}

/// Where the gap in front of block `i` starts: the end of the block before
/// it, or the start of the arena.
pub open spec fn gap_start(list: Seq<Block>, i: int) -> int {
    if i == 0 {
        0
    } else {
        block_end(list[i - 1])
    }
}

/// The data offset a block placed in the gap from `start` on would get.
pub open spec fn data_at(start: int, align: int) -> int {
    round_up(start + HEADER_SIZE, align)
}

/// Whether `size` bytes at `align` fit in the gap in front of block `i`.
pub open spec fn fits_before(list: Seq<Block>, i: int, size: int, align: int) -> bool {
    data_at(gap_start(list, i), align) + size <= list[i].offset
}

/// The first block from `i` on in front of which the new block fits, or
/// the length of the list when none.
pub open spec fn first_fit(list: Seq<Block>, i: int, size: int, align: int) -> int
    decreases list.len() - i,
{
    if i >= list.len() {
        list.len() as int
    } else if fits_before(list, i, size, align) {
        i
    } else {
        first_fit(list, i + 1, size, align)
    }
}

/// Whether a block spanning `header..end` overlaps the data of some block.
pub open spec fn overlaps_any(list: Seq<Block>, header: int, end: int) -> bool {
    exists|j: int| 0 <= j < list.len() && header < block_end(#[trigger] list[j]) && end > list[j].offset
}

/// The list is ordered by address, its blocks are disjoint and lie in an
/// arena of `size` bytes.
pub open spec fn list_ok(list: Seq<Block>, size: int) -> bool {
    &&& forall|i: int| 0 <= i < list.len() ==> block_end(#[trigger] list[i]) <= size
    &&& forall|i: int, j: int| 0 <= i < j < list.len() ==> block_end(#[trigger] list[i]) <= #[trigger] list[j].offset
}

/// The list of blocks, ordered by address.
pub struct FreeList(Vec<Block>);

impl FreeList {
    pub closed spec fn view(&self) -> Seq<Block> {
        self.0@
    }

    pub fn new() -> (r: Self)
        ensures
            r.view() == Seq::<Block>::empty(),
    {
        FreeList(Vec::new())
    }
}

/// A closure stored by value, with what it returns.
#[verifier::reject_recursive_types(T)]
pub struct Closure<F: FnOnce() -> T, T>(pub F);

impl<F: FnOnce() -> T, T> Closure<F, T> {
    pub fn new(func: F) -> (r: Self)
        ensures
            r.0 == func,
    {
        Closure(func)
    }

    /// The size of a reference to the closure: a pointer's width.
    pub fn size(&self) -> (r: usize)
        ensures
            r as nat == vstd::layout::size_of::<usize>(),
    {
        broadcast use vstd::layout::layout_of_references_and_pointers,
            vstd::layout::layout_of_references_and_pointers_for_sized_types;

        core::mem::size_of::<&Self>()
    }

    /// The alignment of a reference to the closure: a pointer's.
    pub fn align(&self) -> (r: usize)
        ensures
            r as nat == vstd::layout::align_of::<usize>(),
    {
        broadcast use vstd::layout::layout_of_references_and_pointers,
            vstd::layout::layout_of_references_and_pointers_for_sized_types;

        core::mem::align_of::<&Self>()
    }
}

/// Facts about the first fit from `i` on.
proof fn lemma_first_fit(list: Seq<Block>, i: int, size: int, align: int)
    requires
        0 <= i <= list.len(),
    ensures
        i <= first_fit(list, i, size, align) <= list.len(),
        first_fit(list, i, size, align) < list.len() ==> fits_before(
            list,
            first_fit(list, i, size, align),
            size,
            align,
        ),
    decreases list.len() - i,
{
    if i < list.len() && !fits_before(list, i, size, align) {
        lemma_first_fit(list, i + 1, size, align);
    }
}

/// In an ordered list, the first-fit place overlaps no block, and the list
/// with the new block put at that place is ordered again.
pub proof fn law_first_fit_is_free(list: Seq<Block>, arena_size: int, size: usize, align: usize, block: Block)
    requires
        list_ok(list, arena_size),
        align >= 1,
        ({
            let i = first_fit(list, 0, size as int, align as int);
            let data = data_at(gap_start(list, i), align as int);
            &&& data + size <= arena_size
            &&& block.offset == data - HEADER_SIZE
            &&& block.meta.data_size == size
        }),
    ensures
        !overlaps_any(
            list,
            data_at(gap_start(list, first_fit(list, 0, size as int, align as int)), align as int)
                - HEADER_SIZE,
            data_at(gap_start(list, first_fit(list, 0, size as int, align as int)), align as int)
                + size,
        ),
        list_ok(list.insert(first_fit(list, 0, size as int, align as int), block), arena_size),
{
    let i = first_fit(list, 0, size as int, align as int);
    lemma_first_fit(list, 0, size as int, align as int);
    let start = gap_start(list, i);
    assert(start >= 0) by {
        if i > 0 {
            assert(block_end(list[i - 1]) >= 0);
        }
    }
    round_up_lower(start + HEADER_SIZE, align as int);
    let data = data_at(start, align as int);
    let header = data - HEADER_SIZE;
    let end = data + size;
    assert(header >= start);
    assert forall|j: int| 0 <= j < list.len() implies !(header < block_end(#[trigger] list[j]) && end
        > list[j].offset) by {
        if j < i {
            if j < i - 1 {
                assert(block_end(list[j]) <= list[i - 1].offset);
            }
        } else {
            assert(fits_before(list, i, size as int, align as int));
            if j > i {
                assert(block_end(list[i]) <= list[j].offset);
            }
        }
    }
    let l2 = list.insert(i, block);
    assert(block_end(block) == end);
    assert forall|a: int| 0 <= a < l2.len() implies block_end(#[trigger] l2[a]) <= arena_size by {
        if a < i {
            assert(l2[a] == list[a]);
        } else if a > i {
            assert(l2[a] == list[a - 1]);
        }
    }
    assert forall|a: int, b: int| 0 <= a < b < l2.len() implies block_end(#[trigger] l2[a])
        <= #[trigger] l2[b].offset by {
        if b < i {
            assert(l2[a] == list[a] && l2[b] == list[b]);
        } else if b == i {
            assert(l2[a] == list[a]);
            if a < i - 1 {
                assert(block_end(list[a]) <= list[i - 1].offset);
            }
        } else if a == i {
            assert(l2[b] == list[b - 1]);
            assert(fits_before(list, i, size as int, align as int));
            if b - 1 > i {
                assert(block_end(list[i]) <= list[b - 1].offset);
            }
        } else if a < i {
            assert(l2[a] == list[a] && l2[b] == list[b - 1]);
        } else {
            assert(l2[a] == list[a - 1] && l2[b] == list[b - 1]);
        }
    }
}

/// The arena: `SIZE` bytes from address `base` on, and its list of blocks.
pub struct FunctionAllocatorInner<const SIZE: usize> {
    base: usize,
    free_list: FreeList,
}

impl<const SIZE: usize> FunctionAllocatorInner<SIZE> {
    pub closed spec fn blocks_view(&self) -> Seq<Block> {
        self.free_list.view()
    }

    pub closed spec fn base_addr(&self) -> int {
        self.base as int
    }

    pub open spec fn wf(&self) -> bool {
        &&& list_ok(self.blocks_view(), SIZE as int)
        &&& 0 < self.base_addr()
        &&& self.base_addr() + SIZE <= usize::MAX
    }

    /// Whether `p` is the data address of a block in the list.
    pub open spec fn holds(&self, p: usize) -> bool {
        exists|j: int|
            0 <= j < self.blocks_view().len() && p == self.base_addr() + (
            #[trigger] self.blocks_view()[j]).offset + HEADER_SIZE
    }

    /// An empty arena at `base`.
    pub fn new(base: usize) -> (r: Self)
        requires
            0 < base,
            base + SIZE <= usize::MAX,
        ensures
            r.wf(),
            r.base_addr() == base,
            r.blocks_view() == Seq::<Block>::empty(),
    {
        FunctionAllocatorInner { base, free_list: FreeList::new() }
    }

    /// Whether `size` bytes at `align` fit in the gap from `offset` up to
    /// block `i`.
    fn fits_at(&self, i: usize, offset: usize, size: usize, align: usize) -> (r: bool)
        requires
            self.wf(),
            i < self.blocks_view().len(),
            offset <= SIZE,
            align >= 1,
            SIZE + HEADER_SIZE + align + size <= usize::MAX,
        ensures
            r == (data_at(offset as int, align as int) + size <= self.blocks_view()[i as int].offset),
    {
        let data_aligned = round_up_exec(offset + HEADER_SIZE, align);
        data_aligned + size <= self.free_list.0[i].offset
    }

    /// Where a block of `size` bytes at `align` goes: the first gap from
    /// the start of the arena that holds its header and its aligned data,
    /// or after the last block. None when that runs past the arena or
    /// overlaps a block.
    fn find_space(&self, size: usize, align: usize) -> (r: Option<FindSpaceResult>)
        requires
            self.wf(),
            align >= 1,
            SIZE + HEADER_SIZE + align + size <= usize::MAX,
        ensures
            ({
                let list = self.blocks_view();
                let i = first_fit(list, 0, size as int, align as int);
                let data = data_at(gap_start(list, i), align as int);
                let end = data + size;
                &&& r is None <==> (end > SIZE || overlaps_any(list, data - HEADER_SIZE, end))
                &&& r matches Some(f) ==> {
                    &&& f.index == i
                    &&& f.data_offset == data
                    &&& f.header_offset == data - HEADER_SIZE
                    &&& f.alloc_end == end
                    &&& f.header_ptr.0 == self.base_addr() + data - HEADER_SIZE
                    &&& f.data_ptr.0 == self.base_addr() + data
                    &&& f.prev.0 == (if i == 0 {
                        0
                    } else {
                        self.base_addr() + list[i - 1].offset
                    })
                    &&& f.current.0 == (if i < list.len() {
                        self.base_addr() + list[i].offset
                    } else {
                        0
                    })
                }
            }),
    {
        let ghost list = self.blocks_view();
        let n = self.free_list.0.len();
        let mut offset: usize = 0;
        let mut i: usize = 0;
        proof {
            lemma_first_fit(list, 0, size as int, align as int);
        }
        while i < n && !self.fits_at(i, offset, size, align)
            invariant
                self.wf(),
                list == self.blocks_view(),
                n == list.len(),
                i <= n,
                align >= 1,
                SIZE + HEADER_SIZE + align + size <= usize::MAX,
                offset == gap_start(list, i as int),
                offset <= SIZE,
                first_fit(list, 0, size as int, align as int) == first_fit(
                    list,
                    i as int,
                    size as int,
                    align as int,
                ),
            decreases n - i,
        {
            let b = self.free_list.0[i];
            offset = b.offset + HEADER_SIZE + b.meta.data_size;
            i = i + 1;
        }
        proof {
            lemma_first_fit(list, i as int, size as int, align as int);
            if i < n {
                assert(fits_before(list, i as int, size as int, align as int));
            }
            assert(first_fit(list, i as int, size as int, align as int) == i);
            round_up_lower(offset + HEADER_SIZE, align as int);
            lemma_round_up_upper(offset + HEADER_SIZE, align as int);
        }
        let data_aligned_offset = round_up_exec(offset + HEADER_SIZE, align);
        let alloc_end_offset = data_aligned_offset + size;
        let header_offset = data_aligned_offset - HEADER_SIZE;
        if alloc_end_offset > SIZE {
            return None;
        }
        let mut k: usize = 0;
        while k < n
            invariant
                self.wf(),
                list == self.blocks_view(),
                n == list.len(),
                k <= n,
                i <= n,
                offset == gap_start(list, i as int),
                first_fit(list, 0, size as int, align as int) == i,
                data_aligned_offset == data_at(offset as int, align as int),
                alloc_end_offset == data_aligned_offset + size,
                header_offset == data_aligned_offset - HEADER_SIZE,
                alloc_end_offset <= SIZE,
                forall|j: int| 0 <= j < k ==> !(header_offset < block_end(#[trigger] list[j])
                    && alloc_end_offset > list[j].offset),
            decreases n - k,
        {
            let b = self.free_list.0[k];
            let check_start = b.offset;
            let check_data_end = b.offset + HEADER_SIZE + b.meta.data_size;
            if header_offset < check_data_end && alloc_end_offset > check_start {
                assert(header_offset < block_end(list[k as int]) && alloc_end_offset > list[k as int].offset);
                return None;
            }
            k = k + 1;
        }
        let prev = if i == 0 {
            HeaderPtr(0)
        } else {
            HeaderPtr(self.base + self.free_list.0[i - 1].offset)
        };
        let current = if i < n {
            HeaderPtr(self.base + self.free_list.0[i].offset)
        } else {
            HeaderPtr(0)
        };
        Some(
            FindSpaceResult {
                header_offset,
                data_offset: data_aligned_offset,
                alloc_end: alloc_end_offset,
                header_ptr: HeaderPtr(self.base + header_offset),
                data_ptr: ArenaPtr(self.base + data_aligned_offset),
                prev,
                current,
                index: i,
            },
        )
    }

    /// Places a block of `size` bytes at `align` in the first gap that takes
    /// it and records it in the list; the address of its data, or null when
    /// the arena has no room from that gap on.
    pub fn allocate(&mut self, size: usize, align: usize, block_type: BlockType) -> (r: ArenaPtr)
        requires
            old(self).wf(),
            is_power_of_two(align as int),
            SIZE + HEADER_SIZE + align + size <= usize::MAX,
        ensures
            final(self).wf(),
            final(self).base_addr() == old(self).base_addr(),
            ({
                let list = old(self).blocks_view();
                let i = first_fit(list, 0, size as int, align as int);
                let data = data_at(gap_start(list, i), align as int);
                if data + size > SIZE {
                    r.0 == 0 && final(self).blocks_view() == list
                } else {
                    &&& r.0 == old(self).base_addr() + data
                    &&& final(self).blocks_view() == list.insert(
                        i,
                        Block {
                            offset: (data - HEADER_SIZE) as usize,
                            meta: ClosureMeta {
                                func_ptr: FuncPtr(0),
                                data_ptr: DataPtr(0),
                                data_size: size,
                                data_align: align,
                                drop_fn: DropFn(0),
                            },
                            block_type,
                        },
                    )
                }
            }),
    {
        proof {
            let k = choose|k: nat| k < 64 && vstd::arithmetic::power2::pow2(k) == align;
            vstd::arithmetic::power2::lemma_pow2_pos(k);
        }
        let ghost list = self.blocks_view();
        let space = match self.find_space(size, align) {
            Some(s) => s,
            None => {
                proof {
                    let i = first_fit(list, 0, size as int, align as int);
                    lemma_first_fit(list, 0, size as int, align as int);
                    let data = data_at(gap_start(list, i), align as int);
                    assert(gap_start(list, i) >= 0) by {
                        if i > 0 {
                            assert(block_end(list[i - 1]) >= 0);
                        }
                    }
                    round_up_lower(gap_start(list, i) + HEADER_SIZE, align as int);
                    if data + size <= SIZE {
                        let b = Block {
                            offset: (data - HEADER_SIZE) as usize,
                            meta: ClosureMeta::spec_new(size, align),
                            block_type,
                        };
                        law_first_fit_is_free(list, SIZE as int, size, align, b);
                    }
                }
                return ArenaPtr(0);
            },
        };
        let block = Block {
            offset: space.header_offset,
            meta: ClosureMeta::new(size, align),
            block_type,
        };
        proof {
            lemma_first_fit(list, 0, size as int, align as int);
            law_first_fit_is_free(list, SIZE as int, size, align, block);
        }
        self.free_list.0.insert(space.index, block);
        space.data_ptr
    }

    /// Gives back the block whose data is at `ptr`. The arena never takes a
    /// block back: the block stays in the list, and the list is unchanged.
    pub fn dealloc(&mut self, ptr: ArenaPtr)
        requires
            old(self).wf(),
            old(self).holds(ptr.0),
        ensures
            *final(self) == *old(self),
    {
        let ghost list = self.blocks_view();
        let ghost j = choose|j: int|
            0 <= j < list.len() && ptr.0 == self.base_addr() + (#[trigger] list[j]).offset
                + HEADER_SIZE;
        let header_ptr = HeaderPtr::from_data_ptr(ptr);
        let n = self.free_list.0.len();
        let mut i: usize = 0;
        while i < n && self.base + self.free_list.0[i].offset < header_ptr.0
            invariant
                self.wf(),
                list == self.blocks_view(),
                n == list.len(),
                0 <= j < n,
                header_ptr.0 == self.base_addr() + list[j].offset,
                i <= j,
            decreases n - i,
        {
            proof {
                if i == j {
                    assert(false);
                }
            }
            i = i + 1;
        }
        proof {
            if i < j {
                assert(block_end(list[i as int]) <= list[j].offset);
                assert(false);
            }
        }
    }

    /// Gives back the block at `ptr` unless it is null.
    pub fn remove_raw(&mut self, ptr: ArenaPtr)
        requires
            old(self).wf(),
            ptr.0 == 0 || old(self).holds(ptr.0),
        ensures
            *final(self) == *old(self),
    {
        if ptr.is_null() {
            return;
        }
        self.dealloc(ptr);
    }

    /// Drops every block: the list is empty again.
    pub fn clear(&mut self)
        requires
            old(self).wf(),
        ensures
            final(self).wf(),
            final(self).base_addr() == old(self).base_addr(),
            final(self).blocks_view() == Seq::<Block>::empty(),
    {
        self.free_list.0.clear();
    }

    /// The number of blocks in the list.
    pub fn count(&self) -> (r: usize)
        ensures
            r == self.blocks_view().len(),
    {
        self.free_list.0.len()
    }

    /// The blocks in list order, each with its header and data offsets.
    pub fn blocks(&self) -> (r: Vec<BlockInfo>)
        requires
            self.wf(),
        ensures
            r@.len() == self.blocks_view().len(),
            forall|i: int|
                0 <= i < r@.len() ==> #[trigger] r@[i] == (BlockInfo {
                    header_offset: self.blocks_view()[i].offset,
                    data_offset: (self.blocks_view()[i].offset + HEADER_SIZE) as usize,
                    data_size: self.blocks_view()[i].meta.data_size,
                    data_align: self.blocks_view()[i].meta.data_align,
                }),
    {
        let n = self.free_list.0.len();
        let mut out: Vec<BlockInfo> = Vec::new();
        let mut i: usize = 0;
        while i < n
            invariant
                self.wf(),
                n == self.blocks_view().len(),
                i <= n,
                out@.len() == i,
                forall|k: int|
                    0 <= k < i ==> #[trigger] out@[k] == (BlockInfo {
                        header_offset: self.blocks_view()[k].offset,
                        data_offset: (self.blocks_view()[k].offset + HEADER_SIZE) as usize,
                        data_size: self.blocks_view()[k].meta.data_size,
                        data_align: self.blocks_view()[k].meta.data_align,
                    }),
            decreases n - i,
        {
            let b = self.free_list.0[i];
            assert(block_end(self.blocks_view()[i as int]) <= SIZE);
            out.push(
                BlockInfo {
                    header_offset: b.offset,
                    data_offset: b.offset + HEADER_SIZE,
                    data_size: b.meta.data_size,
                    data_align: b.meta.data_align,
                },
            );
            i = i + 1;
        }
        out
    }
}

/// A walk over a list of blocks, one at a time.
pub struct BlocksIter {
    items: Vec<BlockInfo>,
    index: usize,
}

impl BlocksIter {
    /// The blocks still to come.
    pub closed spec fn remaining(&self) -> Seq<BlockInfo> {
        self.items@.skip(self.index as int)
    }

    pub closed spec fn wf(&self) -> bool {
        self.index <= self.items@.len()
    }

    /// A walk over `items`, in their order.
    pub fn new(items: Vec<BlockInfo>) -> (r: Self)
        ensures
            r.wf(),
            r.remaining() == items@,
    {
        let r = BlocksIter { items, index: 0 };
        assert(r.remaining() =~= r.items@);
        r
    }

    /// The next block, if any is left.
    pub fn next(&mut self) -> (r: Option<BlockInfo>)
        requires
            old(self).wf(),
        ensures
            final(self).wf(),
            old(self).remaining().len() == 0 ==> r is None && final(self).remaining() == old(
                self,
            ).remaining(),
            old(self).remaining().len() > 0 ==> r == Some(old(self).remaining()[0])
                && final(self).remaining() == old(self).remaining().drop_first(),
    {
        if self.index >= self.items.len() {
            return None;
        }
        let item = self.items[self.index];
        self.index = self.index + 1;
        assert(self.remaining() =~= old(self).remaining().drop_first());
        Some(item)
    }
}

/// A block placed in a gap gets its data at a multiple of its alignment,
/// past a whole header from the gap's start.
pub proof fn law_placement_aligned(start: int, align: int)
    requires
        start >= 0,
        align >= 1,
    ensures
        data_at(start, align) % align == 0,
        start + HEADER_SIZE <= data_at(start, align) < start + HEADER_SIZE + align,
{
    lemma_round_up_upper(start + HEADER_SIZE, align);
    round_up_lower(start + HEADER_SIZE, align);
}

/// Why starting or joining a thread failed.
#[derive(Debug, Clone, Copy, PartialEq, Eq, Structural)]
pub enum ThreadError {
    Timeout,
    CreationFailed(i32),
    WaitFailed(i32),
    AllocationFailed,
    NoResult,
}

impl ThreadError {
    /// What the error says, with the status where it carries one.
    pub fn to_string(&self) -> (r: String)
        ensures
            r@ == match self {
                ThreadError::Timeout => "Thread timed out"@,
                ThreadError::CreationFailed(st) => "Thread creation failed: "@ + signed_decimal(*st as int),
                ThreadError::WaitFailed(st) => "Thread wait failed: "@ + signed_decimal(*st as int),
                ThreadError::AllocationFailed => "Allocation failed"@,
                ThreadError::NoResult => "No result available"@,
            },
    {
        let mut s = String::new();
        match self {
            ThreadError::Timeout => push_text(&mut s, "Thread timed out"),
            ThreadError::CreationFailed(st) => {
                push_text(&mut s, "Thread creation failed: ");
                push_signed_decimal(&mut s, *st as i64);
            },
            ThreadError::WaitFailed(st) => {
                push_text(&mut s, "Thread wait failed: ");
                push_signed_decimal(&mut s, *st as i64);
            },
            ThreadError::AllocationFailed => push_text(&mut s, "Allocation failed"),
            ThreadError::NoResult => push_text(&mut s, "No result available"),
        }
        proof {
            assert(Seq::<char>::empty() + s@ =~= s@);
        }
        s
    }
}

} // verus!
