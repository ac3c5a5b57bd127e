//! A buddy allocator over an arena of `heap_size` bytes at address `base`.
//!
//! Blocks are powers of two of `min_block` bytes, aligned to their size from
//! the first block, which sits at the first address of the arena aligned to
//! the largest block. Each block starts with a header of
//! `BLOCK_HEADER_SIZE` bytes; the address handed out is the one after it.
//! The allocator keeps its headers and free lists beside the arena, and the
//! arena's bytes in `memory`.
use vstd::prelude::*;
use vstd::arithmetic::power2::pow2;
use crate::arith::{
    round_up, is_floor_log2, is_ceil_log2, ilog2, round_up_exec, lemma_pow2_double, lemma_pow2_mono,
    lemma_floor_log2_unique, lemma_ceil_log2_unique,
};
use crate::buddy::types::{BLOCK_HEADER_SIZE, Layout, BuddyBlockInfo, is_power_of_two};
use crate::buddy::state::{
    blocks_ok, lists_ok, buddy_slot, owner_after, lemma_split, lemma_merge, lemma_pop, lemma_push, lemma_owned,
};

verus! {

/// The integer base-two logarithm of `x`, rounded down.
pub open spec fn floor_log2(x: int) -> nat {
    choose|k: nat| is_floor_log2(k, x)
}

/// The smallest exponent whose power of two reaches `x`.
pub open spec fn ceil_log2(x: int) -> nat {
    choose|k: nat| is_ceil_log2(k, x)
}

/// The largest order for an arena of `heap_size` bytes in blocks of
/// `min_block`.
pub open spec fn max_order_for(heap_size: int, min_block: int) -> nat {
    floor_log2(heap_size / min_block)
}

/// Bytes from the arena's start to the first address aligned to the largest
/// block.
pub open spec fn offset_for(base: int, heap_size: int, min_block: int) -> int {
    let maxblk = min_block * pow2(max_order_for(heap_size, min_block));
    round_up(base, maxblk) - base
}

/// The order of the first block: the largest that fits after the offset.
pub open spec fn top_for(base: int, heap_size: int, min_block: int) -> nat {
    floor_log2((heap_size - offset_for(base, heap_size, min_block)) / min_block)
}

/// What the allocator needs of its arena.
pub open spec fn arena_ok(base: int, heap_size: int, min_block: int) -> bool {
    &&& min_block >= BLOCK_HEADER_SIZE
    &&& is_power_of_two(min_block)
    &&& heap_size >= min_block
    &&& base + heap_size <= usize::MAX
    &&& heap_size + min_block <= usize::MAX
    &&& offset_for(base, heap_size, min_block) + min_block <= heap_size
}

/// Free lists of a freshly set-up allocator: the first block alone, in the
/// list of its order.
pub open spec fn fresh_lists(maxo: int, top: int) -> Seq<Seq<usize>> {
    Seq::new((maxo + 1) as nat, |k: int| if k == top { seq![0usize] } else { Seq::<usize>::empty() })
}

/// The lowest order from `lo` to `hi` whose free list is not empty, or -1.
pub open spec fn first_nonempty(lists: Seq<Seq<usize>>, lo: int, hi: int) -> int
    decreases hi - lo + 1,
{
    if lo > hi || lo < 0 {
        -1
    } else if lists[lo].len() > 0 {
        lo
    } else {
        first_nonempty(lists, lo + 1, hi)
    }
}

/// The free lists after the last block of list `j` at slot `s` is taken and
/// split down to order `t`: each order from `t` to `j - 1` gains the upper
/// half split off at it.
pub open spec fn split_lists(lists: Seq<Seq<usize>>, j: int, t: int, s: int) -> Seq<Seq<usize>> {
    Seq::new(
        lists.len(),
        |i: int|
            if i == j {
                lists[j].drop_last()
            } else if t <= i < j {
                lists[i].push((s + pow2(i as nat)) as usize)
            } else {
                lists[i]
            },
    )
}

/// The free lists after the block of order `k` at slot `s` is returned: it
/// joins its free buddy of the same order, and the joined block its own, as
/// long as the order is below `maxo`; the block that results goes on the
/// list of its order.
pub open spec fn merge_lists(lists: Seq<Seq<usize>>, s: int, k: int, maxo: int, n: int) -> Seq<Seq<usize>>
    decreases maxo - k,
{
    if k >= maxo || k < 0 {
        lists.update(k, lists[k].push(s as usize))
    } else {
        let b = buddy_slot(s, pow2(k as nat) as int);
        if 0 <= b < n && lists[k].contains(b as usize) {
            merge_lists(
                lists.update(k, lists[k].remove(lists[k].index_of(b as usize))),
                if s < b { s } else { b },
                k + 1,
                maxo,
                n,
            )
        } else {
            lists.update(k, lists[k].push(s as usize))
        }
    }
}

/// The free lists after the taken block of order `k` at slot `s` grows in
/// place towards order `target` by joining the free buddies above it, and
/// the order it reaches; the flag tells whether it reached `target`.
pub open spec fn expand_result(lists: Seq<Seq<usize>>, s: int, k: int, target: int, maxo: int, n: int) -> (
    Seq<Seq<usize>>,
    int,
    bool,
)
    decreases target - k,
{
    if k >= target {
        (lists, k, true)
    } else if k >= maxo || k < 0 {
        (lists, k, false)
    } else {
        let p = pow2(k as nat) as int;
        if (s / p) % 2 != 0 {
            (lists, k, false)
        } else if !(s + p < n && lists[k].contains((s + p) as usize)) {
            (lists, k, false)
        } else {
            expand_result(
                lists.update(k, lists[k].remove(lists[k].index_of((s + p) as usize))),
                s,
                k + 1,
                target,
                maxo,
                n,
            )
        }
    }
}

/// A growth that succeeds reaches exactly its target order.
pub proof fn lemma_expand_reaches(lists: Seq<Seq<usize>>, s: int, k: int, target: int, maxo: int, n: int)
    requires
        k <= target,
        expand_result(lists, s, k, target, maxo, n).2,
    ensures
        expand_result(lists, s, k, target, maxo, n).1 == target,
    decreases target - k,
{
    if k < target && k < maxo && k >= 0 {
        let p = pow2(k as nat) as int;
        if (s / p) % 2 == 0 && s + p < n && lists[k].contains((s + p) as usize) {
            lemma_expand_reaches(
                lists.update(k, lists[k].remove(lists[k].index_of((s + p) as usize))),
                s,
                k + 1,
                target,
                maxo,
                n,
            );
        }
    }
}

/// `mem` after `len` bytes at index `from` are copied to index `to`.
pub open spec fn copied(mem: Seq<u8>, from: int, to: int, len: int) -> Seq<u8> {
    Seq::new(mem.len(), |i: int| if to <= i < to + len { mem[from + i - to] } else { mem[i] })
}

/// From the fresh free lists, the lowest non-empty list from `t` up is the
/// one of the first block's order.
pub proof fn lemma_first_nonempty_fresh(maxo: int, top: int, t: int)
    requires
        0 <= t <= top <= maxo,
    ensures
        first_nonempty(fresh_lists(maxo, top), t, maxo) == top,
    decreases top - t,
{
    if t < top {
        lemma_first_nonempty_fresh(maxo, top, t + 1);
    }
}

/// Splitting the first block down to order `t` and returning the block
/// taken gives back the fresh free lists.
pub proof fn lemma_split_merge_fresh(maxo: int, top: int, t: int)
    requires
        0 <= t <= top <= maxo,
        maxo < 64,
        pow2(top as nat) <= usize::MAX,
    ensures
        merge_lists(split_lists(fresh_lists(maxo, top), top, t, 0), 0, t, maxo, pow2(top as nat) as int)
            == fresh_lists(maxo, top),
    decreases top - t,
{
    let f = fresh_lists(maxo, top);
    let n = pow2(top as nat) as int;
    let l = split_lists(f, top, t, 0);
    lemma_pow2_double(t as nat);
    if t == top {
        assert(f[top] =~= seq![0usize]);
        assert(f[top].drop_last() =~= Seq::<usize>::empty());
        assert forall|k: int| 0 <= k < l.len() implies #[trigger] l[k] =~= f.update(top, Seq::<usize>::empty())[k] by {}
        assert(l =~= f.update(top, Seq::<usize>::empty()));
        if top < maxo {
            assert(buddy_slot(0, pow2(top as nat) as int) == n);
        }
        assert(l.update(t, l[t].push(0usize)) =~= f);
    } else {
        let p = pow2(t as nat) as int;
        assert(buddy_slot(0, p) == p);
        lemma_pow2_mono((t + 1) as nat, top as nat);
        assert(p < n);
        assert(l[t] =~= seq![p as usize]);
        assert(l[t][0] == p as usize);
        assert(l[t].contains(p as usize));
        let i = l[t].index_of(p as usize);
        assert(i == 0);
        let l2 = l.update(t, l[t].remove(i));
        let l3 = split_lists(f, top, t + 1, 0);
        assert(l[t].remove(i) =~= Seq::<usize>::empty());
        assert forall|k: int| 0 <= k < l2.len() implies #[trigger] l2[k] =~= l3[k] by {}
        assert(l2 =~= l3);
        lemma_split_merge_fresh(maxo, top, t + 1);
    }
}

pub struct BuddyAllocatorImpl {
    base: usize,
    heap_size: usize,
    min_block: usize,
    max_order: usize,
    offset: usize,
    top: usize,
    nslots: usize,
    initialized: bool,
    orders: Vec<usize>,
    frees: Vec<bool>,
    lists: Vec<Vec<usize>>,
    pows: Vec<usize>,
    memory: Vec<u8>,
    starts: Ghost<Set<int>>,
    owner: Ghost<Seq<int>>,
}

impl BuddyAllocatorImpl {
    pub closed spec fn lists_view(&self) -> Seq<Seq<usize>> {
        self.lists@.map_values(|v: Vec<usize>| v@)
    }

    pub closed spec fn memory_view(&self) -> Seq<u8> {
        self.memory@
    }

    pub closed spec fn spec_base(&self) -> usize {
        self.base
    }

    pub closed spec fn spec_heap_size(&self) -> usize {
        self.heap_size
    }

    pub closed spec fn spec_min_block(&self) -> usize {
        self.min_block
    }

    pub closed spec fn spec_max_order(&self) -> usize {
        self.max_order
    }

    pub closed spec fn spec_offset(&self) -> usize {
        self.offset
    }

    pub closed spec fn spec_top(&self) -> usize {
        self.top
    }

    pub closed spec fn spec_nslots(&self) -> usize {
        self.nslots
    }

    pub closed spec fn is_initialized(&self) -> bool {
        self.initialized
    }

    /// The free lists the next request starts from: those of the set-up
    /// allocator, or the fresh ones where it is not set up yet.
    pub open spec fn lists_before_use(&self) -> Seq<Seq<usize>> {
        if self.is_initialized() {
            self.lists_view()
        } else {
            fresh_lists(self.spec_max_order() as int, self.spec_top() as int)
        }
    }

    /// Address of the header of the block at slot `s`.
    pub open spec fn block_addr(&self, s: int) -> int {
        self.spec_base() + self.spec_offset() + s * self.spec_min_block()
    }

    /// Address of the data of the block at slot `s`.
    pub open spec fn data_addr(&self, s: int) -> int {
        self.block_addr(s) + BLOCK_HEADER_SIZE
    }

    /// Slot of the block whose data starts at `ptr`.
    pub open spec fn slot_of(&self, ptr: int) -> int {
        (ptr - BLOCK_HEADER_SIZE - self.spec_base() - self.spec_offset()) / (self.spec_min_block() as int)
    }

    pub closed spec fn is_block(&self, s: int) -> bool {
        self.starts@.contains(s)
    }

    pub closed spec fn order_at(&self, s: int) -> nat {
        self.orders@[s] as nat
    }

    pub closed spec fn free_at(&self, s: int) -> bool {
        self.frees@[s]
    }

    /// `ptr` is the data address of a block that has been handed out and not
    /// returned.
    pub open spec fn is_live(&self, ptr: int) -> bool {
        let s = self.slot_of(ptr);
        &&& self.is_initialized()
        &&& ptr >= self.spec_base() + self.spec_offset() + BLOCK_HEADER_SIZE
        &&& (ptr - BLOCK_HEADER_SIZE - self.spec_base() - self.spec_offset()) % (self.spec_min_block() as int) == 0
        &&& 0 <= s < self.spec_nslots()
        &&& self.is_block(s)
        &&& !self.free_at(s)
    }

    /// Order of the live block whose data starts at `ptr`.
    pub open spec fn live_order(&self, ptr: int) -> nat {
        self.order_at(self.slot_of(ptr))
    }

    /// Size in bytes of a block of order `k`.
    pub open spec fn block_size(&self, k: nat) -> int {
        self.spec_min_block() * pow2(k)
    }

    /// The arena parameters agree.
    pub open spec fn same_arena(&self, other: &Self) -> bool {
        &&& self.spec_base() == other.spec_base()
        &&& self.spec_heap_size() == other.spec_heap_size()
        &&& self.spec_min_block() == other.spec_min_block()
        &&& self.spec_max_order() == other.spec_max_order()
        &&& self.spec_offset() == other.spec_offset()
        &&& self.spec_top() == other.spec_top()
        &&& self.spec_nslots() == other.spec_nslots()
    }

    /// Every block handed out by `self` is still handed out by `other`, with
    /// its order.
    pub open spec fn keeps_live(&self, other: &Self) -> bool {
        forall|p: int| #[trigger] self.is_live(p) ==> other.is_live(p) && other.live_order(p) == self.live_order(p)
    }

    /// Bytes a request for `layout` needs: the size rounded up to the
    /// alignment, plus the header, rounded up to eight.
    pub open spec fn needed_bytes(layout: Layout) -> int {
        round_up(round_up(layout.spec_size() as int, layout.spec_align() as int) + BLOCK_HEADER_SIZE, 8)
    }

    /// The order of block a request for `layout` takes, or -1 where it asks
    /// for more than the arena holds after its offset or than the largest
    /// order.
    pub open spec fn request_order(&self, layout: Layout) -> int {
        let needed = Self::needed_bytes(layout);
        if needed > self.spec_heap_size() - self.spec_offset() {
            -1
        } else {
            let ratio = (needed + self.spec_min_block() - 1) / (self.spec_min_block() as int);
            let k = ceil_log2(ratio);
            if k > self.spec_max_order() {
                -1
            } else {
                k as int
            }
        }
    }

    /// The order the in-place resize needs: the smallest whose block holds
    /// `new_size` bytes after the header, rounded up to eight.
    pub open spec fn inplace_order(&self, new_size: int) -> int {
        let needed = round_up(new_size + BLOCK_HEADER_SIZE, 8);
        ceil_log2((needed + self.spec_min_block() - 1) / (self.spec_min_block() as int)) as int
    }

    /// Every block handed out by `self`, but the one at `ptr`, is still
    /// handed out by `other`, with its order.
    pub open spec fn keeps_live_but(&self, other: &Self, ptr: int) -> bool {
        forall|p: int| #[trigger] self.is_live(p) && p != ptr ==> other.is_live(p) && other.live_order(p) == self.live_order(p)
    }

    /// What resizing the allocation at `ptr` for `layout` to `new_size`
    /// bytes leaves, `fin`, and returns, `r`: the same address when the
    /// rounded-down order of the new size does not exceed the block's, or
    /// when the block grows in place to it; otherwise a new block for the
    /// new size (0 when there is none, the old block kept) that receives the
    /// smaller of the two sizes in bytes, the old block being returned.
    pub open spec fn realloc_outcome(&self, fin: Self, ptr: usize, layout: Layout, new_size: usize, r: usize) -> bool {
        let s = self.slot_of(ptr as int);
        let cur = self.live_order(ptr as int) as int;
        let t = self.inplace_order(new_size as int);
        let maxo = self.spec_max_order() as int;
        let n = self.spec_nslots() as int;
        if t <= cur {
            &&& r == ptr
            &&& fin.lists_view() == self.lists_view()
            &&& fin.memory_view() == self.memory_view()
            &&& self.keeps_live(&fin)
        } else {
            let ex = expand_result(self.lists_view(), s, cur, t, maxo, n);
            let l1 = ex.0;
            let k1 = ex.1;
            if ex.2 {
                &&& r == ptr
                &&& fin.lists_view() == l1
                &&& fin.memory_view() == self.memory_view()
                &&& fin.is_live(ptr as int)
                &&& fin.live_order(ptr as int) == t
                &&& self.keeps_live_but(&fin, ptr as int)
            } else {
                let nl = Layout::spec_new(new_size, layout.spec_align());
                let t2 = self.request_order(nl);
                let j = if t2 < 0 { -1 } else { first_nonempty(l1, t2, maxo) };
                if j < 0 {
                    &&& r == 0
                    &&& fin.lists_view() == l1
                    &&& fin.memory_view() == self.memory_view()
                    &&& fin.is_live(ptr as int)
                    &&& fin.live_order(ptr as int) == k1
                    &&& self.keeps_live_but(&fin, ptr as int)
                } else {
                    let s2 = l1[j].last() as int;
                    let len = if layout.spec_size() < new_size { layout.spec_size() } else { new_size };
                    &&& r == self.data_addr(s2)
                    &&& fin.lists_view() == merge_lists(split_lists(l1, j, t2, s2), s, k1, maxo, n)
                    &&& fin.memory_view() == copied(
                        self.memory_view(),
                        ptr - self.spec_base(),
                        r - self.spec_base(),
                        len as int,
                    )
                    &&& fin.is_live(r as int)
                    &&& !self.is_live(r as int)
                    &&& fin.live_order(r as int) == t2
                    &&& !fin.is_live(ptr as int)
                    &&& self.keeps_live_but(&fin, ptr as int)
                }
            }
        }
    }

    pub closed spec fn wf(&self) -> bool {
        &&& self.min_block >= BLOCK_HEADER_SIZE
        &&& is_power_of_two(self.min_block as int)
        &&& self.max_order < 64
        &&& self.max_order == max_order_for(self.heap_size as int, self.min_block as int)
        &&& self.pows@.len() == self.max_order + 1
        &&& forall|k: int| 0 <= k <= self.max_order ==> #[trigger] self.pows@[k] == pow2(k as nat)
        &&& self.min_block * pow2(self.max_order as nat) <= self.heap_size
        &&& self.base + self.heap_size <= usize::MAX
        &&& self.heap_size + self.min_block <= usize::MAX
        &&& self.memory@.len() == self.heap_size
        &&& self.offset == offset_for(self.base as int, self.heap_size as int, self.min_block as int)
        &&& self.top == top_for(self.base as int, self.heap_size as int, self.min_block as int)
        &&& self.top <= self.max_order
        &&& self.nslots == pow2(self.top as nat)
        &&& self.offset + self.nslots * self.min_block <= self.heap_size
        &&& self.orders@.len() == self.nslots
        &&& self.frees@.len() == self.nslots
        &&& self.lists@.len() == self.max_order + 1
        &&& if self.initialized {
            &&& blocks_ok(self.starts@, self.owner@, self.orders@, self.nslots as int, self.top as int)
            &&& lists_ok(
                self.lists_view(),
                self.starts@,
                self.orders@,
                self.frees@,
                self.nslots as int,
                self.max_order as int,
            )
        } else {
            &&& self.starts@ == Set::<int>::empty()
            &&& forall|k: int| 0 <= k <= self.max_order ==> (#[trigger] self.lists@[k])@.len() == 0
            &&& forall|x: int| 0 <= x < self.nslots ==> !(#[trigger] self.frees@[x])
        }
    }

    /// An allocator for the arena of `heap_size` bytes at `base`, in blocks
    /// of at least `min_block` bytes; its largest order is
    /// `ilog2(heap_size / min_block)`. Nothing is set up before the first
    /// request.
    pub fn new(base: usize, heap_size: usize, min_block: usize) -> (r: Self)
        requires
            arena_ok(base as int, heap_size as int, min_block as int),
        ensures
            r.wf(),
            !r.is_initialized(),
            r.spec_base() == base,
            r.spec_heap_size() == heap_size,
            r.spec_min_block() == min_block,
            r.spec_max_order() == max_order_for(heap_size as int, min_block as int),
            r.spec_offset() == offset_for(base as int, heap_size as int, min_block as int),
            r.spec_top() == top_for(base as int, heap_size as int, min_block as int),
            r.spec_nslots() == pow2(r.spec_top() as nat),
            r.memory_view() == Seq::new(heap_size as nat, |i: int| 0u8),
    {
        proof {
            let k = choose|k: nat| k < 64 && pow2(k) == min_block;
            lemma_pow2_double(k);
            assert(heap_size / min_block >= 1) by (nonlinear_arith)
                requires
                    heap_size >= min_block,
                    min_block > 0,
            ;
        }
        let max_order = ilog2(heap_size / min_block);
        proof {
            assert(is_floor_log2(max_order as nat, (heap_size / min_block) as int));
            lemma_floor_log2_unique(max_order as nat, max_order_for(heap_size as int, min_block as int), (heap_size / min_block) as int);
        }
        // powers of two up to the largest order
        let mut pows: Vec<usize> = Vec::new();
        let mut p: usize = 1;
        let mut i: usize = 0;
        proof {
            vstd::arithmetic::power2::lemma2_to64();
        }
        pows.push(p);
        while i < max_order
            invariant
                i <= max_order,
                max_order < 64,
                pows@.len() == i + 1,
                min_block > 0,
                p == pow2(i as nat),
                pow2(max_order as nat) <= heap_size / min_block,
                forall|k: int| 0 <= k <= i ==> #[trigger] pows@[k] == pow2(k as nat),
            decreases max_order - i,
        {
            proof {
                lemma_pow2_double(i as nat);
                lemma_pow2_mono(i as nat + 1, max_order as nat);
                assert(p * 2 <= heap_size / min_block);
            }
            p = p * 2;
            i = i + 1;
            pows.push(p);
        }
        let pmax = pows[max_order];
        proof {
            lemma_pow2_double(max_order as nat);
            assert(min_block * pmax <= heap_size) by (nonlinear_arith)
                requires
                    pmax <= heap_size / min_block,
                    min_block > 0,
            ;
        }
        let maxblk = min_block * pmax;
        proof {
            assert(maxblk >= 1) by (nonlinear_arith)
                requires
                    maxblk == min_block * pmax,
                    min_block > 0,
                    pmax > 0,
            ;
        }
        let aligned = round_up_exec(base, maxblk);
        let offset = aligned - base;
        proof {
            assert(offset == offset_for(base as int, heap_size as int, min_block as int));
            assert(heap_size - offset >= min_block);
            assert((heap_size - offset) as int / (min_block as int) >= 1) by (nonlinear_arith)
                requires
                    heap_size - offset >= min_block,
                    min_block > 0,
            ;
        }
        let avail = (heap_size - offset) / min_block;
        let top = ilog2(avail);
        proof {
            assert(is_floor_log2(top as nat, avail as int));
            lemma_floor_log2_unique(top as nat, top_for(base as int, heap_size as int, min_block as int), avail as int);
            assert(avail <= heap_size / min_block) by (nonlinear_arith)
                requires
                    avail == (heap_size - offset) as int / (min_block as int),
                    offset >= 0,
                    min_block > 0,
            ;
            if top > max_order {
                lemma_pow2_mono(max_order as nat + 1, top as nat);
                assert(false);
            }
        }
        let nslots = pows[top];
        proof {
            assert(offset + nslots * min_block <= heap_size) by (nonlinear_arith)
                requires
                    nslots <= avail,
                    avail == (heap_size - offset) as int / (min_block as int),
                    min_block > 0,
                    offset <= heap_size,
            ;
        }
        let mut orders: Vec<usize> = Vec::new();
        let mut frees: Vec<bool> = Vec::new();
        let mut j: usize = 0;
        while j < nslots
            invariant
                j <= nslots,
                orders@.len() == j,
                frees@.len() == j,
                forall|x: int| 0 <= x < j ==> !(#[trigger] frees@[x]),
            decreases nslots - j,
        {
            orders.push(0);
            frees.push(false);
            j = j + 1;
        }
        let mut lists: Vec<Vec<usize>> = Vec::new();
        let mut k: usize = 0;
        while k <= max_order
            invariant
                k <= max_order + 1,
                max_order < 64,
                lists@.len() == k,
                forall|x: int| 0 <= x < k ==> (#[trigger] lists@[x])@.len() == 0,
            decreases max_order + 1 - k,
        {
            lists.push(Vec::new());
            k = k + 1;
        }
        let mut memory: Vec<u8> = Vec::new();
        let mut m: usize = 0;
        while m < heap_size
            invariant
                m <= heap_size,
                memory@ == Seq::new(m as nat, |i: int| 0u8),
            decreases heap_size - m,
        {
            memory.push(0);
            m = m + 1;
        }
        BuddyAllocatorImpl {
            base,
            heap_size,
            min_block,
            max_order,
            offset,
            top,
            nslots,
            initialized: false,
            orders,
            frees,
            lists,
            pows,
            memory,
            starts: Ghost(Set::empty()),
            owner: Ghost(Seq::new(nslots as nat, |x: int| 0)),
        }
    }

    /// Sets up the first block as the one free block of its order.
    fn init(&mut self)
        requires
            old(self).wf(),
            !old(self).is_initialized(),
        ensures
            final(self).wf(),
            final(self).is_initialized(),
            final(self).same_arena(old(self)),
            final(self).memory_view() == old(self).memory_view(),
            final(self).lists_view() == fresh_lists(old(self).spec_max_order() as int, old(self).spec_top() as int),
    {
        let top = self.top;
        proof {
            lemma_pow2_double(top as nat);
        }
        self.orders.set(0, top);
        self.frees.set(0, true);
        let ghost lv0 = self.lists_view();
        proof {
            assert forall|k: int| 0 <= k <= self.max_order implies lv0[k] =~= Seq::<usize>::empty() by {
                assert(self.lists@[k]@.len() == 0);
            }
        }
        self.lists[top].push(0);
        self.initialized = true;
        self.starts = Ghost(Set::empty().insert(0int));
        self.owner = Ghost(Seq::new(self.nslots as nat, |x: int| 0int));
        proof {
            let n = self.nslots as int;
            let maxo = self.max_order as int;
            assert(self.lists_view() =~= lv0.update(top as int, lv0[top as int].push(0usize)));
            assert(self.lists_view() =~= fresh_lists(maxo, top as int));
            let lv = self.lists_view();
            let st = self.starts@;
            let ord = self.orders@;
            let fr = self.frees@;
            assert(ord[0] == top);
            assert(0int % (pow2(top as nat) as int) == 0);
            assert forall|x: int| 0 <= x < n implies {
                &&& st.contains(#[trigger] self.owner@[x])
                &&& self.owner@[x] <= x
                &&& x < self.owner@[x] + pow2(ord[self.owner@[x]] as nat)
            } by {}
            assert(blocks_ok(st, self.owner@, ord, n, top as int));
            assert forall|k: int, i: int|
                #![trigger lv[k][i]]
                0 <= k < lv.len() && 0 <= i < lv[k].len() implies {
                    &&& lv[k][i] < n
                    &&& st.contains(lv[k][i] as int)
                    &&& ord[lv[k][i] as int] == k
                    &&& fr[lv[k][i] as int]
                } by {}
            assert forall|x: int| 0 <= x < n && #[trigger] fr[x] implies {
                &&& st.contains(x)
                &&& ord[x] <= maxo
                &&& lv[ord[x] as int].contains(x as usize)
            } by {
                assert(x == 0);
                assert(lv[top as int][0] == 0usize);
            }
            assert(lists_ok(lv, st, ord, fr, n, maxo));
        }
    }

    /// Takes the last block off the free list of order `k`, if there is one.
    fn pop_from_free_list(&mut self, k: usize) -> (r: Option<usize>)
        requires
            old(self).wf(),
            old(self).is_initialized(),
            k <= old(self).spec_max_order(),
        ensures
            final(self).wf(),
            final(self).is_initialized(),
            final(self).same_arena(old(self)),
            final(self).memory_view() == old(self).memory_view(),
            old(self).keeps_live(final(self)),
            old(self).lists_view()[k as int].len() == 0 ==> r is None && final(self).lists_view() == old(self).lists_view(),
            old(self).lists_view()[k as int].len() > 0 ==> ({
                let s = old(self).lists_view()[k as int].last() as int;
                &&& r == Some(s as usize)
                &&& final(self).lists_view() == old(self).lists_view().update(k as int, old(self).lists_view()[k as int].drop_last())
                &&& 0 <= s < final(self).spec_nslots()
                &&& final(self).is_block(s)
                &&& !final(self).free_at(s)
                &&& old(self).free_at(s)
                &&& final(self).order_at(s) == k
            }),
    {
        let len = self.lists[k].len();
        if len == 0 {
            return None;
        }
        let ghost lv0 = self.lists_view();
        proof {
            lemma_pop(self.starts@, self.owner@, self.orders@, self.frees@, lv0, self.nslots as int, self.top as int, self.max_order as int, k as int);
        }
        let s = self.lists[k][len - 1];
        self.lists[k].pop();
        self.frees.set(s, false);
        proof {
            assert(self.lists_view() =~= lv0.update(k as int, lv0[k as int].drop_last()));
        }
        Some(s)
    }

    /// Puts the taken block at slot `s` on the free list of its order.
    fn add_to_free_list(&mut self, s: usize)
        requires
            old(self).wf(),
            old(self).is_initialized(),
            s < old(self).spec_nslots(),
            old(self).is_block(s as int),
            !old(self).free_at(s as int),
        ensures
            final(self).wf(),
            final(self).is_initialized(),
            final(self).same_arena(old(self)),
            final(self).memory_view() == old(self).memory_view(),
            final(self).lists_view() == old(self).lists_view().update(
                old(self).order_at(s as int) as int,
                old(self).lists_view()[old(self).order_at(s as int) as int].push(s),
            ),
            final(self).is_block(s as int),
            final(self).free_at(s as int),
            forall|x: int| #[trigger] final(self).is_block(x) == old(self).is_block(x),
            forall|p: int| #[trigger] old(self).is_live(p) && old(self).slot_of(p) != s ==> final(self).is_live(p)
                && final(self).live_order(p) == old(self).live_order(p),
    {
        let k = self.orders[s];
        let ghost lv0 = self.lists_view();
        proof {
            lemma_push(self.starts@, self.owner@, self.orders@, self.frees@, lv0, self.nslots as int, self.top as int, self.max_order as int, s as int);
        }
        self.lists[k].push(s);
        self.frees.set(s, true);
        proof {
            assert(self.lists_view() =~= lv0.update(k as int, lv0[k as int].push(s)));
        }
    }

    /// Finds a free block of order `order`: the last one of the lowest
    /// non-empty free list from `order` up, split down to `order`.
    fn find_block(&mut self, order: usize) -> (r: Option<usize>)
        requires
            old(self).wf(),
            old(self).is_initialized(),
            order <= old(self).spec_max_order(),
        ensures
            final(self).wf(),
            final(self).is_initialized(),
            final(self).same_arena(old(self)),
            final(self).memory_view() == old(self).memory_view(),
            old(self).keeps_live(final(self)),
            ({
                let lv = old(self).lists_view();
                let j = first_nonempty(lv, order as int, old(self).spec_max_order() as int);
                if j < 0 {
                    r is None && final(self).lists_view() == lv
                } else {
                    let s = lv[j].last() as int;
                    &&& r == Some(s as usize)
                    &&& final(self).lists_view() == split_lists(lv, j, order as int, s)
                    &&& 0 <= s < final(self).spec_nslots()
                    &&& final(self).is_block(s)
                    &&& !final(self).free_at(s)
                    &&& old(self).free_at(s)
                    &&& final(self).order_at(s) == order
                }
            }),
    {
        let ghost lv0 = self.lists_view();
        let ghost maxo = self.max_order as int;
        let mut h = order;
        while h <= self.max_order
            invariant
                *self == *old(self),
                self.wf(),
                self.is_initialized(),
                order <= h <= self.max_order + 1,
                lv0 == self.lists_view(),
                maxo == self.max_order,
                first_nonempty(lv0, order as int, maxo) == first_nonempty(lv0, h as int, maxo),
            decreases self.max_order + 1 - h,
        {
            if self.lists[h].len() > 0 {
                assert(first_nonempty(lv0, h as int, maxo) == h);
                let popped = self.pop_from_free_list(h);
                let s = match popped {
                    Some(s) => s,
                    None => {
                        assert(false);
                        0
                    }
                };
                let ghost mid = *self;
                let mut cur = h;
                proof {
                    assert(self.lists_view() =~= split_lists(lv0, h as int, h as int, s as int));
                }
                while cur > order
                    invariant
                        self.wf(),
                        self.is_initialized(),
                        self.same_arena(old(self)),
                        self.memory_view() == old(self).memory_view(),
                        old(self).keeps_live(self),
                        order <= cur <= h,
                        h <= self.max_order,
                        s < self.spec_nslots(),
                        lv0 == old(self).lists_view(),
                        lv0[h as int].len() > 0,
                        s == lv0[h as int].last(),
                        old(self).free_at(s as int),
                        self.is_block(s as int),
                        !self.free_at(s as int),
                        self.order_at(s as int) == cur,
                        self.lists_view() == split_lists(lv0, h as int, cur as int, s as int),
                    decreases cur,
                {
                    let ghost prev = *self;
                    cur = cur - 1;
                    let half = self.pows[cur];
                    proof {
                        lemma_split(self.starts@, self.owner@, self.orders@, self.frees@, self.lists_view(), self.nslots as int, self.top as int, self.max_order as int, s as int, cur as int);
                        lemma_pow2_double(cur as nat);
                    }
                    let b = s + half;
                    let ghost lv1 = self.lists_view();
                    self.orders.set(b, cur);
                    self.frees.set(b, true);
                    self.lists[cur].push(b);
                    self.orders.set(s, cur);
                    self.starts = Ghost(self.starts@.insert(b as int));
                    self.owner = Ghost(owner_after(self.owner@, b as int, half as int, b as int));
                    proof {
                        assert(self.lists_view() =~= lv1.update(cur as int, lv1[cur as int].push(b)));
                        assert(self.orders@ =~= prev.orders@.update(s as int, cur).update(b as int, cur));
                        assert(self.lists_view() =~= split_lists(lv0, h as int, cur as int, s as int));
                        assert forall|p: int| #[trigger] old(self).is_live(p) implies self.is_live(p)
                            && self.live_order(p) == old(self).live_order(p) by {
                            assert(prev.is_live(p));
                            let t = self.slot_of(p);
                            assert(t != s as int);
                            assert(t != b as int);
                        }
                    }
                }
                return Some(s);
            }
            h = h + 1;
        }
        None
    }

    /// Index of the free block `b` in the list of order `k`.
    fn index_in_list(&self, k: usize, b: usize) -> (r: usize)
        requires
            k < self.lists@.len(),
            self.lists_view()[k as int].contains(b),
        ensures
            r < self.lists_view()[k as int].len(),
            self.lists_view()[k as int][r as int] == b,
    {
        let mut i: usize = 0;
        let len = self.lists[k].len();
        proof {
            assert(self.lists@[k as int]@ == self.lists_view()[k as int]);
        }
        while i < len
            invariant
                i <= len,
                len == self.lists_view()[k as int].len(),
                k < self.lists@.len(),
                self.lists_view()[k as int].contains(b),
                self.lists@[k as int]@ == self.lists_view()[k as int],
                forall|j: int| 0 <= j < i ==> self.lists_view()[k as int][j] != b,
            decreases len - i,
        {
            if self.lists[k][i] == b {
                return i;
            }
            i = i + 1;
        }
        assert(false);
        0
    }

    /// Joins the taken block at slot `s` with its free buddy, and the joined
    /// block with its own, while the order is below the largest; the block
    /// that results goes on its free list.
    fn merge_block(&mut self, s: usize)
        requires
            old(self).wf(),
            old(self).is_initialized(),
            s < old(self).spec_nslots(),
            old(self).is_block(s as int),
            !old(self).free_at(s as int),
        ensures
            final(self).wf(),
            final(self).is_initialized(),
            final(self).same_arena(old(self)),
            final(self).memory_view() == old(self).memory_view(),
            final(self).lists_view() == merge_lists(
                old(self).lists_view(),
                s as int,
                old(self).order_at(s as int) as int,
                old(self).spec_max_order() as int,
                old(self).spec_nslots() as int,
            ),
            !(final(self).is_block(s as int) && !final(self).free_at(s as int)),
            forall|p: int| #[trigger] old(self).is_live(p) && old(self).slot_of(p) != s ==> final(self).is_live(p)
                && final(self).live_order(p) == old(self).live_order(p),
    {
        let ghost target = merge_lists(
            self.lists_view(),
            s as int,
            self.orders@[s as int] as int,
            self.max_order as int,
            self.nslots as int,
        );
        assert(target == merge_lists(
                old(self).lists_view(),
                s as int,
                old(self).order_at(s as int) as int,
                old(self).spec_max_order() as int,
                old(self).spec_nslots() as int,
            ));
        let mut p = s;
        loop
            invariant
                self.wf(),
                self.is_initialized(),
                self.same_arena(old(self)),
                self.memory_view() == old(self).memory_view(),
                target == merge_lists(
                    old(self).lists_view(),
                    s as int,
                    old(self).order_at(s as int) as int,
                    old(self).spec_max_order() as int,
                    old(self).spec_nslots() as int,
                ),
                p < self.spec_nslots(),
                self.is_block(p as int),
                !self.free_at(p as int),
                p == s || !self.is_block(s as int),
                target == merge_lists(
                    self.lists_view(),
                    p as int,
                    self.order_at(p as int) as int,
                    self.spec_max_order() as int,
                    self.spec_nslots() as int,
                ),
                forall|q: int| #[trigger] old(self).is_live(q) && old(self).slot_of(q) != s ==> self.is_live(q)
                    && self.live_order(q) == old(self).live_order(q) && self.slot_of(q) != p,
            decreases self.spec_max_order() - self.order_at(p as int),
        {
            let k = self.orders[p];
            proof {
                assert(self.starts@.contains(p as int));
            }
            if k >= self.max_order {
                proof {
                    let lv = self.lists_view();
                    assert(merge_lists(lv, p as int, k as int, self.max_order as int, self.nslots as int)
                        == lv.update(k as int, lv[k as int].push(p)));
                }
                let ghost before = *self;
                self.add_to_free_list(p);
                proof {
                    assert(before.order_at(p as int) == k);
                    assert(self.lists_view() == target);
                }
                return;
            }
            let half = self.pows[k];
            proof {
                lemma_pow2_double(k as nat);
                crate::arith::lemma_buddy_parent(p as int, half as int);
            }
            let b = if (p / half) % 2 == 0 {
                p + half
            } else {
                p - half
            };
            if b >= self.nslots || !self.frees[b] || self.orders[b] != k {
                proof {
                    if b < self.nslots && self.lists_view()[k as int].contains(b) {
                        let j = choose|j: int| 0 <= j < self.lists_view()[k as int].len() && self.lists_view()[k as int][j] == b;
                        assert(self.lists_view()[k as int][j] == b);
                    }
                    let lv = self.lists_view();
                    assert(b == buddy_slot(p as int, pow2(k as nat) as int));
                    assert(merge_lists(lv, p as int, k as int, self.max_order as int, self.nslots as int)
                        == lv.update(k as int, lv[k as int].push(p)));
                }
                let ghost before = *self;
                self.add_to_free_list(p);
                proof {
                    assert(before.order_at(p as int) == k);
                    assert(self.lists_view() == target);
                }
                return;
            }
            let ghost prev = *self;
            let ghost lv1 = self.lists_view();
            proof {
                lemma_merge(self.starts@, self.owner@, self.orders@, self.frees@, lv1, self.nslots as int, self.top as int, self.max_order as int, p as int, k as int, b as int);
            }
            let bi = self.index_in_list(k, b);
            proof {
                assert(lv1[k as int].no_duplicates());
                assert(lv1[k as int].index_of(b) == bi as int);
            }
            self.lists[k].remove(bi);
            self.frees.set(b, false);
            let q = if p < b { p } else { b };
            let r = if p < b { b } else { p };
            self.orders.set(q, k + 1);
            self.starts = Ghost(self.starts@.remove(r as int));
            self.owner = Ghost(owner_after(self.owner@, q as int, 2 * half as int, q as int));
            proof {
                assert(self.lists_view() =~= lv1.update(k as int, lv1[k as int].remove(bi as int)));
                assert(self.orders@ =~= prev.orders@.update(q as int, (k + 1) as usize));
                assert forall|z: int| #[trigger] old(self).is_live(z) && old(self).slot_of(z) != s implies self.is_live(z)
                    && self.live_order(z) == old(self).live_order(z) && self.slot_of(z) != q by {
                    assert(prev.is_live(z));
                    let t = self.slot_of(z);
                    assert(t != p as int);
                    assert(t != b as int);
                }
            }
            p = q;
        }
    }

    /// Allocates a block for `layout`; 0 where none is free. The first call
    /// sets the allocator up.
    pub fn allocate(&mut self, layout: Layout) -> (r: usize)
        requires
            old(self).wf(),
            layout.wf(),
        ensures
            final(self).wf(),
            final(self).is_initialized(),
            final(self).same_arena(old(self)),
            final(self).memory_view() == old(self).memory_view(),
            old(self).keeps_live(final(self)),
            ({
                let pre = old(self).lists_before_use();
                let t = old(self).request_order(layout);
                let j = if t < 0 { -1 } else { first_nonempty(pre, t, old(self).spec_max_order() as int) };
                if j < 0 {
                    r == 0 && final(self).lists_view() == pre
                } else {
                    let s = pre[j].last() as int;
                    &&& r == old(self).data_addr(s)
                    &&& final(self).lists_view() == split_lists(pre, j, t, s)
                    &&& final(self).is_live(r as int)
                    &&& final(self).live_order(r as int) == t
                    &&& !old(self).is_live(r as int)
                }
            }),
    {
        if !self.initialized {
            self.init();
        }
        let ghost pre = self.lists_view();
        let ghost mid = *self;
        proof {
            layout.lemma_wf();
            let k = choose|k: nat| k < 64 && pow2(k) == self.min_block;
            lemma_pow2_double(k);
        }
        let size = round_up_exec(layout.size(), layout.align());
        let needed = round_up_exec(size + BLOCK_HEADER_SIZE, 8);
        let usable = self.heap_size - self.offset;
        if needed > usable {
            return 0;
        }
        let ratio = (needed + (self.min_block - 1)) / self.min_block;
        proof {
            assert(ratio >= 1) by (nonlinear_arith)
                requires
                    ratio == (needed + (self.min_block - 1)) / (self.min_block as int),
                    needed >= 16,
                    self.min_block >= 16,
            ;
        }
        let fl = ilog2(ratio);
        let pfl = crate::buddy::types::block_bytes(1, fl);
        let mut order = fl;
        if pfl < ratio {
            order = order + 1;
        }
        proof {
            lemma_pow2_double(fl as nat);
            assert(is_ceil_log2(order as nat, ratio as int)) by {
                if order > 0 && order == fl {
                    lemma_pow2_double((fl - 1) as nat);
                }
            }
            lemma_ceil_log2_unique(order as nat, ceil_log2(ratio as int), ratio as int);
            assert(order as int == ceil_log2(ratio as int));
        }
        if order > self.max_order {
            return 0;
        }
        let found = self.find_block(order);
        match found {
            None => 0,
            Some(s) => {
                proof {
                    assert(s < self.nslots);
                    assert(self.offset + s * self.min_block + self.min_block <= self.offset + self.nslots * self.min_block) by (nonlinear_arith)
                        requires
                            s < self.nslots,
                    ;
                }
                let addr = self.base + self.offset + s * self.min_block + BLOCK_HEADER_SIZE;
                proof {
                    assert((addr - BLOCK_HEADER_SIZE - self.base - self.offset) as int == s * self.min_block);
                    assert(s * self.min_block == self.min_block * s) by (nonlinear_arith);
                    vstd::arithmetic::div_mod::lemma_mod_multiples_basic(s as int, self.min_block as int);
                    vstd::arithmetic::div_mod::lemma_div_multiples_vanish(s as int, self.min_block as int);
                    assert(self.slot_of(addr as int) == s);
                    if mid.is_live(addr as int) {
                        assert(mid.slot_of(addr as int) == s);
                    }
                }
                addr
            },
        }
    }

    /// A live address is the data address of its slot.
    pub proof fn lemma_live_addr(&self, p: int)
        requires
            self.wf(),
            self.is_live(p),
        ensures
            p == self.data_addr(self.slot_of(p)),
    {
        let m = self.spec_min_block() as int;
        let d = p - BLOCK_HEADER_SIZE - self.spec_base() - self.spec_offset();
        vstd::arithmetic::div_mod::lemma_fundamental_div_mod(d, m);
        assert(d == m * (d / m));
        assert(d == (d / m) * m) by (nonlinear_arith)
            requires
                d == m * (d / m),
        ;
    }

    /// Returns the block whose data starts at `ptr` to the allocator, joining
    /// it with free buddies; a null `ptr` is ignored.
    pub fn dealloc(&mut self, ptr: usize, layout: Layout)
        requires
            old(self).wf(),
            ptr == 0 || old(self).is_live(ptr as int),
        ensures
            final(self).wf(),
            final(self).same_arena(old(self)),
            final(self).memory_view() == old(self).memory_view(),
            final(self).is_initialized() == old(self).is_initialized(),
            ptr == 0 ==> final(self).lists_view() == old(self).lists_view(),
            ptr != 0 ==> final(self).lists_view() == merge_lists(
                old(self).lists_view(),
                old(self).slot_of(ptr as int),
                old(self).live_order(ptr as int) as int,
                old(self).spec_max_order() as int,
                old(self).spec_nslots() as int,
            ),
            ptr != 0 ==> !final(self).is_live(ptr as int),
            forall|p: int| #[trigger] old(self).is_live(p) && p != ptr ==> final(self).is_live(p)
                && final(self).live_order(p) == old(self).live_order(p),
    {
        if ptr == 0 {
            return;
        }
        let s = (ptr - BLOCK_HEADER_SIZE - self.base - self.offset) / self.min_block;
        proof {
            assert forall|p: int| #[trigger] old(self).is_live(p) && p != ptr implies old(self).slot_of(p) != s by {
                self.lemma_live_addr(p);
                self.lemma_live_addr(ptr as int);
            }
        }
        self.merge_block(s);
    }

    /// Resizes the allocation at `ptr`, which was made for `layout`, to
    /// `new_size` bytes.
    pub fn realloc(&mut self, ptr: usize, layout: Layout, new_size: usize) -> (r: usize)
        requires
            old(self).wf(),
            old(self).is_live(ptr as int),
            layout.wf(),
            Layout::valid(new_size as int, layout.spec_align() as int),
            round_up(new_size + BLOCK_HEADER_SIZE, 8) + old(self).spec_min_block() - 1 <= usize::MAX,
            ptr + (if layout.spec_size() < new_size { layout.spec_size() } else { new_size })
                <= old(self).spec_base() + old(self).spec_heap_size(),
        ensures
            final(self).wf(),
            final(self).same_arena(old(self)),
            old(self).realloc_outcome(*final(self), ptr, layout, new_size, r),
    {
        self.realloc_inplace(ptr, layout, new_size)
    }

    /// A live block lies inside the arena.
    pub proof fn lemma_live_block_in_arena(&self, p: int)
        requires
            self.wf(),
            self.is_live(p),
        ensures
            self.block_addr(self.slot_of(p)) + self.block_size(self.live_order(p)) <= self.spec_base()
                + self.spec_heap_size(),
            p == self.block_addr(self.slot_of(p)) + BLOCK_HEADER_SIZE,
            p >= self.spec_base() + BLOCK_HEADER_SIZE,
            self.block_size(self.live_order(p)) >= self.spec_min_block(),
            p <= self.spec_base() + self.spec_heap_size(),
    {
        self.lemma_live_addr(p);
        let s = self.slot_of(p);
        let k = self.live_order(p);
        assert(self.starts@.contains(s));
        assert(s + pow2(k) <= self.nslots);
        let m = self.min_block as int;
        assert((s + pow2(k)) * m <= self.nslots * m) by (nonlinear_arith)
            requires
                s + pow2(k) <= self.nslots,
                m > 0,
        ;
        assert(s * m + m * pow2(k) == (s + pow2(k)) * m) by (nonlinear_arith);
        lemma_pow2_double(k);
        assert(m * pow2(k) >= m) by (nonlinear_arith)
            requires
                pow2(k) >= 1,
                m > 0,
        ;
    }

    /// A block of the order that a request takes holds what it needs.
    pub proof fn lemma_request_capacity(&self, layout: Layout)
        requires
            self.wf(),
            layout.wf(),
            self.request_order(layout) >= 0,
        ensures
            self.block_size(self.request_order(layout) as nat) >= Self::needed_bytes(layout),
            Self::needed_bytes(layout) >= round_up(layout.spec_size() as int, layout.spec_align() as int) + BLOCK_HEADER_SIZE,
            round_up(layout.spec_size() as int, layout.spec_align() as int) >= layout.spec_size(),
    {
        layout.lemma_wf();
        let needed = Self::needed_bytes(layout);
        let sz = round_up(layout.spec_size() as int, layout.spec_align() as int);
        crate::buddy::types::round_up_lower(sz + BLOCK_HEADER_SIZE, 8);
        let m = self.min_block as int;
        let ratio = (needed + m - 1) / m;
        let k = ceil_log2(ratio);
        let kk = choose|kk: nat| kk < 64 && pow2(kk) == self.min_block;
        lemma_pow2_double(kk);
        crate::buddy::types::round_up_lower(needed, m);
        vstd::arithmetic::div_mod::lemma_fundamental_div_mod(needed + m - 1, m);
        assert(ratio * m >= needed) by (nonlinear_arith)
            requires
                needed + m - 1 == m * ratio + (needed + m - 1) % m,
                (needed + m - 1) % m < m,
        ;
        assert(ratio >= 1) by (nonlinear_arith)
            requires
                ratio * m >= needed,
                needed >= 16,
                m > 0,
        ;
        // ceil_log2(ratio) exists: some power of two reaches ratio
        let mut e: nat = 0;
        assert(exists|k2: nat| is_ceil_log2(k2, ratio)) by {
            let f = floor_log2(ratio);
            assert(exists|k3: nat| is_floor_log2(k3, ratio)) by {
                let w = crate::arith::ilog2_spec_witness(ratio);
            }
            lemma_pow2_double(f);
            if pow2(f) == ratio {
                if f > 0 {
                    lemma_pow2_double((f - 1) as nat);
                }
                assert(is_ceil_log2(f, ratio));
            } else {
                assert(is_ceil_log2(f + 1, ratio));
            }
        }
        assert(pow2(k) >= ratio);
        assert(m * pow2(k) >= needed) by (nonlinear_arith)
            requires
                pow2(k) >= ratio,
                ratio * m >= needed,
                m > 0,
        ;
    }

    /// A live block whose order is at least the in-place order of
    /// `new_size` holds `new_size` bytes after its header, inside the arena.
    pub proof fn lemma_inplace_capacity(&self, p: int, new_size: int)
        requires
            self.wf(),
            self.is_live(p),
            new_size >= 0,
            self.inplace_order(new_size) <= self.live_order(p),
        ensures
            p + new_size <= self.spec_base() + self.spec_heap_size(),
    {
        self.lemma_live_block_in_arena(p);
        let needed = round_up(new_size + BLOCK_HEADER_SIZE, 8);
        crate::buddy::types::round_up_lower(new_size + BLOCK_HEADER_SIZE, 8);
        let m = self.min_block as int;
        let ratio = (needed + m - 1) / m;
        let k = ceil_log2(ratio);
        let kk = choose|kk: nat| kk < 64 && pow2(kk) == self.min_block;
        lemma_pow2_double(kk);
        vstd::arithmetic::div_mod::lemma_fundamental_div_mod(needed + m - 1, m);
        assert(ratio * m >= needed) by (nonlinear_arith)
            requires
                needed + m - 1 == m * ratio + (needed + m - 1) % m,
                (needed + m - 1) % m < m,
        ;
        assert(ratio >= 1) by (nonlinear_arith)
            requires
                ratio * m >= needed,
                needed >= 16,
                m > 0,
        ;
        assert(exists|k2: nat| is_ceil_log2(k2, ratio)) by {
            let f = floor_log2(ratio);
            assert(exists|k3: nat| is_floor_log2(k3, ratio)) by {
                let w = crate::arith::ilog2_spec_witness(ratio);
            }
            lemma_pow2_double(f);
            if pow2(f) == ratio {
                if f > 0 {
                    lemma_pow2_double((f - 1) as nat);
                }
                assert(is_ceil_log2(f, ratio));
            } else {
                assert(is_ceil_log2(f + 1, ratio));
            }
        }
        assert(pow2(k) >= ratio);
        let lo = self.live_order(p);
        lemma_pow2_mono(k, lo);
        assert(m * pow2(lo) >= needed) by (nonlinear_arith)
            requires
                pow2(lo) >= pow2(k),
                pow2(k) >= ratio,
                ratio * m >= needed,
                m > 0,
        ;
    }

    /// Grows the taken block at slot `s` in place towards order `target`,
    /// joining the free buddies above it while it is the lower half of its
    /// pair; `Some` of the order reached where it reaches `target`.
    fn try_expand_block(&mut self, s: usize, target: usize) -> (r: Option<usize>)
        requires
            old(self).wf(),
            old(self).is_initialized(),
            s < old(self).spec_nslots(),
            old(self).is_block(s as int),
            !old(self).free_at(s as int),
        ensures
            final(self).wf(),
            final(self).is_initialized(),
            final(self).same_arena(old(self)),
            final(self).memory_view() == old(self).memory_view(),
            ({
                let ex = expand_result(
                    old(self).lists_view(),
                    s as int,
                    old(self).order_at(s as int) as int,
                    target as int,
                    old(self).spec_max_order() as int,
                    old(self).spec_nslots() as int,
                );
                &&& final(self).lists_view() == ex.0
                &&& final(self).order_at(s as int) == ex.1
                &&& (r is Some <==> ex.2)
                &&& r is Some ==> r == Some(ex.1 as usize)
            }),
            final(self).is_block(s as int),
            !final(self).free_at(s as int),
            forall|p: int| #[trigger] old(self).is_live(p) && old(self).slot_of(p) != s ==> final(self).is_live(p)
                && final(self).live_order(p) == old(self).live_order(p),
    {
        let ghost target_ex = expand_result(
            self.lists_view(),
            s as int,
            self.orders@[s as int] as int,
            target as int,
            self.max_order as int,
            self.nslots as int,
        );
        let mut cur = self.orders[s];
        while cur < target
            invariant
                self.wf(),
                self.is_initialized(),
                self.same_arena(old(self)),
                self.memory_view() == old(self).memory_view(),
                target_ex == expand_result(
                    old(self).lists_view(),
                    s as int,
                    old(self).order_at(s as int) as int,
                    target as int,
                    old(self).spec_max_order() as int,
                    old(self).spec_nslots() as int,
                ),
                target_ex == expand_result(
                    self.lists_view(),
                    s as int,
                    cur as int,
                    target as int,
                    self.spec_max_order() as int,
                    self.spec_nslots() as int,
                ),
                s < self.spec_nslots(),
                self.is_block(s as int),
                !self.free_at(s as int),
                self.order_at(s as int) == cur,
                forall|q: int| #[trigger] old(self).is_live(q) && old(self).slot_of(q) != s ==> self.is_live(q)
                    && self.live_order(q) == old(self).live_order(q),
            decreases target - cur,
        {
            if cur >= self.max_order {
                return None;
            }
            let half = self.pows[cur];
            proof {
                lemma_pow2_double(cur as nat);
                assert(self.starts@.contains(s as int));
                crate::arith::lemma_buddy_parent(s as int, half as int);
            }
            if (s / half) % 2 != 0 {
                return None;
            }
            let b = s + half;
            if b >= self.nslots || !self.frees[b] || self.orders[b] != cur {
                proof {
                    if b < self.nslots && self.lists_view()[cur as int].contains(b) {
                        let j = choose|j: int| 0 <= j < self.lists_view()[cur as int].len() && self.lists_view()[cur as int][j] == b;
                        assert(self.lists_view()[cur as int][j] == b);
                    }
                }
                return None;
            }
            let ghost prev = *self;
            let ghost lv1 = self.lists_view();
            proof {
                lemma_merge(self.starts@, self.owner@, self.orders@, self.frees@, lv1, self.nslots as int, self.top as int, self.max_order as int, s as int, cur as int, b as int);
            }
            let bi = self.index_in_list(cur, b);
            proof {
                assert(lv1[cur as int].no_duplicates());
                assert(lv1[cur as int].index_of(b) == bi as int);
            }
            self.lists[cur].remove(bi);
            self.frees.set(b, false);
            self.orders.set(s, cur + 1);
            self.starts = Ghost(self.starts@.remove(b as int));
            self.owner = Ghost(owner_after(self.owner@, s as int, 2 * half as int, s as int));
            proof {
                assert(self.lists_view() =~= lv1.update(cur as int, lv1[cur as int].remove(bi as int)));
                assert(self.orders@ =~= prev.orders@.update(s as int, (cur + 1) as usize));
                assert forall|z: int| #[trigger] old(self).is_live(z) && old(self).slot_of(z) != s implies self.is_live(z)
                    && self.live_order(z) == old(self).live_order(z) by {
                    assert(prev.is_live(z));
                    let t = self.slot_of(z);
                    assert(t != b as int);
                }
            }
            cur = cur + 1;
        }
        Some(cur)
    }

    /// Copies `len` bytes of the arena from `from` to `to`, as through a
    /// buffer.
    fn copy_within(&mut self, from: usize, to: usize, len: usize)
        requires
            old(self).wf(),
            old(self).spec_base() <= from,
            from + len <= old(self).spec_base() + old(self).spec_heap_size(),
            old(self).spec_base() <= to,
            to + len <= old(self).spec_base() + old(self).spec_heap_size(),
        ensures
            final(self).wf(),
            final(self).same_arena(old(self)),
            final(self).is_initialized() == old(self).is_initialized(),
            final(self).lists_view() == old(self).lists_view(),
            old(self).keeps_live(final(self)),
            forall|x: int| #[trigger] final(self).is_block(x) == old(self).is_block(x),
            forall|x: int| #[trigger] final(self).free_at(x) == old(self).free_at(x),
            final(self).memory_view() == copied(
                old(self).memory_view(),
                from - old(self).spec_base(),
                to - old(self).spec_base(),
                len as int,
            ),
    {
        let mut buf: Vec<u8> = Vec::new();
        let f = from - self.base;
        let t = to - self.base;
        let mut i: usize = 0;
        while i < len
            invariant
                i <= len,
                f + len <= self.memory@.len(),
                f + len <= usize::MAX,
                buf@.len() == i,
                forall|j: int| 0 <= j < i ==> buf@[j] == self.memory@[f + j],
            decreases len - i,
        {
            buf.push(self.memory[f + i]);
            i = i + 1;
        }
        let ghost m0 = self.memory@;
        let mut i: usize = 0;
        while i < len
            invariant
                *self == (BuddyAllocatorImpl { memory: self.memory, ..*old(self) }),
                i <= len,
                t + len <= self.memory@.len(),
                t + len <= usize::MAX,
                self.memory@.len() == m0.len(),
                m0 == old(self).memory@,
                buf@.len() == len,
                forall|j: int| 0 <= j < len ==> buf@[j] == m0[f + j],
                forall|x: int| 0 <= x < m0.len() ==> #[trigger] self.memory@[x] == if t <= x < t + i { m0[f + x - t] } else { m0[x] },
            decreases len - i,
        {
            self.memory.set(t + i, buf[i]);
            i = i + 1;
        }
        proof {
            assert(self.memory@ =~= copied(m0, f as int, t as int, len as int));
        }
    }

    /// Resizes in place where the block suffices or grows into free buddies,
    /// otherwise allocates anew, copies and returns the old block.
    pub fn realloc_inplace(&mut self, ptr: usize, layout: Layout, new_size: usize) -> (r: usize)
        requires
            old(self).wf(),
            old(self).is_live(ptr as int),
            layout.wf(),
            Layout::valid(new_size as int, layout.spec_align() as int),
            round_up(new_size + BLOCK_HEADER_SIZE, 8) + old(self).spec_min_block() - 1 <= usize::MAX,
            ptr + (if layout.spec_size() < new_size { layout.spec_size() } else { new_size })
                <= old(self).spec_base() + old(self).spec_heap_size(),
        ensures
            final(self).wf(),
            final(self).same_arena(old(self)),
            old(self).realloc_outcome(*final(self), ptr, layout, new_size, r),
    {
        proof {
            self.lemma_live_block_in_arena(ptr as int);
            self.lemma_live_addr(ptr as int);
            let k = choose|k: nat| k < 64 && pow2(k) == self.min_block;
            lemma_pow2_double(k);
            Layout::lemma_spec_new(new_size, layout.spec_align());
            Layout::spec_new(new_size, layout.spec_align()).lemma_wf();
        }
        let s = (ptr - BLOCK_HEADER_SIZE - self.base - self.offset) / self.min_block;
        let cur = self.orders[s];
        let needed = round_up_exec(new_size + BLOCK_HEADER_SIZE, 8);
        let ratio = (needed + (self.min_block - 1)) / self.min_block;
        proof {
            assert(ratio >= 1) by (nonlinear_arith)
                requires
                    ratio == (needed + (self.min_block - 1)) / (self.min_block as int),
                    needed >= 16,
                    self.min_block >= 16,
            ;
        }
        let fl = ilog2(ratio);
        let pfl = crate::buddy::types::block_bytes(1, fl);
        let mut needed_order = fl;
        if pfl < ratio {
            needed_order = needed_order + 1;
        }
        proof {
            lemma_pow2_double(fl as nat);
            assert(is_ceil_log2(needed_order as nat, ratio as int)) by {
                if needed_order > 0 && needed_order == fl {
                    lemma_pow2_double((fl - 1) as nat);
                }
            }
            lemma_ceil_log2_unique(needed_order as nat, ceil_log2(ratio as int), ratio as int);
            assert(needed_order as int == old(self).inplace_order(new_size as int));
        }
        if needed_order <= cur {
            return ptr;
        }
        let ghost before = *self;
        let expanded = self.try_expand_block(s, needed_order);
        if expanded.is_some() {
            proof {
                lemma_expand_reaches(before.lists_view(), s as int, cur as int, needed_order as int, self.max_order as int, self.nslots as int);
                assert forall|p: int| #[trigger] before.is_live(p) && p != ptr implies self.is_live(p)
                    && self.live_order(p) == before.live_order(p) by {
                    before.lemma_live_addr(p);
                }
                assert(self.slot_of(ptr as int) == s);
            }
            return ptr;
        }
        let ghost mid = *self;
        let new_layout = Layout::from_size_align_unchecked(new_size, layout.align());
        let new_ptr = self.allocate(new_layout);
        if new_ptr == 0 {
            proof {
                assert(mid.is_live(ptr as int));
                assert forall|p: int| #[trigger] before.is_live(p) && p != ptr implies self.is_live(p)
                    && self.live_order(p) == before.live_order(p) by {
                    before.lemma_live_addr(p);
                }
            }
            return 0;
        }
        if new_ptr == ptr {
            return ptr;
        }
        let len = if layout.size() < new_size { layout.size() } else { new_size };
        proof {
            self.lemma_live_block_in_arena(new_ptr as int);
            mid.lemma_request_capacity(new_layout);
            assert(mid.is_live(ptr as int));
        }
        let ghost after_alloc = *self;
        proof {
            assert(!mid.is_live(new_ptr as int));
            if before.is_live(new_ptr as int) {
                assert(new_ptr != ptr);
                assert(mid.is_live(new_ptr as int));
            }
        }
        self.copy_within(ptr, new_ptr, len);
        proof {
            assert(self.is_live(ptr as int));
            assert(self.is_live(new_ptr as int));
        }
        let ghost after_copy = *self;
        self.dealloc(ptr, layout);
        proof {
            assert forall|p: int| #[trigger] before.is_live(p) && p != ptr implies self.is_live(p)
                && self.live_order(p) == before.live_order(p) by {
                before.lemma_live_addr(p);
                assert(mid.is_live(p));
                assert(after_alloc.is_live(p));
                assert(after_copy.is_live(p));
            }
            assert(after_copy.is_live(new_ptr as int));
            assert(self.is_live(new_ptr as int));
        }
        new_ptr
    }

    /// Address of the first block.
    pub fn first_block(&self) -> (r: usize)
        requires
            self.wf(),
        ensures
            r == self.block_addr(0),
    {
        self.base + self.offset
    }

    /// Address of the block at the head of the free list of `order` (the
    /// largest order's list for any order from it up), or 0 where the list
    /// is empty.
    pub fn free_list(&self, order: usize) -> (r: usize)
        requires
            self.wf(),
        ensures
            ({
                let k = if order < self.spec_max_order() { order as int } else { self.spec_max_order() as int };
                let l = self.lists_view()[k];
                &&& l.len() == 0 ==> r == 0
                &&& l.len() > 0 ==> r == self.block_addr(l.last() as int)
            }),
    {
        let k = if order < self.max_order { order } else { self.max_order };
        proof {
            assert(self.lists@[k as int]@ == self.lists_view()[k as int]);
        }
        let len = self.lists[k].len();
        if len == 0 {
            return 0;
        }
        let s = self.lists[k][len - 1];
        proof {
            if self.initialized {
                assert(self.lists_view()[k as int][len - 1] == s);
            }
            assert(s < self.nslots);
            assert(self.offset + s * self.min_block <= self.offset + self.nslots * self.min_block) by (nonlinear_arith)
                requires
                    s < self.nslots,
            ;
        }
        self.base + self.offset + s * self.min_block
    }

    /// The byte of the arena at `addr`.
    pub fn read(&self, addr: usize) -> (r: u8)
        requires
            self.wf(),
            self.spec_base() <= addr < self.spec_base() + self.spec_heap_size(),
        ensures
            r == self.memory_view()[addr - self.spec_base()],
    {
        self.memory[addr - self.base]
    }

    /// Stores `value` at `addr` in the arena.
    pub fn write(&mut self, addr: usize, value: u8)
        requires
            old(self).wf(),
            old(self).spec_base() <= addr < old(self).spec_base() + old(self).spec_heap_size(),
        ensures
            final(self).wf(),
            final(self).same_arena(old(self)),
            final(self).is_initialized() == old(self).is_initialized(),
            final(self).lists_view() == old(self).lists_view(),
            old(self).keeps_live(final(self)),
            final(self).keeps_live(old(self)),
            final(self).memory_view() == old(self).memory_view().update(addr - old(self).spec_base(), value),
    {
        let i = addr - self.base;
        self.memory.set(i, value);
    }

    /// The slot after a block, where it is inside the slots, starts a block.
    proof fn lemma_next_block(&self, s: int)
        requires
            self.wf(),
            self.is_initialized(),
            self.starts@.contains(s),
            s + pow2(self.orders@[s] as nat) < self.nslots,
        ensures
            self.starts@.contains(s + pow2(self.orders@[s] as nat)),
    {
        let x = s + pow2(self.orders@[s] as nat);
        let t = self.owner@[x];
        assert(self.starts@.contains(t));
        lemma_pow2_double(self.orders@[s] as nat);
        lemma_pow2_double(self.orders@[t] as nat);
        lemma_owned(self.starts@, self.owner@, self.orders@, self.nslots as int, self.top as int, s, s);
        lemma_owned(self.starts@, self.owner@, self.orders@, self.nslots as int, self.top as int, t, t);
        if t < s {
            lemma_owned(self.starts@, self.owner@, self.orders@, self.nslots as int, self.top as int, t, s);
        } else if t < x {
            lemma_owned(self.starts@, self.owner@, self.orders@, self.nslots as int, self.top as int, s, t);
        }
    }

    /// The blocks in address order, from the first block to the end of the
    /// slots; none before the allocator is set up.
    pub fn free_blocks(&self) -> (r: Vec<BuddyBlockInfo>)
        requires
            self.wf(),
        ensures
            !self.is_initialized() ==> r@.len() == 0,
            self.is_initialized() ==> {
                &&& r@.len() > 0
                &&& r@[0].ptr == self.block_addr(0)
                &&& r@.last().ptr + r@.last().size == self.block_addr(self.spec_nslots() as int)
                &&& forall|i: int| 0 <= i < r@.len() - 1 ==> #[trigger] r@[i + 1].ptr == r@[i].ptr + r@[i].size
                &&& forall|i: int|
                    #![trigger r@[i]]
                    0 <= i < r@.len() ==> {
                        let s = (r@[i].ptr - self.block_addr(0)) / (self.spec_min_block() as int);
                        &&& r@[i].ptr == self.block_addr(s)
                        &&& 0 <= s < self.spec_nslots()
                        &&& self.is_block(s)
                        &&& r@[i].order == self.order_at(s)
                        &&& r@[i].size == self.block_size(self.order_at(s))
                        &&& r@[i].free == self.free_at(s)
                    }
            },
    {
        let mut v: Vec<BuddyBlockInfo> = Vec::new();
        if !self.initialized {
            return v;
        }
        proof {
            let k = choose|k: nat| k < 64 && pow2(k) == self.min_block;
            lemma_pow2_double(k);
            lemma_pow2_double(self.top as nat);
            assert(self.starts@.contains(self.owner@[0]));
            lemma_owned(self.starts@, self.owner@, self.orders@, self.nslots as int, self.top as int, self.owner@[0], 0);
            assert(self.owner@[0] == 0);
        }
        let mut s: usize = 0;
        while s < self.nslots
            invariant
                self.wf(),
                self.is_initialized(),
                s <= self.nslots,
                s < self.nslots ==> self.starts@.contains(s as int),
                v@.len() == 0 <==> s == 0,
                v@.len() > 0 ==> v@[0].ptr == self.block_addr(0),
                v@.len() > 0 ==> v@.last().ptr + v@.last().size == self.block_addr(s as int),
                forall|i: int| 0 <= i < v@.len() - 1 ==> #[trigger] v@[i + 1].ptr == v@[i].ptr + v@[i].size,
                forall|i: int|
                    #![trigger v@[i]]
                    0 <= i < v@.len() ==> {
                        let t = (v@[i].ptr - self.block_addr(0)) / (self.spec_min_block() as int);
                        &&& v@[i].ptr == self.block_addr(t)
                        &&& 0 <= t < self.spec_nslots()
                        &&& self.is_block(t)
                        &&& v@[i].order == self.order_at(t)
                        &&& v@[i].size == self.block_size(self.order_at(t))
                        &&& v@[i].free == self.free_at(t)
                    },
            decreases self.nslots - s,
        {
            let k = self.orders[s];
            proof {
                assert(self.starts@.contains(s as int));
                lemma_pow2_double(k as nat);
                assert(s + pow2(k as nat) <= self.nslots);
                lemma_pow2_mono(k as nat, self.max_order as nat);
                assert(self.min_block * pow2(k as nat) <= self.min_block * pow2(self.max_order as nat)) by (nonlinear_arith)
                    requires
                        pow2(k as nat) <= pow2(self.max_order as nat),
                ;
                assert(self.offset + s * self.min_block + self.min_block * pow2(k as nat) <= self.offset + self.nslots * self.min_block) by (nonlinear_arith)
                    requires
                        s + pow2(k as nat) <= self.nslots,
                ;
                assert(s * self.min_block == self.min_block * s) by (nonlinear_arith);
                vstd::arithmetic::div_mod::lemma_div_multiples_vanish(s as int, self.min_block as int);
            }
            let addr = self.base + self.offset + s * self.min_block;
            let size = self.min_block * self.pows[k];
            let info = BuddyBlockInfo { ptr: addr, order: k as u8, size, free: self.frees[s] };
            let ghost v0 = v@;
            v.push(info);
            let step = self.pows[k];
            proof {
                if s + step < self.nslots {
                    self.lemma_next_block(s as int);
                }
                assert((s + step) * self.min_block == s * self.min_block + self.min_block * step) by (nonlinear_arith);
                assert forall|i: int| 0 <= i < v@.len() - 1 implies #[trigger] v@[i + 1].ptr == v@[i].ptr + v@[i].size by {
                    if i < v0.len() - 1 {
                        assert(v@[i + 1] == v0[i + 1]);
                    }
                }
                assert forall|i: int| #![trigger v@[i]] 0 <= i < v@.len() implies {
                        let t = (v@[i].ptr - self.block_addr(0)) / (self.spec_min_block() as int);
                        &&& v@[i].ptr == self.block_addr(t)
                        &&& 0 <= t < self.spec_nslots()
                        &&& self.is_block(t)
                        &&& v@[i].order == self.order_at(t)
                        &&& v@[i].size == self.block_size(self.order_at(t))
                        &&& v@[i].free == self.free_at(t)
                    } by {
                    if i < v0.len() {
                        assert(v@[i] == v0[i]);
                        assert(v0[i] == v0[i]);
                    } else {
                        assert(i == v0.len());
                        assert(v@[i] == info);
                        assert((v@[i].ptr - self.block_addr(0)) == self.min_block * s);
                        assert((v@[i].ptr - self.block_addr(0)) / (self.spec_min_block() as int) == s);
                        assert(k <= self.top);
                        assert(info.order as nat == self.order_at(s as int));
                        assert(self.pows@[k as int] == pow2(k as nat));
                        assert(info.size == self.block_size(self.order_at(s as int)));
                    }
                }
            }
            s = s + step;
        }
        v
    }

    /// Two distinct live allocations lie in disjoint blocks.
    pub proof fn lemma_live_disjoint(&self, p: int, q: int)
        requires
            self.wf(),
            self.is_live(p),
            self.is_live(q),
            p != q,
        ensures
            self.block_addr(self.slot_of(p)) + self.block_size(self.live_order(p)) <= self.block_addr(self.slot_of(q))
                || self.block_addr(self.slot_of(q)) + self.block_size(self.live_order(q)) <= self.block_addr(
                self.slot_of(p),
            ),
    {
        self.lemma_live_addr(p);
        self.lemma_live_addr(q);
        let s = self.slot_of(p);
        let t = self.slot_of(q);
        let ks = self.orders@[s] as nat;
        let kt = self.orders@[t] as nat;
        lemma_pow2_double(ks);
        lemma_pow2_double(kt);
        assert(s != t);
        let m = self.min_block as int;
        if s < t {
            if t < s + pow2(ks) {
                lemma_owned(self.starts@, self.owner@, self.orders@, self.nslots as int, self.top as int, s, t);
                lemma_owned(self.starts@, self.owner@, self.orders@, self.nslots as int, self.top as int, t, t);
            }
            assert(s + pow2(ks) <= t);
            assert(s * m + m * pow2(ks) <= t * m) by (nonlinear_arith)
                requires
                    s + pow2(ks) <= t,
                    m > 0,
            ;
        } else {
            if s < t + pow2(kt) {
                lemma_owned(self.starts@, self.owner@, self.orders@, self.nslots as int, self.top as int, t, s);
                lemma_owned(self.starts@, self.owner@, self.orders@, self.nslots as int, self.top as int, s, s);
            }
            assert(t + pow2(kt) <= s);
            assert(t * m + m * pow2(kt) <= s * m) by (nonlinear_arith)
                requires
                    t + pow2(kt) <= s,
                    m > 0,
            ;
        }
    }

    /// From a freshly set-up allocator, taking a block for `layout` and
    /// returning it leaves the free lists as they were: the block taken is
    /// the first one, split down to the order the request takes, and the
    /// return joins it back up.
    pub proof fn law_alloc_free_restores(&self, layout: Layout)
        requires
            self.wf(),
            layout.wf(),
            self.lists_before_use() == fresh_lists(self.spec_max_order() as int, self.spec_top() as int),
            0 <= self.request_order(layout) <= self.spec_top(),
        ensures
            ({
                let pre = self.lists_before_use();
                let t = self.request_order(layout);
                let maxo = self.spec_max_order() as int;
                let j = first_nonempty(pre, t, maxo);
                let s = pre[j].last() as int;
                &&& j == self.spec_top()
                &&& s == 0
                &&& merge_lists(split_lists(pre, j, t, s), s, t, maxo, self.spec_nslots() as int) == pre
            }),
    {
        let maxo = self.max_order as int;
        let top = self.top as int;
        let t = self.request_order(layout);
        lemma_first_nonempty_fresh(maxo, top, t);
        lemma_split_merge_fresh(maxo, top, t);
        assert(fresh_lists(maxo, top)[top] =~= seq![0usize]);
    }

    /// Address where the arena starts.
    pub fn base_addr(&self) -> (r: usize)
        ensures
            r == self.spec_base(),
    {
        self.base
    }

    /// Size of the arena in bytes.
    pub fn heap_bytes(&self) -> (r: usize)
        ensures
            r == self.spec_heap_size(),
    {
        self.heap_size
    }

    /// In every state the allocator reaches, each block handed out lies in
    /// the arena after its header, and the bytes from the addresses of two
    /// different blocks handed out to their blocks' ends never overlap.
    pub proof fn law_live_allocations_disjoint(&self, p: int, q: int)
        requires
            self.wf(),
            self.is_live(p),
            self.is_live(q),
            p != q,
        ensures
            ({
                let ep = self.block_addr(self.slot_of(p)) + self.block_size(self.live_order(p));
                let eq = self.block_addr(self.slot_of(q)) + self.block_size(self.live_order(q));
                &&& self.spec_base() + BLOCK_HEADER_SIZE <= p <= ep <= self.spec_base() + self.spec_heap_size()
                &&& self.spec_base() + BLOCK_HEADER_SIZE <= q <= eq <= self.spec_base() + self.spec_heap_size()
                &&& (ep <= q || eq <= p)
            }),
    {
        self.lemma_live_block_in_arena(p);
        self.lemma_live_block_in_arena(q);
        self.lemma_live_disjoint(p, q);
    }

    /// A resize keeps the data: where it gives an address, the smaller of
    /// the two sizes in bytes there are the bytes the old allocation held;
    /// where it gives none, the old allocation is still handed out and the
    /// arena's bytes are as they were.
    pub proof fn law_resize_keeps_content(&self, fin: Self, ptr: usize, layout: Layout, new_size: usize, r: usize)
        requires
            self.wf(),
            self.is_live(ptr as int),
            self.realloc_outcome(fin, ptr, layout, new_size, r),
        ensures
            r == 0 ==> fin.is_live(ptr as int) && fin.memory_view() == self.memory_view(),
            r != 0 ==> forall|i: int|
                0 <= i < (if layout.spec_size() < new_size { layout.spec_size() } else { new_size })
                    && r - self.spec_base() + i < self.memory_view().len()
                    ==> #[trigger] fin.memory_view()[r - self.spec_base() + i] == self.memory_view()[ptr
                    - self.spec_base() + i],
    {
    }

    /// Bounds the arena keeps.
    pub proof fn lemma_wf_bounds(&self)
        requires
            self.wf(),
        ensures
            self.spec_base() + self.spec_heap_size() <= usize::MAX,
            self.spec_heap_size() + self.spec_min_block() <= usize::MAX,
            self.spec_min_block() >= BLOCK_HEADER_SIZE,
            self.spec_offset() + self.spec_nslots() * self.spec_min_block() <= self.spec_heap_size(),
            self.memory_view().len() == self.spec_heap_size(),
    {
    }
}

} // verus!
