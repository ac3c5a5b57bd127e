//! A randomized workout for the buddy allocator: allocations, frees and
//! resizes drawn from a fixed linear congruential sequence.
use vstd::prelude::*;
use crate::buddy::types::{Layout, BLOCK_HEADER_SIZE};
use crate::buddy::allocator::{
    BuddyAllocatorImpl, fresh_lists, first_nonempty, split_lists, merge_lists, expand_result,
};
use crate::arith::round_up;

verus! {

/// Most allocations the workout keeps at once.
pub const MAX_ALLOCATIONS: usize = 1024;

/// An allocation the workout holds: its address and layout.
#[derive(Clone, Copy)]
pub struct AllocEntry {
    pub ptr: usize,
    pub layout: Layout,
}

impl AllocEntry {
    /// The empty entry: a null address with a zero-sized layout.
    pub fn null() -> (r: AllocEntry)
        ensures
            r.ptr == 0,
            r.layout.spec_size() == 0,
            r.layout.spec_align() == 1,
    {
        proof {
            vstd::arithmetic::power2::lemma2_to64();
            assert(crate::buddy::types::is_power_of_two(1));
            assert(round_up(0, 1) == 0);
            Layout::lemma_spec_new(0, 1);
        }
        AllocEntry { ptr: 0, layout: Layout::from_size_align_unchecked(0, 1) }
    }

    pub fn is_null(&self) -> (r: bool)
        ensures
            r == (self.ptr == 0),
    {
        self.ptr == 0
    }
}

/// Total of the sizes of the entries' layouts.
pub open spec fn sum_sizes(s: Seq<AllocEntry>) -> int
    decreases s.len(),
{
    if s.len() == 0 {
        0
    } else {
        sum_sizes(s.drop_last()) + s.last().layout.spec_size()
    }
}

pub proof fn lemma_sum_nonneg(s: Seq<AllocEntry>)
    ensures
        sum_sizes(s) >= 0,
    decreases s.len(),
{
    if s.len() > 0 {
        lemma_sum_nonneg(s.drop_last());
    }
}

pub proof fn lemma_sum_update(s: Seq<AllocEntry>, i: int, e: AllocEntry)
    requires
        0 <= i < s.len(),
    ensures
        sum_sizes(s.update(i, e)) == sum_sizes(s) - s[i].layout.spec_size() + e.layout.spec_size(),
        s[i].layout.spec_size() <= sum_sizes(s),
    decreases s.len(),
{
    let u = s.update(i, e);
    lemma_sum_nonneg(s.drop_last());
    if i == s.len() - 1 {
        assert(u.drop_last() =~= s.drop_last());
    } else {
        assert(u.drop_last() =~= s.drop_last().update(i, e));
        lemma_sum_update(s.drop_last(), i, e);
    }
}

/// A bounded list of allocations with a capacity.
pub struct AllocStorage {
    entries: Vec<AllocEntry>,
    cap: usize,
}

impl AllocStorage {
    pub closed spec fn view(&self) -> Seq<AllocEntry> {
        self.entries@
    }

    pub closed spec fn spec_capacity(&self) -> usize {
        self.cap
    }

    pub closed spec fn wf(&self) -> bool {
        self.entries@.len() <= self.cap
    }

    /// An empty storage for at most `cap` entries.
    pub fn new(cap: usize) -> (r: AllocStorage)
        ensures
            r.wf(),
            r.view() == Seq::<AllocEntry>::empty(),
            r.spec_capacity() == cap,
    {
        AllocStorage { entries: Vec::new(), cap }
    }

    /// Appends `entry`; `Err` where the storage is full.
    pub fn push(&mut self, entry: AllocEntry) -> (r: Result<(), ()>)
        requires
            old(self).wf(),
        ensures
            final(self).wf(),
            final(self).spec_capacity() == old(self).spec_capacity(),
            old(self).view().len() < old(self).spec_capacity() ==> r is Ok && final(self).view() == old(self).view().push(entry),
            old(self).view().len() >= old(self).spec_capacity() ==> r is Err && final(self).view() == old(self).view(),
    {
        if self.entries.len() < self.cap {
            self.entries.push(entry);
            Ok(())
        } else {
            Err(())
        }
    }

    /// Takes out the entry at `index`, moving the last entry into its place;
    /// `None` where there is no such entry.
    pub fn remove(&mut self, index: usize) -> (r: Option<AllocEntry>)
        requires
            old(self).wf(),
        ensures
            final(self).wf(),
            final(self).spec_capacity() == old(self).spec_capacity(),
            index >= old(self).view().len() ==> r is None && final(self).view() == old(self).view(),
            index < old(self).view().len() ==> r == Some(old(self).view()[index as int]) && final(self).view()
                == old(self).view().update(index as int, old(self).view().last()).drop_last(),
    {
        if index >= self.entries.len() {
            return None;
        }
        let last_idx = self.entries.len() - 1;
        let entry = self.entries[index];
        let last = self.entries[last_idx];
        self.entries.set(index, last);
        self.entries.pop();
        Some(entry)
    }

    /// The entry at `index`, if there is one.
    pub fn get(&self, index: usize) -> (r: Option<AllocEntry>)
        ensures
            index < self.view().len() ==> r == Some(self.view()[index as int]),
            index >= self.view().len() ==> r is None,
    {
        if index < self.entries.len() {
            Some(self.entries[index])
        } else {
            None
        }
    }

    /// Replaces the entry at `index`; false where there is no such entry.
    pub fn get_mut(&mut self, index: usize, entry: AllocEntry) -> (r: bool)
        requires
            old(self).wf(),
        ensures
            final(self).wf(),
            final(self).spec_capacity() == old(self).spec_capacity(),
            r == (index < old(self).view().len()),
            r ==> final(self).view() == old(self).view().update(index as int, entry),
            !r ==> final(self).view() == old(self).view(),
    {
        if index < self.entries.len() {
            self.entries.set(index, entry);
            true
        } else {
            false
        }
    }

    pub fn len(&self) -> (r: usize)
        ensures
            r == self.view().len(),
    {
        self.entries.len()
    }

    pub fn is_empty(&self) -> (r: bool)
        ensures
            r == (self.view().len() == 0),
    {
        self.entries.len() == 0
    }

    pub fn capacity(&self) -> (r: usize)
        ensures
            r == self.spec_capacity(),
    {
        self.cap
    }

    /// The entries, in order.
    pub fn iter(&self) -> (r: Vec<AllocEntry>)
        ensures
            r@ == self.view(),
    {
        self.entries.clone()
    }

    /// Drops every entry.
    pub fn clear(&mut self)
        requires
            old(self).wf(),
        ensures
            final(self).wf(),
            final(self).spec_capacity() == old(self).spec_capacity(),
            final(self).view() == Seq::<AllocEntry>::empty(),
    {
        self.entries.clear();
    }
}

/// Counts of what a workout did.
#[derive(Clone, Copy, Debug)]
pub struct StressSummary {
    pub alloc_count: usize,
    pub free_count: usize,
    pub realloc_count: usize,
    pub total_allocated: usize,
    pub total_freed: usize,
}

/// The next value of the workout's generator.
pub open spec fn lcg_next(x: u64) -> u64 {
    vstd::wrapping::u64_specs::wrapping_add(vstd::wrapping::u64_specs::wrapping_mul(x, 0x41C64E6D), 0x3039)
}

pub fn lcg_step(x: u64) -> (r: u64)
    ensures
        r == lcg_next(x),
{
    x.wrapping_mul(0x41C64E6D).wrapping_add(0x3039)
}

/// The entries are distinct live allocations of `a`, aligned to at most 8,
/// each within the arena for its layout's size.
pub open spec fn entries_ok(a: &BuddyAllocatorImpl, s: Seq<AllocEntry>) -> bool {
    &&& forall|i: int| 0 <= i < s.len() ==> a.is_live(#[trigger] s[i].ptr as int)
    &&& forall|i: int| 0 <= i < s.len() ==> (#[trigger] s[i]).layout.wf()
    &&& forall|i: int| 0 <= i < s.len() ==> (#[trigger] s[i]).layout.spec_align() <= 8
    &&& forall|i: int| 0 <= i < s.len() ==> (#[trigger] s[i]).ptr + s[i].layout.spec_size() <= a.spec_base()
        + a.spec_heap_size()
    &&& forall|i: int, j: int| 0 <= i < s.len() && 0 <= j < s.len() && i != j ==> #[trigger] s[i].ptr != #[trigger] s[j].ptr
}

/// What the workout keeps true between rounds.
pub open spec fn workout_ok(a: &BuddyAllocatorImpl, st: &AllocStorage, sum: StressSummary, done: int) -> bool {
    &&& a.wf()
    &&& a.spec_heap_size() + 8192 + BLOCK_HEADER_SIZE + 8 + a.spec_min_block() <= usize::MAX
    &&& st.wf()
    &&& st.spec_capacity() == MAX_ALLOCATIONS
    &&& entries_ok(a, st.view())
    &&& 0 <= done
    &&& done * 8192 <= usize::MAX
    &&& sum.alloc_count + sum.free_count + sum.realloc_count <= done
    &&& sum.total_allocated <= done * 8192
    &&& sum.total_freed <= sum.total_allocated
    &&& sum.total_allocated - sum.total_freed >= sum_sizes(st.view())
}

/// What the workout's counts rest on between rounds: whether the allocator
/// is set up, its free lists, the allocations held with the orders of their
/// blocks, and the counts so far.
#[verifier::ext_equal]
pub struct WorkState {
    pub init: bool,
    pub lists: Seq<Seq<usize>>,
    pub entries: Seq<AllocEntry>,
    pub orders: Seq<int>,
    pub sum: StressSummary,
}

/// The state of a workout that holds `entries` on `a`, with counts `sum`.
pub open spec fn state_of(a: &BuddyAllocatorImpl, entries: Seq<AllocEntry>, sum: StressSummary) -> WorkState {
    WorkState {
        init: a.is_initialized(),
        lists: a.lists_view(),
        entries,
        orders: Seq::new(entries.len(), |i: int| a.live_order(entries[i].ptr as int) as int),
        sum,
    }
}

/// The free lists an allocation starts from.
pub open spec fn lists_before(a0: &BuddyAllocatorImpl, w: WorkState) -> Seq<Seq<usize>> {
    if w.init {
        w.lists
    } else {
        fresh_lists(a0.spec_max_order() as int, a0.spec_top() as int)
    }
}

/// `s` with its entry at `i` replaced by its last entry, and one shorter.
pub open spec fn swap_remove<T>(s: Seq<T>, i: int) -> Seq<T> {
    s.update(i, s.last()).drop_last()
}

/// The alignment an allocation round draws.
pub open spec fn draw_align(rng2: u64) -> usize {
    if rng2 % 4 == 0 {
        1
    } else if rng2 % 4 == 1 {
        2
    } else if rng2 % 4 == 2 {
        4
    } else {
        8
    }
}

/// An allocation round on `a0`'s arena: the block the allocator hands out,
/// if any, is kept and counted where there is room, and handed back
/// otherwise.
pub open spec fn alloc_round(a0: &BuddyAllocatorImpl, w: WorkState, rng: u64, rng2: u64) -> WorkState {
    let size = (1 + rng % 4096) as usize;
    let layout = Layout::spec_new(size, draw_align(rng2));
    let pre = lists_before(a0, w);
    let t = a0.request_order(layout);
    let maxo = a0.spec_max_order() as int;
    let j = if t < 0 { -1 } else { first_nonempty(pre, t, maxo) };
    if j < 0 {
        WorkState { init: true, lists: pre, ..w }
    } else {
        let s = pre[j].last() as int;
        let ptr = a0.data_addr(s);
        let l1 = split_lists(pre, j, t, s);
        if w.entries.len() < MAX_ALLOCATIONS {
            WorkState {
                init: true,
                lists: l1,
                entries: w.entries.push(AllocEntry { ptr: ptr as usize, layout }),
                orders: w.orders.push(t),
                sum: StressSummary {
                    total_allocated: (w.sum.total_allocated + size) as usize,
                    alloc_count: (w.sum.alloc_count + 1) as usize,
                    ..w.sum
                },
            }
        } else {
            WorkState {
                init: true,
                lists: merge_lists(l1, a0.slot_of(ptr), t, maxo, a0.spec_nslots() as int),
                ..w
            }
        }
    }
}

/// A freeing round: the drawn allocation is handed back and counted.
pub open spec fn free_round(a0: &BuddyAllocatorImpl, w: WorkState, rng: u64) -> WorkState {
    if w.entries.len() == 0 {
        w
    } else {
        let idx = (rng % (w.entries.len() as u64)) as int;
        let e = w.entries[idx];
        WorkState {
            lists: merge_lists(
                w.lists,
                a0.slot_of(e.ptr as int),
                w.orders[idx],
                a0.spec_max_order() as int,
                a0.spec_nslots() as int,
            ),
            entries: swap_remove(w.entries, idx),
            orders: swap_remove(w.orders, idx),
            sum: StressSummary {
                total_freed: (w.sum.total_freed + e.layout.spec_size()) as usize,
                free_count: (w.sum.free_count + 1) as usize,
                ..w.sum
            },
            ..w
        }
    }
}

/// What resizing the held allocation `e`, whose block has order `cur`, to
/// `new_size` bytes gives: the address, the free lists and the order of the
/// block it ends in.
pub open spec fn resize_outcome(a0: &BuddyAllocatorImpl, lists: Seq<Seq<usize>>, e: AllocEntry, cur: int, new_size: usize) -> (int, Seq<Seq<usize>>, int) {
    let s = a0.slot_of(e.ptr as int);
    let t = a0.inplace_order(new_size as int);
    let maxo = a0.spec_max_order() as int;
    let n = a0.spec_nslots() as int;
    if t <= cur {
        (e.ptr as int, lists, cur)
    } else {
        let ex = expand_result(lists, s, cur, t, maxo, n);
        if ex.2 {
            (e.ptr as int, ex.0, t)
        } else {
            let t2 = a0.request_order(Layout::spec_new(new_size, e.layout.spec_align()));
            let j = if t2 < 0 { -1 } else { first_nonempty(ex.0, t2, maxo) };
            if j < 0 {
                (0, ex.0, ex.1)
            } else {
                let s2 = ex.0[j].last() as int;
                (a0.data_addr(s2), merge_lists(split_lists(ex.0, j, t2, s2), s, ex.1, maxo, n), t2)
            }
        }
    }
}

/// A resizing round: the drawn allocation is resized to the drawn size; a
/// resize that moves or keeps it is counted.
pub open spec fn realloc_round(a0: &BuddyAllocatorImpl, w: WorkState, rng: u64) -> WorkState {
    if w.entries.len() == 0 {
        w
    } else {
        let idx = (rng % (w.entries.len() as u64)) as int;
        let e = w.entries[idx];
        let new_size = (1 + rng % 8192) as usize;
        let old_size = e.layout.spec_size();
        let align = e.layout.spec_align();
        let (r, lists, ord) = resize_outcome(a0, w.lists, e, w.orders[idx], new_size);
        if r == 0 {
            WorkState { lists, orders: w.orders.update(idx, ord), ..w }
        } else {
            WorkState {
                lists,
                entries: w.entries.update(
                    idx,
                    AllocEntry { ptr: r as usize, layout: Layout::spec_new(new_size, align) },
                ),
                orders: w.orders.update(idx, ord),
                sum: StressSummary {
                    total_allocated: (w.sum.total_allocated - old_size + new_size) as usize,
                    realloc_count: (w.sum.realloc_count + 1) as usize,
                    ..w.sum
                },
                ..w
            }
        }
    }
}

/// One round: the generator picks the kind of round, then draws for it.
pub open spec fn one_round(a0: &BuddyAllocatorImpl, w: WorkState, rng: u64) -> (WorkState, u64) {
    let r1 = lcg_next(rng);
    if rng % 3 == 0 {
        let r2 = lcg_next(r1);
        (alloc_round(a0, w, r1, r2), r2)
    } else if rng % 3 == 1 {
        (free_round(a0, w, r1), r1)
    } else {
        (realloc_round(a0, w, r1), r1)
    }
}

/// `n` rounds from state `w` with the generator at `rng`.
pub open spec fn run_rounds(a0: &BuddyAllocatorImpl, w: WorkState, rng: u64, n: nat) -> (WorkState, u64)
    decreases n,
{
    if n == 0 {
        (w, rng)
    } else {
        let (w1, r1) = run_rounds(a0, w, rng, (n - 1) as nat);
        one_round(a0, w1, r1)
    }
}

/// Where a workout of `iterations` rounds on `a` stands after its rounds.
pub open spec fn workout_end(a: &BuddyAllocatorImpl, iterations: nat) -> WorkState {
    let zero = StressSummary { alloc_count: 0, free_count: 0, realloc_count: 0, total_allocated: 0, total_freed: 0 };
    run_rounds(a, state_of(a, Seq::empty(), zero), 0xDEADBEEF, iterations).0
}

/// The counts of a workout of `iterations` rounds on `a`.
pub open spec fn workout_counts(a: &BuddyAllocatorImpl, iterations: nat) -> StressSummary {
    workout_end(a, iterations).sum
}

/// The free lists after the first `k` of the held `entries`, whose blocks
/// have the orders `orders`, are freed in turn from `lists`, on the arena
/// of `a`.
pub open spec fn freed_upto(
    a: &BuddyAllocatorImpl,
    lists: Seq<Seq<usize>>,
    entries: Seq<AllocEntry>,
    orders: Seq<int>,
    k: nat,
) -> Seq<Seq<usize>>
    decreases k,
{
    if k == 0 {
        lists
    } else {
        let l = freed_upto(a, lists, entries, orders, (k - 1) as nat);
        let e = entries[k - 1];
        if e.ptr == 0 {
            l
        } else {
            merge_lists(
                l,
                a.slot_of(e.ptr as int),
                orders[k - 1],
                a.spec_max_order() as int,
                a.spec_nslots() as int,
            )
        }
    }
}

/// A round depends on the allocator only through its arena.
proof fn lemma_round_same_arena(a: &BuddyAllocatorImpl, b: &BuddyAllocatorImpl, w: WorkState, rng: u64)
    requires
        a.same_arena(b),
    ensures
        one_round(a, w, rng) == one_round(b, w, rng),
{
    let r1 = lcg_next(rng);
    let r2 = lcg_next(r1);
    assert(alloc_round(a, w, r1, r2) == alloc_round(b, w, r1, r2));
    assert(free_round(a, w, r1) == free_round(b, w, r1));
    assert(forall|l: Seq<Seq<usize>>, e: AllocEntry, c: int, ns: usize|
        #[trigger] resize_outcome(a, l, e, c, ns) == resize_outcome(b, l, e, c, ns));
    assert(realloc_round(a, w, r1) == realloc_round(b, w, r1));
}

/// One allocation round: `rng` gives the size, `rng2` the alignment.
fn stress_alloc(allocator: &mut BuddyAllocatorImpl, storage: &mut AllocStorage, sum: &mut StressSummary, rng: u64, rng2: u64, Ghost(done): Ghost<int>)
    requires
        workout_ok(old(allocator), old(storage), *old(sum), done),
        (done + 1) * 8192 <= usize::MAX,
    ensures
        workout_ok(final(allocator), final(storage), *final(sum), done + 1),
        final(allocator).same_arena(old(allocator)),
        state_of(final(allocator), final(storage).view(), *final(sum)) == alloc_round(
            old(allocator),
            state_of(old(allocator), old(storage).view(), *old(sum)),
            rng,
            rng2,
        ),
{
    let size = 1 + (rng % 4096) as usize;
    let sel = rng2 % 4;
    let align: usize = if sel == 0 {
        1
    } else if sel == 1 {
        2
    } else if sel == 2 {
        4
    } else {
        8
    };
    proof {
        vstd::arithmetic::power2::lemma2_to64();
        assert(crate::buddy::types::is_power_of_two(align as int)) by {
            assert(vstd::arithmetic::power2::pow2(0) == 1);
            assert(vstd::arithmetic::power2::pow2(1) == 2);
            assert(vstd::arithmetic::power2::pow2(2) == 4);
            assert(vstd::arithmetic::power2::pow2(3) == 8);
        }
        crate::arith::lemma_round_up_upper(size as int, align as int);
    }
    let layout = Layout::from_size_align_unchecked(size, align);
    proof {
        Layout::lemma_spec_new(size, align);
    }
    let ghost before = *allocator;
    let ghost w0 = state_of(&before, storage.view(), *sum);
    assert(layout == Layout::spec_new((1 + rng % 4096) as usize, draw_align(rng2)));
    let ptr = allocator.allocate(layout);
    proof {
        let pre = before.lists_before_use();
        assert(lists_before(&before, w0) == pre);
        assert forall|i: int| 0 <= i < storage.view().len() implies allocator.is_live(#[trigger] storage.view()[i].ptr as int)
            && allocator.live_order(storage.view()[i].ptr as int) == before.live_order(storage.view()[i].ptr as int) by {
            assert(before.is_live(storage.view()[i].ptr as int));
        }
        let t = before.request_order(layout);
        let j = if t < 0 { -1 } else { first_nonempty(pre, t, before.spec_max_order() as int) };
        if j >= 0 {
            assert(before.data_addr(pre[j].last() as int) > 0);
        }
    }
    if ptr == 0 {
        assert(state_of(allocator, storage.view(), *sum) =~= alloc_round(&before, w0, rng, rng2));
        return;
    }
    let entry = AllocEntry { ptr, layout };
    let ghost sv = storage.view();
    let ghost mid = *allocator;
    if storage.push(entry).is_ok() {
        sum.total_allocated = sum.total_allocated + size;
        sum.alloc_count = sum.alloc_count + 1;
        assert(state_of(allocator, storage.view(), *sum) =~= alloc_round(&before, w0, rng, rng2));
        proof {
            allocator.lemma_live_block_in_arena(ptr as int);
            allocator.lemma_wf_bounds();
            before.lemma_request_capacity(layout);
            assert(sum_sizes(storage.view()) == sum_sizes(sv) + size) by {
                assert(storage.view().drop_last() =~= sv);
            }
            assert forall|j: int| 0 <= j < storage.view().len() implies allocator.is_live(#[trigger] storage.view()[j].ptr as int) by {
                if j < sv.len() {
                    assert(storage.view()[j] == sv[j]);
                }
            }
            assert forall|j: int| 0 <= j < storage.view().len() implies (#[trigger] storage.view()[j]).layout.wf() by {
                if j < sv.len() {
                    assert(storage.view()[j] == sv[j]);
                }
            }
            assert forall|i: int, j: int|
                0 <= i < storage.view().len() && 0 <= j < storage.view().len() && i != j implies #[trigger] storage.view()[i].ptr
                != #[trigger] storage.view()[j].ptr by {
                if i < sv.len() {
                    assert(storage.view()[i] == sv[i]);
                    assert(before.is_live(sv[i].ptr as int));
                }
                if j < sv.len() {
                    assert(storage.view()[j] == sv[j]);
                    assert(before.is_live(sv[j].ptr as int));
                }
            }
        }
        let ghost target = alloc_round(&before, w0, rng, rng2);
        let mut i: usize = 0;
        while i < size
            invariant
                state_of(allocator, storage.view(), *sum) == target,
                allocator.wf(),
                allocator.same_arena(old(allocator)),
                entries_ok(allocator, storage.view()),
                ptr + size <= allocator.spec_base() + allocator.spec_heap_size(),
                allocator.spec_base() + allocator.spec_heap_size() <= usize::MAX,
                ptr >= allocator.spec_base(),
                i <= size,
            decreases size - i,
        {
            let ghost b2 = *allocator;
            allocator.write(ptr + i, (i % 256) as u8);
            proof {
                assert forall|j: int| 0 <= j < storage.view().len() implies allocator.is_live(
                    #[trigger] storage.view()[j].ptr as int,
                ) by {
                    assert(b2.is_live(storage.view()[j].ptr as int));
                }
                assert(state_of(allocator, storage.view(), *sum) =~= state_of(&b2, storage.view(), *sum));
            }
            i = i + 1;
        }
    } else {
        allocator.dealloc(ptr, layout);
        proof {
            assert forall|j: int| 0 <= j < storage.view().len() implies allocator.is_live(
                #[trigger] storage.view()[j].ptr as int,
            ) by {
                assert(before.is_live(storage.view()[j].ptr as int));
            }
            assert(state_of(allocator, storage.view(), *sum) =~= alloc_round(&before, w0, rng, rng2));
        }
    }
}

/// One freeing round: `rng` picks the allocation.
fn stress_free(allocator: &mut BuddyAllocatorImpl, storage: &mut AllocStorage, sum: &mut StressSummary, rng: u64, Ghost(done): Ghost<int>)
    requires
        workout_ok(old(allocator), old(storage), *old(sum), done),
        (done + 1) * 8192 <= usize::MAX,
    ensures
        workout_ok(final(allocator), final(storage), *final(sum), done + 1),
        final(allocator).same_arena(old(allocator)),
        state_of(final(allocator), final(storage).view(), *final(sum)) == free_round(
            old(allocator),
            state_of(old(allocator), old(storage).view(), *old(sum)),
            rng,
        ),
{
    if storage.is_empty() {
        return;
    }
    let idx = (rng % storage.len() as u64) as usize;
    let ghost sv = storage.view();
    if let Some(entry) = storage.remove(idx) {
        let size = entry.layout.size();
        let ghost before = *allocator;
        proof {
            let u = sv.update(idx as int, sv.last());
            lemma_sum_update(sv, idx as int, sv.last());
            lemma_sum_update(sv, sv.len() - 1, sv.last());
            assert(storage.view() =~= u.drop_last());
            assert(u.last() == sv.last());
            assert(sum_sizes(storage.view()) == sum_sizes(sv) - size);
            lemma_sum_nonneg(storage.view());
        }
        allocator.dealloc(entry.ptr, entry.layout);
        sum.total_freed = sum.total_freed + size;
        sum.free_count = sum.free_count + 1;
        proof {
            assert forall|j: int| 0 <= j < storage.view().len() implies allocator.is_live(
                #[trigger] storage.view()[j].ptr as int,
            ) by {
                let jj = if j == idx { sv.len() - 1 } else { j };
                assert(storage.view()[j] == sv[jj]);
                assert(jj != idx);
                assert(before.is_live(sv[jj].ptr as int));
            }
            assert forall|j: int| 0 <= j < storage.view().len() implies (#[trigger] storage.view()[j]).layout.wf() by {
                let jj = if j == idx { sv.len() - 1 } else { j };
                assert(storage.view()[j] == sv[jj]);
            }
            assert forall|i: int, j: int|
                0 <= i < storage.view().len() && 0 <= j < storage.view().len() && i != j implies #[trigger] storage.view()[i].ptr
                != #[trigger] storage.view()[j].ptr by {
                let ii = if i == idx { sv.len() - 1 } else { i };
                let jj = if j == idx { sv.len() - 1 } else { j };
                assert(storage.view()[i] == sv[ii]);
                assert(storage.view()[j] == sv[jj]);
            }
        }
    }
}

/// One resizing round: `rng` picks the allocation and the new size.
fn stress_realloc(allocator: &mut BuddyAllocatorImpl, storage: &mut AllocStorage, sum: &mut StressSummary, rng: u64, Ghost(done): Ghost<int>)
    requires
        workout_ok(old(allocator), old(storage), *old(sum), done),
        (done + 1) * 8192 <= usize::MAX,
    ensures
        workout_ok(final(allocator), final(storage), *final(sum), done + 1),
        final(allocator).same_arena(old(allocator)),
        state_of(final(allocator), final(storage).view(), *final(sum)) == realloc_round(
            old(allocator),
            state_of(old(allocator), old(storage).view(), *old(sum)),
            rng,
        ),
{
    if storage.is_empty() {
        return;
    }
    let idx = (rng % storage.len() as u64) as usize;
    let entry = match storage.get(idx) {
        Some(e) => e,
        None => {
            return;
        },
    };
    let new_size = 1 + (rng % 8192) as usize;
    let old_size = entry.layout.size();
    let ghost sv = storage.view();
    proof {
        assert(allocator.is_live(sv[idx as int].ptr as int));
        assert(sv[idx as int].layout.wf());
        allocator.lemma_live_block_in_arena(entry.ptr as int);
        allocator.lemma_wf_bounds();
        entry.layout.lemma_wf();
    }
    let align = entry.layout.align();
    proof {
        assert(sv[idx as int].layout.spec_align() <= 8);
        assert(entry.ptr + old_size <= allocator.spec_base() + allocator.spec_heap_size());
        crate::arith::lemma_round_up_upper(new_size as int, align as int);
        crate::arith::lemma_round_up_upper(new_size + BLOCK_HEADER_SIZE, 8);
        assert(crate::buddy::types::Layout::valid(new_size as int, align as int));
        Layout::lemma_spec_new(new_size, align);
    }
    let ghost before = *allocator;
    let new_ptr = allocator.realloc(entry.ptr, entry.layout, new_size);
    if new_ptr == 0 {
        proof {
            assert forall|j: int| 0 <= j < storage.view().len() implies allocator.is_live(
                #[trigger] storage.view()[j].ptr as int,
            ) by {
                assert(before.is_live(sv[j].ptr as int));
                if j != idx {
                    assert(sv[j].ptr != entry.ptr);
                }
            }
        }
        return;
    }
    let new_entry = AllocEntry { ptr: new_ptr, layout: Layout::from_size_align_unchecked(new_size, align) };
    proof {
        let nl = Layout::spec_new(new_size, align);
        assert(allocator.is_live(new_ptr as int));
        allocator.lemma_live_block_in_arena(new_ptr as int);
        if allocator.live_order(new_ptr as int) >= before.inplace_order(new_size as int) {
            allocator.lemma_inplace_capacity(new_ptr as int, new_size as int);
        } else {
            before.lemma_request_capacity(nl);
            nl.lemma_wf();
            crate::buddy::types::round_up_lower(new_size as int, align as int);
        }
        assert(new_ptr + new_size <= allocator.spec_base() + allocator.spec_heap_size());
    }
    storage.get_mut(idx, new_entry);
    proof {
        lemma_sum_update(sv, idx as int, new_entry);
    }
    sum.total_allocated = sum.total_allocated - old_size + new_size;
    sum.realloc_count = sum.realloc_count + 1;
    proof {
        assert forall|j: int| 0 <= j < storage.view().len() implies allocator.is_live(
            #[trigger] storage.view()[j].ptr as int,
        ) by {
            if j != idx {
                assert(storage.view()[j] == sv[j]);
                assert(before.is_live(sv[j].ptr as int));
                assert(sv[j].ptr != entry.ptr);
            }
        }
        assert forall|i: int, j: int|
            0 <= i < storage.view().len() && 0 <= j < storage.view().len() && i != j implies #[trigger] storage.view()[i].ptr
            != #[trigger] storage.view()[j].ptr by {
            if i != idx && j != idx {
                assert(storage.view()[i] == sv[i]);
                assert(storage.view()[j] == sv[j]);
            } else if i == idx {
                assert(storage.view()[j] == sv[j]);
                assert(before.is_live(sv[j].ptr as int));
                assert(sv[j].ptr != entry.ptr);
            } else {
                assert(storage.view()[i] == sv[i]);
                assert(before.is_live(sv[i].ptr as int));
                assert(sv[i].ptr != entry.ptr);
            }
        }
        assert forall|j: int| 0 <= j < storage.view().len() implies (#[trigger] storage.view()[j]).layout.wf() by {
            if j != idx {
                assert(storage.view()[j] == sv[j]);
            }
        }
    }
}

/// Runs `iterations` rounds on `allocator`. Each round draws from the
/// generator (seeded with `0xDEADBEEF`) one of: allocate 1 to 4096 bytes
/// aligned to 1, 2, 4 or 8 and fill them with `i % 256`; free a drawn held
/// allocation; resize a drawn held allocation to 1 to 8192 bytes. At the
/// end every held allocation is freed. The counts returned are those the rounds give on
/// this allocator, as `workout_counts` follows them.
pub fn run_stress_test(iterations: usize, allocator: &mut BuddyAllocatorImpl) -> (r: StressSummary)
    requires
        old(allocator).wf(),
        iterations * 8192 <= usize::MAX,
        old(allocator).spec_heap_size() + 8192 + BLOCK_HEADER_SIZE + 8 + old(allocator).spec_min_block() <= usize::MAX,
    ensures
        final(allocator).wf(),
        final(allocator).same_arena(old(allocator)),
        r.alloc_count + r.free_count + r.realloc_count <= iterations,
        r.total_freed <= r.total_allocated,
        r == workout_counts(old(allocator), iterations as nat),
        ({
            let w = workout_end(old(allocator), iterations as nat);
            &&& final(allocator).is_initialized() == w.init
            &&& final(allocator).lists_view() == freed_upto(
                old(allocator),
                w.lists,
                w.entries,
                w.orders,
                w.entries.len(),
            )
        }),
{
    let mut storage = AllocStorage::new(MAX_ALLOCATIONS);
    let mut rng: u64 = 0xDEADBEEF;
    let mut sum = StressSummary { alloc_count: 0, free_count: 0, realloc_count: 0, total_allocated: 0, total_freed: 0 };
    let mut iteration: usize = 0;
    let ghost a0 = *old(allocator);
    let ghost w_init = state_of(&a0, Seq::empty(), sum);
    assert(state_of(allocator, storage.view(), sum) =~= w_init);
    while iteration < iterations
        invariant
            workout_ok(allocator, &storage, sum, iteration as int),
            a0 == *old(allocator),
            w_init == state_of(&a0, Seq::empty(), StressSummary { alloc_count: 0, free_count: 0, realloc_count: 0, total_allocated: 0, total_freed: 0 }),
            (state_of(allocator, storage.view(), sum), rng) == run_rounds(&a0, w_init, 0xDEADBEEF, iteration as nat),
            allocator.same_arena(old(allocator)),
            iteration <= iterations,
            iterations * 8192 <= usize::MAX,
        decreases iterations - iteration,
    {
        let ghost before = *allocator;
        let ghost w = state_of(allocator, storage.view(), sum);
        let ghost rng0 = rng;
        proof {
            lemma_round_same_arena(&a0, &before, w, rng0);
        }
        let operation = rng % 3;
        rng = lcg_step(rng);
        if operation == 0 {
            let size_draw = rng;
            rng = lcg_step(rng);
            stress_alloc(allocator, &mut storage, &mut sum, size_draw, rng, Ghost(iteration as int));
        } else if operation == 1 {
            stress_free(allocator, &mut storage, &mut sum, rng, Ghost(iteration as int));
        } else {
            stress_realloc(allocator, &mut storage, &mut sum, rng, Ghost(iteration as int));
        }
        assert((state_of(allocator, storage.view(), sum), rng) == one_round(&before, w, rng0));
        iteration = iteration + 1;
    }
    let ghost wend = state_of(allocator, storage.view(), sum);
    assert(wend == workout_end(&a0, iterations as nat));
    let entries = storage.iter();
    let mut k: usize = 0;
    while k < entries.len()
        invariant
            allocator.wf(),
            allocator.same_arena(old(allocator)),
            a0 == *old(allocator),
            wend == workout_end(&a0, iterations as nat),
            wend.entries == entries@,
            wend.orders.len() == entries@.len(),
            allocator.is_initialized() == wend.init,
            allocator.lists_view() == freed_upto(&a0, wend.lists, entries@, wend.orders, k as nat),
            forall|i: int| k <= i < entries@.len() ==> allocator.live_order(#[trigger] entries@[i].ptr as int) == wend.orders[i],
            forall|i: int| k <= i < entries@.len() ==> allocator.is_live(#[trigger] entries@[i].ptr as int),
            forall|i: int, j: int| 0 <= i < entries@.len() && 0 <= j < entries@.len() && i != j ==> #[trigger] entries@[i].ptr != #[trigger] entries@[j].ptr,
            k <= entries@.len(),
        decreases entries@.len() - k,
    {
        let entry = entries[k];
        if !entry.is_null() {
            let ghost before = *allocator;
            allocator.dealloc(entry.ptr, entry.layout);
            proof {
                assert forall|i: int| k + 1 <= i < entries@.len() implies allocator.is_live(#[trigger] entries@[i].ptr as int)
                    && allocator.live_order(entries@[i].ptr as int) == wend.orders[i] by {
                    assert(before.is_live(entries@[i].ptr as int));
                    assert(entries@[i].ptr != entries@[k as int].ptr);
                }
                assert(before.slot_of(entry.ptr as int) == a0.slot_of(entry.ptr as int));
            }
        }
        k = k + 1;
    }
    storage.clear();
    sum
}

} // verus!
