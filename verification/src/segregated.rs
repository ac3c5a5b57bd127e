//! A heap allocator with one free list per power-of-two order.
//!
//! Addresses are plain integers. Each block starts with a header that
//! records the size of the data after it; the allocator keeps the headers it
//! has written, the latest last, and reads a block's size back from them.
//! Each free list is kept in address order.
use vstd::prelude::*;
use vstd::arithmetic::power2::{pow2, lemma_pow2_pos};
use crate::arith::{round_up, round_up_exec, lemma_pow2_double, lemma_pow2_mono};
use crate::buddy::types::{is_power_of_two, Layout};

verus! {

pub const HEAP_SIZE: usize = 65536;
pub const MIN_BLOCK_SIZE: usize = 16;
pub const MAX_ORDER: usize = 12;

/// The bytes of a block header: the size word and the link word.
pub const BLOCK_HEADER_SIZE: usize = 16;

pub struct BlockHeader;

impl BlockHeader {
    pub fn size() -> (r: usize)
        ensures
            r == BLOCK_HEADER_SIZE,
    {
        BLOCK_HEADER_SIZE
    }
}

/// The bytes of a block of order `o`.
pub open spec fn order_size(o: int) -> int {
    MIN_BLOCK_SIZE * pow2(o as nat)
}

/// The first order from `o` on whose blocks hold `size` bytes, at most the
/// largest order.
pub open spec fn order_from(size: int, o: int) -> int
    decreases MAX_ORDER - o,
{
    if o >= MAX_ORDER - 1 || order_size(o) >= size {
        o
    } else {
        order_from(size, o + 1)
    }
}

/// The order for `size` bytes.
pub open spec fn order_for(size: int) -> int {
    order_from(size, 0)
}

proof fn lemma_order_from(size: int, o: int)
    requires
        0 <= o <= MAX_ORDER - 1,
    ensures
        o <= order_from(size, o) <= MAX_ORDER - 1,
    decreases MAX_ORDER - o,
{
    if !(o >= MAX_ORDER - 1 || order_size(o) >= size) {
        lemma_order_from(size, o + 1);
    }
}

/// An address.
#[derive(Debug, Clone, Copy, PartialEq, Eq, Structural)]
pub struct Address(pub usize);

impl Address {
    pub fn new(addr: usize) -> (r: Self)
        ensures
            r.0 == addr,
    {
        Address(addr)
    }

    pub fn add(&self, offset: usize) -> (r: Self)
        requires
            self.0 + offset <= usize::MAX,
        ensures
            r.0 == self.0 + offset,
    {
        Address(self.0 + offset)
    }

    pub fn sub(&self, offset: usize) -> (r: Self)
        requires
            offset <= self.0,
        ensures
            r.0 == self.0 - offset,
    {
        Address(self.0 - offset)
    }

    /// The address rounded up to a multiple of `align`, a power of two.
    pub fn align_to(&self, align: usize) -> (r: Self)
        requires
            is_power_of_two(align as int),
            self.0 + align - 1 <= usize::MAX,
        ensures
            r.0 == round_up(self.0 as int, align as int),
            r.0 >= self.0,
            r.0 < self.0 + align,
    {
        proof {
            let k = choose|k: nat| k < 64 && pow2(k) == align;
            lemma_pow2_pos(k);
        }
        Address(round_up_exec(self.0, align))
    }

    pub fn xor(&self, other: usize) -> (r: Self)
        ensures
            r.0 == self.0 ^ other,
    {
        Address(self.0 ^ other)
    }

    /// Whether the address lies in `heap_start..heap_end`.
    pub fn is_valid(&self, heap_start: Address, heap_end: Address) -> (r: bool)
        ensures
            r == (heap_start.0 <= self.0 < heap_end.0),
    {
        self.0 >= heap_start.0 && self.0 < heap_end.0
    }
}

/// A size in bytes.
#[derive(Debug, Clone, Copy, PartialEq, Eq, Structural)]
pub struct Size(pub usize);

impl Size {
    /// The order whose blocks first hold this size, at most the largest.
    pub fn to_order(&self) -> (r: usize)
        ensures
            r == order_for(self.0 as int),
            r < MAX_ORDER,
    {
        let mut order: usize = 0;
        let mut block_size: usize = MIN_BLOCK_SIZE;
        proof {
            vstd::arithmetic::power2::lemma2_to64();
            lemma_order_from(self.0 as int, 0);
        }
        while block_size < self.0 && order < MAX_ORDER - 1
            invariant
                order <= MAX_ORDER - 1,
                block_size == order_size(order as int),
                order_for(self.0 as int) == order_from(self.0 as int, order as int),
            decreases MAX_ORDER - order,
        {
            proof {
                lemma_pow2_double(order as nat);
                lemma_pow2_mono(order as nat + 1, 11);
                vstd::arithmetic::power2::lemma2_to64();
            }
            block_size = block_size * 2;
            order = order + 1;
        }
        order
    }

    /// The block size of order `order`.
    pub fn from_order(order: usize) -> (r: Self)
        requires
            order < 28,
        ensures
            r.0 == order_size(order as int),
    {
        let mut s: usize = MIN_BLOCK_SIZE;
        let mut i: usize = 0;
        proof {
            vstd::arithmetic::power2::lemma2_to64();
        }
        while i < order
            invariant
                i <= order < 28,
                s == order_size(i as int),
            decreases order - i,
        {
            proof {
                lemma_pow2_double(i as nat);
                lemma_pow2_mono(i as nat + 1, 27);
                vstd::arithmetic::power2::lemma2_to64();
            }
            s = s * 2;
            i = i + 1;
        }
        Size(s)
    }

    /// The bytes left after `padding` and a header.
    pub fn with_padding(&self, padding: usize) -> (r: Self)
        requires
            padding + BLOCK_HEADER_SIZE <= self.0,
        ensures
            r.0 == self.0 - padding - BLOCK_HEADER_SIZE,
    {
        Size(self.0 - padding - BLOCK_HEADER_SIZE)
    }
}

/// Where `x` goes in a list kept in address order: before the first larger
/// address from `i` on, or at the end.
pub open spec fn insert_pos(l: Seq<usize>, x: usize, i: int) -> int
    decreases l.len() - i,
{
    if i >= l.len() {
        l.len() as int
    } else if x < l[i] {
        i
    } else {
        insert_pos(l, x, i + 1)
    }
}

/// The list with `x` put in address order.
pub open spec fn insert_sorted(l: Seq<usize>, x: usize) -> Seq<usize> {
    l.insert(insert_pos(l, x, 0), x)
}

proof fn lemma_insert_pos(l: Seq<usize>, x: usize, i: int)
    requires
        0 <= i <= l.len(),
    ensures
        i <= insert_pos(l, x, i) <= l.len(),
    decreases l.len() - i,
{
    if i < l.len() && !(x < l[i]) {
        lemma_insert_pos(l, x, i + 1);
    }
}

/// The first order from `o` on whose list is not empty, or -1.
pub open spec fn first_nonempty(lists: Seq<Seq<usize>>, o: int) -> int
    decreases MAX_ORDER - o,
{
    if o >= MAX_ORDER {
        -1
    } else if lists[o].len() > 0 {
        o
    } else {
        first_nonempty(lists, o + 1)
    }
}

proof fn lemma_first_nonempty(lists: Seq<Seq<usize>>, o: int)
    requires
        0 <= o,
    ensures
        first_nonempty(lists, o) == -1 || (o <= first_nonempty(lists, o) < MAX_ORDER
            && lists[first_nonempty(lists, o)].len() > 0),
    decreases MAX_ORDER - o,
{
    if o < MAX_ORDER && lists[o].len() == 0 {
        lemma_first_nonempty(lists, o + 1);
    }
}

/// The lists once the halves between orders `lo` and `hi` that a split
/// leaves above `start` are put in them, the largest first.
pub open spec fn split_lists(ls: Seq<Seq<usize>>, start: int, lo: int, hi: int) -> Seq<Seq<usize>>
    decreases hi - lo,
{
    if hi <= lo {
        ls
    } else {
        split_lists(
            ls.update(hi - 1, insert_sorted(ls[hi - 1], (start + order_size(hi - 1)) as usize)),
            start,
            lo,
            hi - 1,
        )
    }
}

/// The headers once those of the same halves are written.
pub open spec fn split_headers(h: Seq<(usize, usize)>, start: int, lo: int, hi: int) -> Seq<(usize, usize)>
    decreases hi - lo,
{
    if hi <= lo {
        h
    } else {
        split_headers(
            h.push(
                ((start + order_size(hi - 1)) as usize, (order_size(hi - 1) - BLOCK_HEADER_SIZE) as usize),
            ),
            start,
            lo,
            hi - 1,
        )
    }
}

/// The size the latest header written at `a` records, if any was.
pub open spec fn recorded(h: Seq<(usize, usize)>, a: usize) -> Option<usize>
    decreases h.len(),
{
    if h.len() == 0 {
        None
    } else if h.last().0 == a {
        Some(h.last().1)
    } else {
        recorded(h.drop_last(), a)
    }
}

/// The index of the first `x` in `l`, or -1.
pub open spec fn index_of(l: Seq<usize>, x: usize, i: int) -> int
    decreases l.len() - i,
{
    if i >= l.len() {
        -1
    } else if l[i] == x {
        i
    } else {
        index_of(l, x, i + 1)
    }
}

proof fn lemma_index_of(l: Seq<usize>, x: usize, i: int)
    requires
        0 <= i <= l.len(),
    ensures
        index_of(l, x, i) == -1 || (i <= index_of(l, x, i) < l.len() && l[index_of(l, x, i)] == x),
    decreases l.len() - i,
{
    if i < l.len() && l[i] != x {
        lemma_index_of(l, x, i + 1);
    }
}

pub struct SegregatedAllocator {
    free_lists: Vec<Vec<usize>>,
    heap_start: Address,
    heap_end: Address,
    used: usize,
    total: usize,
    headers: Vec<(usize, usize)>,
}

impl SegregatedAllocator {
    /// The free lists, one per order.
    pub closed spec fn lists(&self) -> Seq<Seq<usize>> {
        Seq::new(self.free_lists@.len(), |i: int| self.free_lists@[i]@)
    }

    /// The headers written so far, in order.
    pub closed spec fn header_log(&self) -> Seq<(usize, usize)> {
        self.headers@
    }

    pub closed spec fn start(&self) -> usize {
        self.heap_start.0
    }

    pub closed spec fn end(&self) -> usize {
        self.heap_end.0
    }

    pub closed spec fn spec_used(&self) -> usize {
        self.used
    }

    pub closed spec fn spec_total(&self) -> usize {
        self.total
    }

    pub open spec fn wf(&self) -> bool {
        self.lists().len() == MAX_ORDER
    }

    /// No heap and empty lists.
    pub fn new() -> (r: Self)
        ensures
            r.wf(),
            r.lists() == Seq::new(MAX_ORDER as nat, |i: int| Seq::<usize>::empty()),
            r.header_log() == Seq::<(usize, usize)>::empty(),
            r.start() == 0 && r.end() == 0 && r.spec_used() == 0 && r.spec_total() == 0,
    {
        let mut free_lists: Vec<Vec<usize>> = Vec::new();
        let mut i: usize = 0;
        while i < MAX_ORDER
            invariant
                i <= MAX_ORDER,
                free_lists@.len() == i,
                forall|k: int| 0 <= k < i ==> free_lists@[k]@ == Seq::<usize>::empty(),
            decreases MAX_ORDER - i,
        {
            free_lists.push(Vec::new());
            i = i + 1;
        }
        let r = SegregatedAllocator {
            free_lists,
            heap_start: Address(0),
            heap_end: Address(0),
            used: 0,
            total: 0,
            headers: Vec::new(),
        };
        assert(r.lists() =~= Seq::new(MAX_ORDER as nat, |i: int| Seq::<usize>::empty()));
        r
    }

    /// Takes the heap of `len` bytes at `heap_start`: one block spanning it,
    /// in the list of its order.
    pub fn init(&mut self, heap_start: usize, len: usize)
        requires
            old(self).wf(),
            len >= BLOCK_HEADER_SIZE,
            heap_start + len <= usize::MAX,
        ensures
            final(self).wf(),
            final(self).start() == heap_start,
            final(self).end() == heap_start + len,
            final(self).spec_total() == len,
            final(self).spec_used() == old(self).spec_used(),
            final(self).header_log() == old(self).header_log().push(
                (heap_start, (len - BLOCK_HEADER_SIZE) as usize),
            ),
            final(self).lists() == old(self).lists().update(
                order_for(len - BLOCK_HEADER_SIZE),
                seq![heap_start],
            ),
    {
        self.heap_start = Address::new(heap_start);
        self.heap_end = Address::new(heap_start + len);
        self.total = len;
        let size = len - BLOCK_HEADER_SIZE;
        self.headers.push((heap_start, size));
        let order = Size(size).to_order();
        let mut list: Vec<usize> = Vec::new();
        list.push(heap_start);
        self.set_list(order, list);
    }

    fn set_list(&mut self, order: usize, list: Vec<usize>)
        requires
            old(self).wf(),
            order < MAX_ORDER,
        ensures
            final(self).wf(),
            final(self).lists() == old(self).lists().update(order as int, list@),
            final(self).header_log() == old(self).header_log(),
            final(self).start() == old(self).start(),
            final(self).end() == old(self).end(),
            final(self).spec_used() == old(self).spec_used(),
            final(self).spec_total() == old(self).spec_total(),
    {
        self.free_lists.set(order, list);
        assert(self.lists() =~= old(self).lists().update(order as int, list@));
    }

    fn take_list(&mut self, order: usize) -> (r: Vec<usize>)
        requires
            old(self).wf(),
            order < MAX_ORDER,
        ensures
            r@ == old(self).lists()[order as int],
            final(self).wf(),
            final(self).lists() == old(self).lists().update(order as int, Seq::<usize>::empty()),
            final(self).header_log() == old(self).header_log(),
            final(self).start() == old(self).start(),
            final(self).end() == old(self).end(),
            final(self).spec_used() == old(self).spec_used(),
            final(self).spec_total() == old(self).spec_total(),
    {
        let list = self.free_lists[order].clone();
        assert(list@ =~= old(self).lists()[order as int]);
        self.set_list(order, Vec::new());
        list
    }

    /// The size the latest header at `addr` records.
    fn read_size(&self, addr: usize) -> (r: Option<usize>)
        ensures
            r == recorded(self.header_log(), addr),
    {
        let mut i = self.headers.len();
        proof {
            assert(self.headers@.take(i as int) =~= self.headers@);
        }
        while i > 0
            invariant
                i <= self.headers@.len(),
                recorded(self.headers@, addr) == recorded(self.headers@.take(i as int), addr),
            decreases i,
        {
            let (a, s) = self.headers[i - 1];
            proof {
                assert(self.headers@.take(i as int).drop_last() =~= self.headers@.take(i - 1));
            }
            if a == addr {
                return Some(s);
            }
            i = i - 1;
        }
        None
    }

    /// Puts `block_ptr` in the list of `order`, in address order.
    fn insert_into_free_list(&mut self, block_ptr: Address, order: usize)
        requires
            old(self).wf(),
            order < MAX_ORDER,
        ensures
            final(self).wf(),
            final(self).lists() == old(self).lists().update(
                order as int,
                insert_sorted(old(self).lists()[order as int], block_ptr.0),
            ),
            final(self).header_log() == old(self).header_log(),
            final(self).start() == old(self).start(),
            final(self).end() == old(self).end(),
            final(self).spec_used() == old(self).spec_used(),
            final(self).spec_total() == old(self).spec_total(),
    {
        let mut list = self.take_list(order);
        let ghost l = list@;
        let mut i: usize = 0;
        proof {
            lemma_insert_pos(l, block_ptr.0, 0);
        }
        while i < list.len() && !(block_ptr.0 < list[i])
            invariant
                list@ == l,
                i <= l.len(),
                insert_pos(l, block_ptr.0, 0) == insert_pos(l, block_ptr.0, i as int),
            decreases l.len() - i,
        {
            i = i + 1;
        }
        list.insert(i, block_ptr.0);
        self.set_list(order, list);
    }

    /// Takes the first block off the list of the first order from `order`
    /// on that has one; that block and the order.
    fn find_free_block(&mut self, order: usize) -> (r: Option<(Address, usize)>)
        requires
            old(self).wf(),
            order <= MAX_ORDER,
        ensures
            final(self).wf(),
            ({
                let j = first_nonempty(old(self).lists(), order as int);
                if j < 0 {
                    r is None && final(self).lists() == old(self).lists()
                } else {
                    &&& r == Some((Address(old(self).lists()[j][0]), j as usize))
                    &&& final(self).lists() == old(self).lists().update(j, old(self).lists()[j].drop_first())
                }
            }),
            final(self).header_log() == old(self).header_log(),
            final(self).start() == old(self).start(),
            final(self).end() == old(self).end(),
            final(self).spec_used() == old(self).spec_used(),
            final(self).spec_total() == old(self).spec_total(),
    {
        let mut current_order = order;
        proof {
            lemma_first_nonempty(self.lists(), order as int);
        }
        while current_order < MAX_ORDER
            invariant
                self.wf(),
                self == old(self),
                order <= current_order <= MAX_ORDER,
                first_nonempty(self.lists(), order as int) == first_nonempty(
                    self.lists(),
                    current_order as int,
                ),
            decreases MAX_ORDER - current_order,
        {
            if self.free_lists[current_order].len() > 0 {
                assert(self.lists()[current_order as int].len() > 0);
                let mut list = self.take_list(current_order);
                let first = list.remove(0);
                proof {
                    assert(list@ =~= old(self).lists()[current_order as int].drop_first());
                }
                self.set_list(current_order, list);
                proof {
                    assert(self.lists() =~= old(self).lists().update(
                        current_order as int,
                        old(self).lists()[current_order as int].drop_first(),
                    ));
                }
                return Some((Address(first), current_order));
            }
            assert(self.lists()[current_order as int].len() == 0);
            current_order = current_order + 1;
        }
        None
    }

    /// The blocks in the list of `order`, in list order.
    pub fn free_list(&self, order: usize) -> (r: Vec<usize>)
        requires
            self.wf(),
            order < MAX_ORDER,
        ensures
            r@ == self.lists()[order as int],
    {
        let r = self.free_lists[order].clone();
        assert(r@ =~= self.lists()[order as int]);
        r
    }

    /// The bytes counted as allocated.
    pub fn used(&self) -> (r: usize)
        ensures
            r == self.spec_used(),
    {
        self.used
    }

    /// The data address a user block at `user_ptr` gets for `align`.
    pub fn align_user_ptr(&self, user_ptr: Address, align: usize) -> (r: Address)
        requires
            is_power_of_two(align as int),
            user_ptr.0 + align - 1 <= usize::MAX,
        ensures
            r.0 == round_up(user_ptr.0 as int, align as int),
            user_ptr.0 <= r.0 < user_ptr.0 + align,
    {
        user_ptr.align_to(align)
    }

    /// Makes a free block of the padding in front of an aligned block.
    fn split_padding(&mut self, block_ptr: Address, padding: usize)
        requires
            old(self).wf(),
            padding >= BLOCK_HEADER_SIZE,
        ensures
            final(self).wf(),
            final(self).header_log() == old(self).header_log().push(
                (block_ptr.0, (padding - BLOCK_HEADER_SIZE) as usize),
            ),
            final(self).lists() == old(self).lists().update(
                order_for(padding - BLOCK_HEADER_SIZE),
                insert_sorted(old(self).lists()[order_for(padding - BLOCK_HEADER_SIZE)], block_ptr.0),
            ),
            final(self).start() == old(self).start(),
            final(self).end() == old(self).end(),
            final(self).spec_used() == old(self).spec_used(),
            final(self).spec_total() == old(self).spec_total(),
    {
        let size = padding - BLOCK_HEADER_SIZE;
        self.headers.push((block_ptr.0, size));
        let left_order = Size(size).to_order();
        self.insert_into_free_list(block_ptr, left_order);
    }

    /// Frees the halves a block of order `current_order` at `start_ptr`
    /// sheds down to order `start_order`, the largest first, each above the
    /// part kept.
    fn split_remaining_blocks(&mut self, start_ptr: Address, start_order: usize, current_order: usize)
        requires
            old(self).wf(),
            start_order <= current_order < MAX_ORDER,
            current_order > start_order ==> start_ptr.0 + order_size(current_order - 1) <= usize::MAX,
        ensures
            final(self).wf(),
            final(self).lists() == split_lists(
                old(self).lists(),
                start_ptr.0 as int,
                start_order as int,
                current_order as int,
            ),
            final(self).header_log() == split_headers(
                old(self).header_log(),
                start_ptr.0 as int,
                start_order as int,
                current_order as int,
            ),
            final(self).start() == old(self).start(),
            final(self).end() == old(self).end(),
            final(self).spec_used() == old(self).spec_used(),
            final(self).spec_total() == old(self).spec_total(),
    {
        let mut o = current_order;
        while o > start_order
            invariant
                self.wf(),
                start_order <= o <= current_order < MAX_ORDER,
                current_order > start_order ==> start_ptr.0 + order_size(current_order - 1) <= usize::MAX,
                split_lists(self.lists(), start_ptr.0 as int, start_order as int, o as int) == split_lists(
                    old(self).lists(),
                    start_ptr.0 as int,
                    start_order as int,
                    current_order as int,
                ),
                split_headers(self.header_log(), start_ptr.0 as int, start_order as int, o as int)
                    == split_headers(
                    old(self).header_log(),
                    start_ptr.0 as int,
                    start_order as int,
                    current_order as int,
                ),
                self.start() == old(self).start(),
                self.end() == old(self).end(),
                self.spec_used() == old(self).spec_used(),
                self.spec_total() == old(self).spec_total(),
            decreases o,
        {
            o = o - 1;
            proof {
                lemma_pow2_mono(o as nat, (current_order - 1) as nat);
                lemma_pow2_pos(o as nat);
            }
            let half = Size::from_order(o).0;
            let buddy_ptr = start_ptr.add(half);
            self.headers.push((buddy_ptr.0, half - BLOCK_HEADER_SIZE));
            self.insert_into_free_list(buddy_ptr, o);
        }
    }

    /// After the block at `block_ptr` of `order` is freed: when its buddy
    /// lies in the heap, the list of `order` is walked for the buddy, and
    /// what the walk leaves of it is kept only when the buddy came first.
    /// When the pair starts the heap, their union goes in the next list.
    fn coalesce(&mut self, order: usize, block_ptr: Address)
        requires
            old(self).wf(),
            order < MAX_ORDER,
        ensures
            final(self).wf(),
            (final(self).lists(), final(self).header_log()) == coalesced(
                old(self).lists(),
                old(self).header_log(),
                old(self).start(),
                old(self).end(),
                order as int,
                block_ptr.0,
            ),
            final(self).start() == old(self).start(),
            final(self).end() == old(self).end(),
            final(self).spec_used() == old(self).spec_used(),
            final(self).spec_total() == old(self).spec_total(),
    {
        proof {
            lemma_pow2_mono(order as nat + 1, 12);
            vstd::arithmetic::power2::lemma2_to64();
        }
        let block_size = Size::from_order(order).0;
        let buddy_addr = block_ptr.xor(block_size);
        if buddy_addr.is_valid(self.heap_start, self.heap_end) {
            let ghost l = self.lists()[order as int];
            let list = self.take_list(order);
            let mut i: usize = 0;
            proof {
                lemma_index_of(l, buddy_addr.0, 0);
            }
            while i < list.len() && list[i] != buddy_addr.0
                invariant
                    list@ == l,
                    i <= l.len(),
                    index_of(l, buddy_addr.0, 0) == index_of(l, buddy_addr.0, i as int),
                decreases l.len() - i,
            {
                i = i + 1;
            }
            let found = i < list.len();
            proof {
                lemma_index_of(l, buddy_addr.0, i as int);
            }
            if found && i == 0 {
                let mut rest: Vec<usize> = Vec::new();
                let mut k: usize = 1;
                while k < list.len()
                    invariant
                        list@ == l,
                        1 <= k <= l.len(),
                        rest@ == l.subrange(1, k as int),
                    decreases l.len() - k,
                {
                    rest.push(list[k]);
                    k = k + 1;
                }
                assert(rest@ =~= l.skip(1));
                self.set_list(order, rest);
            }
            if found {
                let merged_ptr = if block_ptr.0 < buddy_addr.0 {
                    block_ptr
                } else {
                    buddy_addr
                };
                if merged_ptr.0 == self.heap_start.0 && order + 1 < MAX_ORDER {
                    let merged_size = Size::from_order(order + 1).0 - BLOCK_HEADER_SIZE;
                    self.headers.push((merged_ptr.0, merged_size));
                    self.insert_into_free_list(merged_ptr, order + 1);
                }
            }
        }
    }
}

/// The lists and headers after a coalesce of the block at `block` of
/// `order` in a heap from `start` to `end`.
pub open spec fn coalesced(
    ls: Seq<Seq<usize>>,
    h: Seq<(usize, usize)>,
    start: usize,
    end: usize,
    order: int,
    block: usize,
) -> (Seq<Seq<usize>>, Seq<(usize, usize)>) {
    let buddy = block ^ (order_size(order) as usize);
    if !(start <= buddy < end) {
        (ls, h)
    } else {
        let l = ls[order];
        let k = index_of(l, buddy, 0);
        let ls1 = ls.update(
            order,
            if k == 0 {
                l.skip(1)
            } else {
                Seq::<usize>::empty()
            },
        );
        let merged = if block < buddy {
            block
        } else {
            buddy
        };
        if k >= 0 && merged == start && order + 1 < MAX_ORDER {
            (
                ls1.update(order + 1, insert_sorted(ls1[order + 1], merged)),
                h.push((merged, (order_size(order + 1) - BLOCK_HEADER_SIZE) as usize)),
            )
        } else {
            (ls1, h)
        }
    }
}

/// The bytes an allocation for `layout` asks for: its size, at least the
/// smallest block.
pub open spec fn request_size(layout: Layout) -> int {
    if layout.spec_size() < MIN_BLOCK_SIZE {
        MIN_BLOCK_SIZE as int
    } else {
        layout.spec_size() as int
    }
}

/// What an allocation for `layout` does to the lists `ls` and headers `h`,
/// given the block `block` of order `j` that it takes: the lists, the
/// headers and the data address.
pub open spec fn carve(
    ls: Seq<Seq<usize>>,
    h: Seq<(usize, usize)>,
    layout: Layout,
    j: int,
    block: int,
) -> (Seq<Seq<usize>>, Seq<(usize, usize)>, int) {
    let order = order_for(request_size(layout));
    let aligned = round_up(block + BLOCK_HEADER_SIZE, layout.spec_align() as int);
    let padding = aligned - block - BLOCK_HEADER_SIZE;
    let ls1 = ls.update(j, ls[j].drop_first());
    let po = order_for(padding - BLOCK_HEADER_SIZE);
    let split = padding > 0 && padding >= MIN_BLOCK_SIZE + BLOCK_HEADER_SIZE;
    let ls2 = if split {
        ls1.update(po, insert_sorted(ls1[po], block as usize))
    } else {
        ls1
    };
    let h2 = if split {
        h.push((block as usize, (padding - BLOCK_HEADER_SIZE) as usize))
    } else {
        h
    };
    let rem = block + BLOCK_HEADER_SIZE + padding;
    let ls3 = split_lists(ls2, rem, order, j);
    let h3 = split_headers(h2, rem, order, j);
    let h4 = h3.push((rem as usize, (order_size(j) - padding - BLOCK_HEADER_SIZE) as usize));
    (ls3, h4, rem + BLOCK_HEADER_SIZE)
}

/// An allocation for `layout` taking the first block of order `j` runs
/// without overflow: the aligned data fits in the block and every address
/// and count it computes fits in a word.
pub open spec fn carve_fits(used: int, layout: Layout, j: int, block: int) -> bool {
    let aligned = round_up(block + BLOCK_HEADER_SIZE, layout.spec_align() as int);
    let padding = aligned - block - BLOCK_HEADER_SIZE;
    &&& block + BLOCK_HEADER_SIZE + layout.spec_align() - 1 <= usize::MAX
    &&& padding + BLOCK_HEADER_SIZE <= order_size(j)
    &&& aligned + order_size(j) + BLOCK_HEADER_SIZE <= usize::MAX
    &&& used + order_size(j) <= usize::MAX
}

impl SegregatedAllocator {
    /// Whether allocating for `layout` now runs without overflow.
    pub open spec fn can_allocate(&self, layout: Layout) -> bool {
        let j = first_nonempty(self.lists(), order_for(request_size(layout)));
        j >= 0 ==> carve_fits(self.spec_used() as int, layout, j, self.lists()[j][0] as int)
    }

    /// Allocates for `layout` from the first list, from the order its size
    /// needs on, that has a block: its first block is taken off the list and
    /// carved. Zero when every list from that order on is empty.
    pub fn allocate(&mut self, layout: Layout) -> (r: usize)
        requires
            old(self).wf(),
            layout.wf(),
            old(self).can_allocate(layout),
        ensures
            final(self).wf(),
            final(self).start() == old(self).start(),
            final(self).end() == old(self).end(),
            final(self).spec_total() == old(self).spec_total(),
            ({
                let j = first_nonempty(old(self).lists(), order_for(request_size(layout)));
                if j < 0 {
                    &&& r == 0
                    &&& final(self).lists() == old(self).lists()
                    &&& final(self).header_log() == old(self).header_log()
                    &&& final(self).spec_used() == old(self).spec_used()
                } else {
                    let (ls, h, data) = carve(
                        old(self).lists(),
                        old(self).header_log(),
                        layout,
                        j,
                        old(self).lists()[j][0] as int,
                    );
                    &&& r == data
                    &&& final(self).lists() == ls
                    &&& final(self).header_log() == h
                    &&& final(self).spec_used() == old(self).spec_used() + order_size(j)
                }
            }),
    {
        proof {
            layout.lemma_wf();
        }
        let size = if layout.size() < MIN_BLOCK_SIZE {
            MIN_BLOCK_SIZE
        } else {
            layout.size()
        };
        let align = layout.align();
        let order = Size(size).to_order();
        let (block_ptr, current_order) = match self.find_free_block(order) {
            Some(found) => found,
            None => return 0,
        };
        proof {
            lemma_first_nonempty(old(self).lists(), order as int);
            lemma_pow2_mono(current_order as nat, 11);
            vstd::arithmetic::power2::lemma2_to64();
            lemma_order_from(request_size(layout), 0);
        }
        let block_size = Size::from_order(current_order).0;
        let aligned_user_ptr = self.align_user_ptr(block_ptr.add(BLOCK_HEADER_SIZE), align);
        let padding = aligned_user_ptr.0 - block_ptr.0 - BLOCK_HEADER_SIZE;
        if padding > 0 && padding >= MIN_BLOCK_SIZE + BLOCK_HEADER_SIZE {
            self.split_padding(block_ptr, padding);
        }
        proof {
            if current_order > order {
                lemma_pow2_mono((current_order - 1) as nat, current_order as nat);
            }
        }
        self.split_remaining_blocks(block_ptr.add(BLOCK_HEADER_SIZE + padding), order, current_order);
        let result_ptr = block_ptr.add(BLOCK_HEADER_SIZE + padding);
        self.headers.push((result_ptr.0, block_size - padding - BLOCK_HEADER_SIZE));
        self.used = self.used + block_size;
        result_ptr.0 + BLOCK_HEADER_SIZE
    }

    /// Whether freeing the data at `ptr` runs without overflow: a header
    /// was written in front of it and its size is counted as used.
    pub open spec fn can_deallocate(&self, ptr: usize) -> bool {
        &&& ptr >= BLOCK_HEADER_SIZE
        &&& recorded(self.header_log(), (ptr - BLOCK_HEADER_SIZE) as usize) matches Some(size)
            && size + BLOCK_HEADER_SIZE <= self.spec_used()
    }

    /// Frees the data at `ptr`: the block size its header records is no
    /// longer counted, the block goes in the list of its order, and that
    /// list is coalesced.
    pub fn deallocate(&mut self, ptr: usize, layout: Layout)
        requires
            old(self).wf(),
            old(self).can_deallocate(ptr),
        ensures
            final(self).wf(),
            final(self).start() == old(self).start(),
            final(self).end() == old(self).end(),
            final(self).spec_total() == old(self).spec_total(),
            ({
                let block = (ptr - BLOCK_HEADER_SIZE) as usize;
                let size = recorded(old(self).header_log(), block)->0;
                let order = order_for(size as int);
                &&& final(self).spec_used() == old(self).spec_used() - size - BLOCK_HEADER_SIZE
                &&& (final(self).lists(), final(self).header_log()) == coalesced(
                    old(self).lists().update(order, insert_sorted(old(self).lists()[order], block)),
                    old(self).header_log(),
                    old(self).start(),
                    old(self).end(),
                    order,
                    block,
                )
            }),
    {
        let user_ptr = Address::new(ptr);
        let block_ptr = user_ptr.sub(BLOCK_HEADER_SIZE);
        let size = match self.read_size(block_ptr.0) {
            Some(s) => s,
            None => {
                proof {
                    assert(false);
                }
                return;
            },
        };
        let block_size = size + BLOCK_HEADER_SIZE;
        let order = Size(size).to_order();
        self.used = self.used - block_size;
        self.insert_into_free_list(block_ptr, order);
        self.coalesce(order, block_ptr);
    }
}

/// What an allocation hands out can be freed: the header in front of the
/// data records the block's size less the alignment padding and the header,
/// that size is counted as used, and freeing it takes back all that the
/// allocation counted but the padding.
pub proof fn law_allocation_is_freeable(a: SegregatedAllocator, layout: Layout)
    requires
        a.wf(),
        layout.wf(),
        a.can_allocate(layout),
        first_nonempty(a.lists(), order_for(request_size(layout))) >= 0,
    ensures
        ({
            let j = first_nonempty(a.lists(), order_for(request_size(layout)));
            let block = a.lists()[j][0] as int;
            let (ls, h, data) = carve(a.lists(), a.header_log(), layout, j, block);
            let padding = round_up(block + BLOCK_HEADER_SIZE, layout.spec_align() as int) - block
                - BLOCK_HEADER_SIZE;
            let used = a.spec_used() + order_size(j);
            &&& data >= BLOCK_HEADER_SIZE
            &&& recorded(h, (data - BLOCK_HEADER_SIZE) as usize) == Some(
                (order_size(j) - padding - BLOCK_HEADER_SIZE) as usize,
            )
            &&& (order_size(j) - padding - BLOCK_HEADER_SIZE) + BLOCK_HEADER_SIZE <= used
            &&& used - ((order_size(j) - padding - BLOCK_HEADER_SIZE) + BLOCK_HEADER_SIZE) == a.spec_used()
                + padding
        }),
{
    layout.lemma_wf();
    let j = first_nonempty(a.lists(), order_for(request_size(layout)));
    let block = a.lists()[j][0] as int;
    let align = layout.spec_align() as int;
    let aligned = round_up(block + BLOCK_HEADER_SIZE, align);
    crate::buddy::types::round_up_lower(block + BLOCK_HEADER_SIZE, align);
}


/// The order chosen for a size is the smallest whose blocks hold it, or the
/// largest order when none does.
pub proof fn law_order_is_smallest_fit(size: int)
    ensures
        0 <= order_for(size) < MAX_ORDER,
        order_size(order_for(size)) >= size || order_for(size) == MAX_ORDER - 1,
        forall|o: int| 0 <= o < order_for(size) ==> order_size(o) < size,
{
    lemma_order_from(size, 0);
    lemma_order_from_smallest(size, 0);
}

proof fn lemma_order_from_smallest(size: int, o: int)
    requires
        0 <= o <= MAX_ORDER - 1,
    ensures
        order_size(order_from(size, o)) >= size || order_from(size, o) == MAX_ORDER - 1,
        forall|p: int| o <= p < order_from(size, o) ==> order_size(p) < size,
    decreases MAX_ORDER - o,
{
    if !(o >= MAX_ORDER - 1 || order_size(o) >= size) {
        lemma_order_from_smallest(size, o + 1);
    }
}

} // verus!
