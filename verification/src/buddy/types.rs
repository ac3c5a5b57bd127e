//! Block records and layouts used by the buddy allocator.
use vstd::prelude::*;
use crate::text::{decimal, hex_min, push_decimal, push_hex_min, push_text};
use vstd::arithmetic::power2::pow2;
use crate::arith::{round_up, round_up_exec, lemma_pow2_double, lemma_pow2_mono};

verus! {

/// `a` is a power of two (as an exponent of at most 63).
pub open spec fn is_power_of_two(a: int) -> bool {
    exists|k: nat| k < 64 && pow2(k) == a
}

/// Decides whether `x` is a power of two.
pub fn power_of_two(x: usize) -> (r: bool)
    ensures
        r == is_power_of_two(x as int),
{
    if x == 0 {
        proof {
            assert forall|k: nat| k < 64 implies pow2(k) != 0 by {
                lemma_pow2_double(k);
            }
        }
        return false;
    }
    let mut y: usize = x;
    let mut k: usize = 0;
    proof {
        vstd::arithmetic::power2::lemma2_to64();
    }
    while y % 2 == 0
        invariant
            y >= 1,
            k < 64,
            y * pow2(k as nat) == x,
            x > 0,
        decreases y,
    {
        proof {
            lemma_pow2_double(k as nat);
            assert((y / 2) * pow2(k as nat + 1) == x) by (nonlinear_arith)
                requires
                    y % 2 == 0,
                    y * pow2(k as nat) == x,
                    pow2(k as nat + 1) == 2 * pow2(k as nat),
            ;
            if k == 63 {
                vstd::arithmetic::power2::lemma2_to64_rest();
                assert(y / 2 >= 1);
                assert((y / 2) * pow2(64) >= pow2(64)) by (nonlinear_arith)
                    requires
                        y / 2 >= 1,
                ;
                assert(false);
            }
        }
        y = y / 2;
        k = k + 1;
    }
    if y == 1 {
        proof {
            assert(pow2(k as nat) == x);
        }
        true
    } else {
        proof {
            assert forall|j: nat| j < 64 implies pow2(j) != x by {
                if pow2(j) == x {
                    lemma_pow2_double(j);
                    if j <= k {
                        lemma_pow2_mono(j, k as nat);
                        assert(y * pow2(k as nat) > pow2(j)) by (nonlinear_arith)
                            requires
                                y >= 3,
                                pow2(k as nat) >= pow2(j),
                                pow2(j) > 0,
                        ;
                    } else {
                        // x = y * 2^k = 2^j with j > k makes y even
                        vstd::arithmetic::power2::lemma_pow2_adds(k as nat, (j - k - 1) as nat);
                        lemma_pow2_double((j - 1) as nat);
                        let m = pow2((j - k - 1) as nat);
                        assert(pow2(j) == 2 * m * pow2(k as nat)) by (nonlinear_arith)
                            requires
                                pow2(j) == 2 * pow2((j - 1) as nat),
                                pow2((j - 1) as nat) == pow2(k as nat) * m,
                        ;
                        assert(y == 2 * m) by (nonlinear_arith)
                            requires
                                y * pow2(k as nat) == 2 * m * pow2(k as nat),
                                pow2(k as nat) > 0,
                        ;
                    }
                }
            }
        }
        false
    }
}

/// Size and alignment of a requested allocation.
#[derive(Clone, Copy, Debug)]
pub struct Layout {
    size: usize,
    align: usize,
}

impl Layout {
    /// The layout's invariant: a power-of-two alignment, and a size that,
    /// rounded up to it, does not exceed `isize::MAX`.
    pub open spec fn valid(size: int, align: int) -> bool {
        &&& is_power_of_two(align)
        &&& round_up(size, align) <= isize::MAX
    }

    /// The layout with the given fields.
    pub closed spec fn spec_new(size: usize, align: usize) -> Layout {
        Layout { size, align }
    }

    pub proof fn lemma_spec_new(size: usize, align: usize)
        ensures
            Self::spec_new(size, align).spec_size() == size,
            Self::spec_new(size, align).spec_align() == align,
            Self::valid(size as int, align as int) ==> Self::spec_new(size, align).wf(),
    {
    }

    /// A layout whose fields the caller has checked.
    pub fn from_size_align_unchecked(size: usize, align: usize) -> (r: Layout)
        requires
            Self::valid(size as int, align as int),
        ensures
            r == Self::spec_new(size, align),
            r.wf(),
    {
        Layout { size, align }
    }

    pub closed spec fn spec_size(&self) -> usize {
        self.size
    }

    pub closed spec fn spec_align(&self) -> usize {
        self.align
    }

    pub closed spec fn wf(&self) -> bool {
        Self::valid(self.size as int, self.align as int)
    }

    /// Builds a layout; `None` where the alignment is no power of two or the
    /// size rounded up to it exceeds `isize::MAX`.
    pub fn from_size_align(size: usize, align: usize) -> (r: Option<Layout>)
        ensures
            r is Some <==> Self::valid(size as int, align as int),
            r matches Some(l) ==> l.spec_size() == size && l.spec_align() == align && l.wf(),
    {
        if !power_of_two(align) {
            return None;
        }
        if size > (isize::MAX as usize) {
            proof {
                assert(align >= 1) by {
                    let k = choose|k: nat| k < 64 && pow2(k) == align;
                    lemma_pow2_double(k);
                }
                assert(round_up(size as int, align as int) >= size) by {
                    round_up_lower(size as int, align as int);
                }
            }
            return None;
        }
        proof {
            let k = choose|k: nat| k < 64 && pow2(k) == align;
            lemma_pow2_double(k);
            crate::arith::lemma_pow2_fits_isize(k);
        }
        let r = round_up_exec(size, align);
        if r > (isize::MAX as usize) {
            None
        } else {
            Some(Layout { size, align })
        }
    }

    pub fn size(&self) -> (r: usize)
        ensures
            r == self.spec_size(),
    {
        self.size
    }

    pub fn align(&self) -> (r: usize)
        ensures
            r == self.spec_align(),
    {
        self.align
    }

    pub proof fn lemma_wf(&self)
        requires
            self.wf(),
        ensures
            self.spec_align() >= 1,
            self.spec_align() <= isize::MAX + 1,
            is_power_of_two(self.spec_align() as int),
            self.spec_size() <= isize::MAX,
            round_up(self.spec_size() as int, self.spec_align() as int) <= isize::MAX,
            round_up(self.spec_size() as int, self.spec_align() as int) >= self.spec_size(),
    {
        let k = choose|k: nat| k < 64 && pow2(k) == self.align;
        lemma_pow2_double(k);
        crate::arith::lemma_pow2_fits_isize(k);
        round_up_lower(self.size as int, self.align as int);
    }
}

pub proof fn round_up_lower(x: int, a: int)
    requires
        a >= 1,
        x >= 0,
    ensures
        round_up(x, a) >= x,
{
    vstd::arithmetic::div_mod::lemma_fundamental_div_mod(x + a - 1, a);
    let q = (x + a - 1) / a;
    assert(q * a > x - 1) by (nonlinear_arith)
        requires
            (x + a - 1) == a * q + (x + a - 1) % a,
            (x + a - 1) % a < a,
    ;
}

/// Size of the header that precedes the data of every block.
pub const BLOCK_HEADER_SIZE: usize = 16;

/// The header a block carries: its order, whether it is free, and the next
/// block in its free list.
#[derive(Clone, Copy, Debug)]
pub struct BuddyBlock {
    pub order: u8,
    pub free: bool,
    pub next: usize,
}

impl BuddyBlock {
    /// Size in bytes of a block header.
    pub fn size_of() -> (r: usize)
        ensures
            r == BLOCK_HEADER_SIZE,
    {
        BLOCK_HEADER_SIZE
    }

    /// The header of a block of the given order, free and unlinked.
    pub fn init(order: u8) -> (r: BuddyBlock)
        ensures
            r.order == order,
            r.free,
            r.next == 0,
    {
        BuddyBlock { order, free: true, next: 0 }
    }

    /// Size of a block of this order, for the given smallest block size.
    pub fn size(&self, min_block: usize) -> (r: usize)
        requires
            self.order < 64,
            min_block * pow2(self.order as nat) <= usize::MAX,
        ensures
            r == min_block * pow2(self.order as nat),
    {
        block_bytes(min_block, self.order as usize)
    }

    /// Address of the data that follows the header at `block_addr`.
    pub fn data(block_addr: usize) -> (r: usize)
        requires
            block_addr + BLOCK_HEADER_SIZE <= usize::MAX,
        ensures
            r == block_addr + BLOCK_HEADER_SIZE,
    {
        block_addr + BLOCK_HEADER_SIZE
    }

    /// Address of the header that precedes the data at `ptr`.
    pub fn from_ptr(ptr: usize) -> (r: usize)
        requires
            ptr >= BLOCK_HEADER_SIZE,
        ensures
            r == ptr - BLOCK_HEADER_SIZE,
    {
        ptr - BLOCK_HEADER_SIZE
    }

    /// Address of the buddy of the block of the given order at
    /// `block_addr`: the next block when `block_addr / size` is even, the
    /// previous one otherwise.
    pub fn buddy(block_addr: usize, min_block: usize, order: u8) -> (r: usize)
        requires
            order < 64,
            min_block > 0,
            min_block * pow2(order as nat) <= usize::MAX,
            (block_addr as int / (min_block * pow2(order as nat))) % 2 == 0 ==> block_addr + min_block * pow2(
                order as nat,
            ) <= usize::MAX,
        ensures
            r == buddy_addr(block_addr as int, min_block * pow2(order as nat)),
    {
        let block_size = block_bytes(min_block, order as usize);
        proof {
            lemma_pow2_double(order as nat);
            assert(block_size > 0) by (nonlinear_arith)
                requires
                    block_size == min_block * pow2(order as nat),
                    min_block > 0,
                    pow2(order as nat) > 0,
            ;
        }
        if (block_addr / block_size) % 2 == 0 {
            block_addr + block_size
        } else {
            proof {
                assert(block_addr >= block_size) by (nonlinear_arith)
                    requires
                        (block_addr / block_size) % 2 != 0,
                        block_size > 0,
                ;
            }
            block_addr - block_size
        }
    }
}

/// The buddy of the block of `bs` bytes at `addr`: the next block when
/// `addr / bs` is even, the previous one otherwise.
pub open spec fn buddy_addr(addr: int, bs: int) -> int {
    if (addr / bs) % 2 == 0 {
        addr + bs
    } else {
        addr - bs
    }
}

/// A block aligned to its size and its buddy are one size apart, the lower
/// of the two is aligned to twice the size, the buddy is aligned to the
/// size too, and the buddy's buddy is the block again.
pub proof fn law_buddy_pairs(addr: int, bs: int)
    requires
        bs > 0,
        addr >= 0,
        addr % bs == 0,
    ensures
        ({
            let c = buddy_addr(addr, bs);
            &&& c >= 0
            &&& (c - addr == bs || addr - c == bs)
            &&& (if addr < c { addr } else { c }) % (2 * bs) == 0
            &&& c % bs == 0
            &&& buddy_addr(c, bs) == addr
        }),
{
    let q = addr / bs;
    vstd::arithmetic::div_mod::lemma_fundamental_div_mod(addr, bs);
    assert(addr == bs * q);
    assert(q >= 0) by (nonlinear_arith)
        requires
            addr == bs * q,
            addr >= 0,
            bs > 0,
    ;
    let m = q / 2;
    if q % 2 == 0 {
        let c = addr + bs;
        assert(c == bs * (q + 1)) by (nonlinear_arith)
            requires
                addr == bs * q,
                c == addr + bs,
        ;
        vstd::arithmetic::div_mod::lemma_div_multiples_vanish(q + 1, bs);
        vstd::arithmetic::div_mod::lemma_mod_multiples_basic(q + 1, bs);
        assert((q + 1) * bs == bs * (q + 1)) by (nonlinear_arith);
        assert(addr == m * (2 * bs)) by (nonlinear_arith)
            requires
                addr == bs * q,
                q == 2 * m,
        ;
        vstd::arithmetic::div_mod::lemma_mod_multiples_basic(m, 2 * bs);
    } else {
        let c = addr - bs;
        assert(q >= 1);
        assert(c == bs * (q - 1)) by (nonlinear_arith)
            requires
                addr == bs * q,
                c == addr - bs,
        ;
        assert(c >= 0) by (nonlinear_arith)
            requires
                c == bs * (q - 1),
                q >= 1,
                bs > 0,
        ;
        vstd::arithmetic::div_mod::lemma_div_multiples_vanish(q - 1, bs);
        vstd::arithmetic::div_mod::lemma_mod_multiples_basic(q - 1, bs);
        assert((q - 1) * bs == bs * (q - 1)) by (nonlinear_arith);
        assert(c == m * (2 * bs)) by (nonlinear_arith)
            requires
                c == bs * (q - 1),
                q - 1 == 2 * m,
        ;
        vstd::arithmetic::div_mod::lemma_mod_multiples_basic(m, 2 * bs);
    }
}

/// `min_block << order`.
pub fn block_bytes(min_block: usize, order: usize) -> (r: usize)
    requires
        order < 64,
        min_block * pow2(order as nat) <= usize::MAX,
    ensures
        r == min_block * pow2(order as nat),
{
    let mut r = min_block;
    let mut i: usize = 0;
    proof {
        vstd::arithmetic::power2::lemma2_to64();
    }
    while i < order
        invariant
            i <= order,
            r == min_block * pow2(i as nat),
            min_block * pow2(order as nat) <= usize::MAX,
        decreases order - i,
    {
        proof {
            lemma_pow2_double(i as nat);
            lemma_pow2_mono(i as nat + 1, order as nat);
            assert(min_block * pow2(i as nat + 1) <= min_block * pow2(order as nat)) by (nonlinear_arith)
                requires
                    pow2(i as nat + 1) <= pow2(order as nat),
            ;
            assert(r * 2 == min_block * pow2(i as nat + 1)) by (nonlinear_arith)
                requires
                    r == min_block * pow2(i as nat),
                    pow2(i as nat + 1) == 2 * pow2(i as nat),
            ;
        }
        r = r * 2;
        i = i + 1;
    }
    r
}

/// Marks that the allocator has set up its free lists.
pub struct Header(pub u8);

impl Header {
    /// Size in bytes of the header.
    pub fn size_of() -> (r: usize)
        ensures
            r == 8,
    {
        8
    }

    /// A header in its initialized state.
    pub fn init() -> (r: Header)
        ensures
            r.0 == 1,
    {
        Header(1)
    }

    pub fn is_initialized(&self) -> (r: bool)
        ensures
            r == (self.0 == 1),
    {
        self.0 == 1
    }
}

/// The heads of the free lists: one per order below the largest, and one
/// more for the largest order.
pub struct FreeListHeads {
    pub heads: Vec<usize>,
    pub extra: usize,
}

impl FreeListHeads {
    /// Size in bytes of the heads for `max_order` orders plus the extra one.
    pub fn size_of(max_order: usize) -> (r: usize)
        requires
            max_order < 64,
        ensures
            r == 8 * (max_order + 1),
    {
        8 * (max_order + 1)
    }

    /// All heads empty.
    pub fn init(max_order: usize) -> (r: FreeListHeads)
        requires
            max_order < 64,
        ensures
            r.heads@.len() == max_order,
            forall|i: int| 0 <= i < max_order ==> r.heads@[i] == 0,
            r.extra == 0,
    {
        let mut heads: Vec<usize> = Vec::new();
        let mut i: usize = 0;
        while i < max_order
            invariant
                i <= max_order,
                heads@.len() == i,
                forall|j: int| 0 <= j < i ==> heads@[j] == 0,
            decreases max_order - i,
        {
            heads.push(0);
            i = i + 1;
        }
        FreeListHeads { heads, extra: 0 }
    }

    /// The head for `order`: the extra one for orders from `max_order` up.
    pub fn head(&self, order: usize) -> (r: usize)
        requires
            self.heads@.len() < usize::MAX,
        ensures
            order < self.heads@.len() ==> r == self.heads@[order as int],
            order >= self.heads@.len() ==> r == self.extra,
    {
        if order < self.heads.len() {
            self.heads[order]
        } else {
            self.extra
        }
    }
}

/// What a walk over the blocks reports of one block.
#[derive(Clone, Copy, Debug)]
pub struct BuddyBlockInfo {
    pub ptr: usize,
    pub order: u8,
    pub size: usize,
    pub free: bool,
}

impl BuddyBlockInfo {
    pub fn ptr(&self) -> (r: usize)
        ensures
            r == self.ptr,
    {
        self.ptr
    }

    pub fn order(&self) -> (r: u8)
        ensures
            r == self.order,
    {
        self.order
    }

    pub fn size(&self) -> (r: usize)
        ensures
            r == self.size,
    {
        self.size
    }

    pub fn free(&self) -> (r: bool)
        ensures
            r == self.free,
    {
        self.free
    }

    /// The address in hex, the order, the size and whether the block is
    /// free, as one line.
    pub fn to_string(&self) -> (r: String)
        ensures
            r@ == "0x"@ + hex_min(self.ptr as nat, true) + " order="@ + decimal(self.order as nat) + " size="@
                + decimal(self.size as nat) + " "@ + (if self.free {
                "free"@
            } else {
                "used"@
            }),
    {
        let mut s = String::new();
        push_text(&mut s, "0x");
        push_hex_min(&mut s, self.ptr as u64, true);
        push_text(&mut s, " order=");
        push_decimal(&mut s, self.order as u64);
        push_text(&mut s, " size=");
        push_decimal(&mut s, self.size as u64);
        push_text(&mut s, " ");
        if self.free {
            push_text(&mut s, "free");
        } else {
            push_text(&mut s, "used");
        }
        s
    }
}

/// A walk over a list of blocks, one at a time.
pub struct BuddyBlockIter {
    items: Vec<BuddyBlockInfo>,
    index: usize,
}

impl BuddyBlockIter {
    /// The blocks still to come.
    pub closed spec fn remaining(&self) -> Seq<BuddyBlockInfo> {
        self.items@.skip(self.index as int)
    }

    pub closed spec fn wf(&self) -> bool {
        self.index <= self.items@.len()
    }

    /// A walk over `items`, in their order.
    pub fn new(items: Vec<BuddyBlockInfo>) -> (r: Self)
        ensures
            r.wf(),
            r.remaining() == items@,
    {
        let r = BuddyBlockIter { items, index: 0 };
        assert(r.remaining() =~= r.items@);
        r
    }

    /// The next block, if any is left.
    pub fn next(&mut self) -> (r: Option<BuddyBlockInfo>)
        requires
            old(self).wf(),
        ensures
            final(self).wf(),
            old(self).remaining().len() == 0 ==> r is None && final(self).remaining() == old(
                self,
            ).remaining(),
            old(self).remaining().len() > 0 ==> r == Some(old(self).remaining()[0])
                && final(self).remaining() == old(self).remaining().drop_first(),
    {
        if self.index >= self.items.len() {
            return None;
        }
        let item = self.items[self.index];
        self.index = self.index + 1;
        assert(self.remaining() =~= old(self).remaining().drop_first());
        Some(item)
    }
}

} // verus!
