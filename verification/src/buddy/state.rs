//! The shape of a buddy allocator's blocks, as predicates over plain
//! sequences, and the steps that split, merge, take and return blocks.
//!
//! Slots are the smallest blocks, numbered from the first block. A block of
//! order `k` starts at a slot that is a multiple of `2^k` and covers `2^k`
//! slots; `owner[x]` is the start of the block that covers slot `x`.
use vstd::prelude::*;
use vstd::arithmetic::power2::pow2;
use crate::arith::{lemma_pow2_double, lemma_pow2_mono, lemma_halves_aligned, lemma_buddy_parent};

verus! {

/// The blocks tile slots `0..n`: each lies inside them, is aligned to its
/// size, and owns exactly the slots it covers.
pub open spec fn blocks_ok(starts: Set<int>, owner: Seq<int>, ord: Seq<usize>, n: int, top: int) -> bool {
    &&& owner.len() == n
    &&& ord.len() == n
    &&& forall|s: int|
        #[trigger] starts.contains(s) ==> {
            &&& 0 <= s < n
            &&& ord[s] <= top
            &&& s % (pow2(ord[s] as nat) as int) == 0
            &&& s + pow2(ord[s] as nat) <= n
        }
    &&& forall|x: int|
        0 <= x < n ==> {
            &&& starts.contains(#[trigger] owner[x])
            &&& owner[x] <= x
            &&& x < owner[x] + pow2(ord[owner[x]] as nat)
        }
    &&& forall|s: int, x: int|
        #![trigger starts.contains(s), owner[x]]
        starts.contains(s) && s <= x < s + pow2(ord[s] as nat) ==> owner[x] == s
}

/// The free lists hold exactly the free blocks, each in the list of its
/// order, once.
pub open spec fn lists_ok(
    lists: Seq<Seq<usize>>,
    starts: Set<int>,
    ord: Seq<usize>,
    frees: Seq<bool>,
    n: int,
    maxo: int,
) -> bool {
    &&& lists.len() == maxo + 1
    &&& frees.len() == n
    &&& forall|k: int, i: int|
        #![trigger lists[k][i]]
        0 <= k < lists.len() && 0 <= i < lists[k].len() ==> {
            &&& lists[k][i] < n
            &&& starts.contains(lists[k][i] as int)
            &&& ord[lists[k][i] as int] == k
            &&& frees[lists[k][i] as int]
        }
    &&& forall|k: int| 0 <= k < lists.len() ==> (#[trigger] lists[k]).no_duplicates()
    &&& forall|x: int|
        0 <= x < n && #[trigger] frees[x] ==> {
            &&& starts.contains(x)
            &&& ord[x] <= maxo
            &&& lists[ord[x] as int].contains(x as usize)
        }
}

/// The slot of the buddy of the block of size `p` at slot `s`.
pub open spec fn buddy_slot(s: int, p: int) -> int {
    if (s / p) % 2 == 0 {
        s + p
    } else {
        s - p
    }
}

pub open spec fn owner_after(owner: Seq<int>, lo: int, len: int, v: int) -> Seq<int> {
    Seq::new(owner.len(), |x: int| if lo <= x < lo + len { v } else { owner[x] })
}

/// A block's slots are owned by it alone.
pub proof fn lemma_owned(starts: Set<int>, owner: Seq<int>, ord: Seq<usize>, n: int, top: int, s: int, x: int)
    requires
        blocks_ok(starts, owner, ord, n, top),
        starts.contains(s),
        s <= x < s + pow2(ord[s] as nat),
    ensures
        owner[x] == s,
        0 <= x < n,
{
}

/// Splitting the taken block of order `i + 1` at `s` into two of order `i`,
/// the upper one free in the list of order `i`.
pub proof fn lemma_split(
    starts: Set<int>,
    owner: Seq<int>,
    ord: Seq<usize>,
    frees: Seq<bool>,
    lists: Seq<Seq<usize>>,
    n: int,
    top: int,
    maxo: int,
    s: int,
    i: int,
)
    requires
        n <= usize::MAX,
        blocks_ok(starts, owner, ord, n, top),
        lists_ok(lists, starts, ord, frees, n, maxo),
        top <= maxo,
        starts.contains(s),
        0 <= i,
        ord[s] == i + 1,
        !frees[s],
    ensures
        ({
            let p = pow2(i as nat) as int;
            let b = s + p;
            &&& 0 <= b < n
            &&& b + p <= n
            &&& !starts.contains(b)
            &&& p == pow2((i + 1) as nat) / 2
            &&& blocks_ok(
                starts.insert(b),
                owner_after(owner, b, p, b),
                ord.update(s, i as usize).update(b, i as usize),
                n,
                top,
            )
            &&& lists_ok(
                lists.update(i, lists[i].push(b as usize)),
                starts.insert(b),
                ord.update(s, i as usize).update(b, i as usize),
                frees.update(b, true),
                n,
                maxo,
            )
        }),
{
    let p = pow2(i as nat) as int;
    let b = s + p;
    lemma_pow2_double(i as nat);
    assert(pow2((i + 1) as nat) == 2 * p);
    lemma_halves_aligned(s, p);
    assert(s + 2 * p <= n);
    lemma_owned(starts, owner, ord, n, top, s, b);
    if starts.contains(b) {
        lemma_pow2_double(ord[b] as nat);
        lemma_owned(starts, owner, ord, n, top, b, b);
    }
    assert(i + 1 <= top);
    assert(lists[i].no_duplicates());
    let starts2 = starts.insert(b);
    let owner2 = owner_after(owner, b, p, b);
    let ord2 = ord.update(s, i as usize).update(b, i as usize);
    let frees2 = frees.update(b, true);
    let lists2 = lists.update(i, lists[i].push(b as usize));
    assert forall|t: int| #[trigger] starts2.contains(t) implies {
        &&& 0 <= t < n
        &&& ord2[t] <= top
        &&& t % (pow2(ord2[t] as nat) as int) == 0
        &&& t + pow2(ord2[t] as nat) <= n
    } by {
        if t != s && t != b {
            assert(starts.contains(t));
        }
    }
    assert forall|x: int| 0 <= x < n implies {
        &&& starts2.contains(#[trigger] owner2[x])
        &&& owner2[x] <= x
        &&& x < owner2[x] + pow2(ord2[owner2[x]] as nat)
    } by {
        if !(b <= x < b + p) {
            let t = owner[x];
            assert(starts.contains(t));
            if t == s {
                assert(x < s + p);
            } else {
                assert(t != b);
            }
        }
    }
    assert forall|t: int, x: int|
        #![trigger starts2.contains(t), owner2[x]]
        starts2.contains(t) && t <= x < t + pow2(ord2[t] as nat) implies owner2[x] == t by {
        if t == b {
        } else if t == s {
            lemma_owned(starts, owner, ord, n, top, s, x);
        } else {
            assert(starts.contains(t));
            lemma_owned(starts, owner, ord, n, top, t, x);
            if b <= x < b + p {
                lemma_owned(starts, owner, ord, n, top, s, x);
            }
        }
    }
    assert(blocks_ok(starts2, owner2, ord2, n, top));
    assert forall|k: int, j: int|
        #![trigger lists2[k][j]]
        0 <= k < lists2.len() && 0 <= j < lists2[k].len() implies {
            &&& lists2[k][j] < n
            &&& starts2.contains(lists2[k][j] as int)
            &&& ord2[lists2[k][j] as int] == k
            &&& frees2[lists2[k][j] as int]
        } by {
        if k == i && j == lists[i].len() {
        } else {
            assert(lists2[k][j] == lists[k][j]);
            let e = lists[k][j] as int;
            assert(starts.contains(e));
            assert(frees[e]);
        }
    }
    assert forall|k: int| 0 <= k < lists2.len() implies (#[trigger] lists2[k]).no_duplicates() by {
        if k == i {
            assert(lists[i].no_duplicates());
            assert forall|j: int| 0 <= j < lists[i].len() implies lists[i][j] != b by {
                assert(starts.contains(lists[i][j] as int));
            }
        }
    }
    assert forall|x: int| 0 <= x < n && #[trigger] frees2[x] implies {
        &&& starts2.contains(x)
        &&& ord2[x] <= maxo
        &&& lists2[ord2[x] as int].contains(x as usize)
    } by {
        if x == b {
            assert(lists2[i][lists[i].len() as int] == b);
        } else {
            assert(frees[x]);
            assert(x != s);
            let j = choose|j: int| 0 <= j < lists[ord[x] as int].len() && lists[ord[x] as int][j] == x as usize;
            assert(lists2[ord[x] as int][j] == x as usize);
        }
    }
}

/// Joining the taken block of order `k` at `s` with its free buddy `b` into
/// one taken block of order `k + 1`.
pub proof fn lemma_merge(
    starts: Set<int>,
    owner: Seq<int>,
    ord: Seq<usize>,
    frees: Seq<bool>,
    lists: Seq<Seq<usize>>,
    n: int,
    top: int,
    maxo: int,
    s: int,
    k: int,
    b: int,
)
    requires
        n <= usize::MAX,
        blocks_ok(starts, owner, ord, n, top),
        lists_ok(lists, starts, ord, frees, n, maxo),
        n == pow2(top as nat),
        0 <= top <= maxo,
        maxo < 64,
        starts.contains(s),
        ord[s] == k,
        !frees[s],
        b == buddy_slot(s, pow2(k as nat) as int),
        0 <= b < n,
        frees[b],
        ord[b] == k,
    ensures
        ({
            let p = pow2(k as nat) as int;
            let q = if s < b { s } else { b };
            let r = if s < b { b } else { s };
            let bi = lists[k].index_of(b as usize);
            &&& k + 1 <= top
            &&& lists[k].contains(b as usize)
            &&& 0 <= bi < lists[k].len()
            &&& lists[k][bi] == b
            &&& q + 2 * p <= n
            &&& blocks_ok(
                starts.remove(r),
                owner_after(owner, q, 2 * p, q),
                ord.update(q, (k + 1) as usize),
                n,
                top,
            )
            &&& lists_ok(
                lists.update(k, lists[k].remove(bi)),
                starts.remove(r),
                ord.update(q, (k + 1) as usize),
                frees.update(b, false),
                n,
                maxo,
            )
            &&& starts.remove(r).contains(q)
        }),
{
    let p = pow2(k as nat) as int;
    lemma_pow2_double(k as nat);
    let q = if s < b { s } else { b };
    let r = if s < b { b } else { s };
    assert(starts.contains(b));
    assert(0 <= k);
    lemma_buddy_parent(s, p);
    assert(q % (2 * p) == 0);
    assert(q + 2 * p <= n);
    assert(k + 1 <= top) by {
        if k + 1 > top {
            lemma_pow2_mono(top as nat, k as nat);
            assert(2 * p > n);
        }
    }
    let bi = lists[k].index_of(b as usize);
    assert(lists[k].contains(b as usize));
    let starts2 = starts.remove(r);
    let owner2 = owner_after(owner, q, 2 * p, q);
    let ord2 = ord.update(q, (k + 1) as usize);
    let frees2 = frees.update(b, false);
    let lk = lists[k].remove(bi);
    let lists2 = lists.update(k, lk);
    // the two halves are owned by s and b
    assert forall|x: int| q <= x < q + 2 * p implies (owner[x] == s || owner[x] == b) by {
        if s <= x < s + p {
            lemma_owned(starts, owner, ord, n, top, s, x);
        } else {
            lemma_owned(starts, owner, ord, n, top, b, x);
        }
    }
    assert forall|t: int| #[trigger] starts2.contains(t) implies {
        &&& 0 <= t < n
        &&& ord2[t] <= top
        &&& t % (pow2(ord2[t] as nat) as int) == 0
        &&& t + pow2(ord2[t] as nat) <= n
    } by {
        assert(starts.contains(t));
        if t == q {
            assert(ord2[t] == k + 1);
            assert(pow2((k + 1) as nat) == 2 * p);
        }
    }
    assert forall|x: int| 0 <= x < n implies {
        &&& starts2.contains(#[trigger] owner2[x])
        &&& owner2[x] <= x
        &&& x < owner2[x] + pow2(ord2[owner2[x]] as nat)
    } by {
        if q <= x < q + 2 * p {
            assert(ord2[q] == k + 1);
            assert(pow2((k + 1) as nat) == 2 * p);
        } else {
            let t = owner[x];
            assert(starts.contains(t));
            if t == s || t == b {
                assert(t <= x < t + p);
                assert(false);
            }
        }
    }
    assert forall|t: int, x: int|
        #![trigger starts2.contains(t), owner2[x]]
        starts2.contains(t) && t <= x < t + pow2(ord2[t] as nat) implies owner2[x] == t by {
        if t == q {
            assert(ord2[q] == k + 1);
            assert(pow2((k + 1) as nat) == 2 * p);
        } else {
            assert(starts.contains(t));
            lemma_owned(starts, owner, ord, n, top, t, x);
            if q <= x < q + 2 * p {
                assert(owner[x] == s || owner[x] == b);
            }
        }
    }
    assert(blocks_ok(starts2, owner2, ord2, n, top));
    assert(lists[k].no_duplicates());
    assert forall|kk: int, j: int|
        #![trigger lists2[kk][j]]
        0 <= kk < lists2.len() && 0 <= j < lists2[kk].len() implies {
            &&& lists2[kk][j] < n
            &&& starts2.contains(lists2[kk][j] as int)
            &&& ord2[lists2[kk][j] as int] == kk
            &&& frees2[lists2[kk][j] as int]
        } by {
        let jj = if kk == k && j >= bi { j + 1 } else { j };
        assert(lists2[kk][j] == lists[kk][jj]);
        let e = lists[kk][jj] as int;
        assert(frees[e]);
        assert(e != s);
        if kk == k {
            assert(jj != bi);
            assert(e != b);
        } else {
            assert(e != b);
        }
    }
    assert forall|kk: int| 0 <= kk < lists2.len() implies (#[trigger] lists2[kk]).no_duplicates() by {
        if kk == k {
            assert(lists[k].no_duplicates());
            assert forall|j1: int, j2: int| 0 <= j1 < lk.len() && 0 <= j2 < lk.len() && j1 != j2 implies lk[j1]
                != lk[j2] by {
                let a1 = if j1 >= bi { j1 + 1 } else { j1 };
                let a2 = if j2 >= bi { j2 + 1 } else { j2 };
                assert(lk[j1] == lists[k][a1]);
                assert(lk[j2] == lists[k][a2]);
            }
        }
    }
    assert forall|x: int| 0 <= x < n && #[trigger] frees2[x] implies {
        &&& starts2.contains(x)
        &&& ord2[x] <= maxo
        &&& lists2[ord2[x] as int].contains(x as usize)
    } by {
        assert(frees[x]);
        assert(x != s);
        assert(x != b);
        let j = choose|j: int| 0 <= j < lists[ord[x] as int].len() && lists[ord[x] as int][j] == x as usize;
        if ord[x] == k {
            assert(j != bi);
            let jj = if j > bi { j - 1 } else { j };
            assert(lk[jj] == x as usize);
        } else {
            assert(lists2[ord[x] as int][j] == x as usize);
        }
    }
}

/// Taking the last block off the free list of order `k`.
pub proof fn lemma_pop(
    starts: Set<int>,
    owner: Seq<int>,
    ord: Seq<usize>,
    frees: Seq<bool>,
    lists: Seq<Seq<usize>>,
    n: int,
    top: int,
    maxo: int,
    k: int,
)
    requires
        n <= usize::MAX,
        blocks_ok(starts, owner, ord, n, top),
        lists_ok(lists, starts, ord, frees, n, maxo),
        0 <= k <= maxo,
        lists[k].len() > 0,
    ensures
        ({
            let s = lists[k].last() as int;
            &&& 0 <= s < n
            &&& starts.contains(s)
            &&& ord[s] == k
            &&& frees[s]
            &&& lists_ok(lists.update(k, lists[k].drop_last()), starts, ord, frees.update(s, false), n, maxo)
        }),
{
    let s = lists[k].last() as int;
    let last = lists[k].len() - 1;
    assert(lists[k][last] == s);
    let lists2 = lists.update(k, lists[k].drop_last());
    let frees2 = frees.update(s, false);
    assert(lists[k].no_duplicates());
    assert forall|kk: int, j: int|
        #![trigger lists2[kk][j]]
        0 <= kk < lists2.len() && 0 <= j < lists2[kk].len() implies {
            &&& lists2[kk][j] < n
            &&& starts.contains(lists2[kk][j] as int)
            &&& ord[lists2[kk][j] as int] == kk
            &&& frees2[lists2[kk][j] as int]
        } by {
        assert(lists2[kk][j] == lists[kk][j]);
        if kk == k {
            assert(j != last);
        }
    }
    assert forall|kk: int| 0 <= kk < lists2.len() implies (#[trigger] lists2[kk]).no_duplicates() by {
        if kk == k {
            assert forall|j1: int, j2: int|
                0 <= j1 < lists2[k].len() && 0 <= j2 < lists2[k].len() && j1 != j2 implies lists2[k][j1]
                != lists2[k][j2] by {
                assert(lists2[k][j1] == lists[k][j1]);
                assert(lists2[k][j2] == lists[k][j2]);
            }
        }
    }
    assert forall|x: int| 0 <= x < n && #[trigger] frees2[x] implies {
        &&& starts.contains(x)
        &&& ord[x] <= maxo
        &&& lists2[ord[x] as int].contains(x as usize)
    } by {
        assert(frees[x]);
        assert(x != s);
        let j = choose|j: int| 0 <= j < lists[ord[x] as int].len() && lists[ord[x] as int][j] == x as usize;
        if ord[x] == k {
            assert(lists[k][j] == x as usize);
            assert(j != last);
            assert(lists2[k][j] == x as usize);
        } else {
            assert(lists2[ord[x] as int][j] == x as usize);
        }
    }
}

/// Putting the taken block at `s` on the free list of its order.
pub proof fn lemma_push(
    starts: Set<int>,
    owner: Seq<int>,
    ord: Seq<usize>,
    frees: Seq<bool>,
    lists: Seq<Seq<usize>>,
    n: int,
    top: int,
    maxo: int,
    s: int,
)
    requires
        n <= usize::MAX,
        blocks_ok(starts, owner, ord, n, top),
        lists_ok(lists, starts, ord, frees, n, maxo),
        top <= maxo,
        starts.contains(s),
        !frees[s],
    ensures
        ({
            let k = ord[s] as int;
            &&& 0 <= k <= maxo
            &&& lists_ok(lists.update(k, lists[k].push(s as usize)), starts, ord, frees.update(s, true), n, maxo)
        }),
{
    let k = ord[s] as int;
    assert(0 <= k <= top);
    assert(lists[k].no_duplicates());
    let lists2 = lists.update(k, lists[k].push(s as usize));
    let frees2 = frees.update(s, true);
    assert forall|kk: int, j: int|
        #![trigger lists2[kk][j]]
        0 <= kk < lists2.len() && 0 <= j < lists2[kk].len() implies {
            &&& lists2[kk][j] < n
            &&& starts.contains(lists2[kk][j] as int)
            &&& ord[lists2[kk][j] as int] == kk
            &&& frees2[lists2[kk][j] as int]
        } by {
        if kk == k && j == lists[k].len() {
        } else {
            assert(lists2[kk][j] == lists[kk][j]);
        }
    }
    assert forall|kk: int| 0 <= kk < lists2.len() implies (#[trigger] lists2[kk]).no_duplicates() by {
        if kk == k {
            assert(lists[k].no_duplicates());
            assert forall|j: int| 0 <= j < lists[k].len() implies lists[k][j] != s by {
                assert(frees[lists[k][j] as int]);
            }
        }
    }
    assert forall|x: int| 0 <= x < n && #[trigger] frees2[x] implies {
        &&& starts.contains(x)
        &&& ord[x] <= maxo
        &&& lists2[ord[x] as int].contains(x as usize)
    } by {
        if x == s {
            assert(lists2[k][lists[k].len() as int] == s as usize);
        } else {
            assert(frees[x]);
            let j = choose|j: int| 0 <= j < lists[ord[x] as int].len() && lists[ord[x] as int][j] == x as usize;
            assert(lists2[ord[x] as int][j] == x as usize);
        }
    }
}

} // verus!
