//! Integer helpers shared by the allocators: powers of two, logarithms and
//! rounding, each with the facts about them that the allocators need.
use vstd::prelude::*;
use vstd::arithmetic::power2::{pow2, lemma_pow2_unfold, lemma_pow2_pos, lemma_pow2_strictly_increases};
use vstd::arithmetic::div_mod::{lemma_fundamental_div_mod, lemma_mod_multiples_basic};

verus! {

/// `x` rounded up to the next multiple of `a`.
pub open spec fn round_up(x: int, a: int) -> int {
    ((x + a - 1) / a) * a
}

/// `k` is the integer base-two logarithm of `x`, rounded down.
pub open spec fn is_floor_log2(k: nat, x: int) -> bool {
    pow2(k) <= x < pow2(k + 1)
}

/// `k` is the smallest exponent whose power of two reaches `x`.
pub open spec fn is_ceil_log2(k: nat, x: int) -> bool {
    &&& x <= pow2(k)
    &&& (k == 0 || pow2((k - 1) as nat) < x)
}

pub proof fn lemma_pow2_double(k: nat)
    ensures
        pow2(k + 1) == 2 * pow2(k),
        pow2(k) > 0,
{
    lemma_pow2_unfold(k + 1);
    lemma_pow2_pos(k);
}

pub proof fn lemma_pow2_mono(a: nat, b: nat)
    requires
        a <= b,
    ensures
        pow2(a) <= pow2(b),
{
    if a < b {
        lemma_pow2_strictly_increases(a, b);
    }
}

/// The floor logarithm is unique.
pub proof fn lemma_floor_log2_unique(k1: nat, k2: nat, x: int)
    requires
        is_floor_log2(k1, x),
        is_floor_log2(k2, x),
    ensures
        k1 == k2,
{
    if k1 < k2 {
        lemma_pow2_mono(k1 + 1, k2);
    } else if k2 < k1 {
        lemma_pow2_mono(k2 + 1, k1);
    }
}

/// The ceiling logarithm is unique.
pub proof fn lemma_ceil_log2_unique(k1: nat, k2: nat, x: int)
    requires
        is_ceil_log2(k1, x),
        is_ceil_log2(k2, x),
    ensures
        k1 == k2,
{
    if k1 < k2 {
        lemma_pow2_mono(k1, (k2 - 1) as nat);
    } else if k2 < k1 {
        lemma_pow2_mono(k2, (k1 - 1) as nat);
    }
}

/// Every positive integer has a floor logarithm.
pub proof fn ilog2_spec_witness(x: int) -> (k: nat)
    requires
        x >= 1,
    ensures
        is_floor_log2(k, x),
    decreases x,
{
    vstd::arithmetic::power2::lemma2_to64();
    if x == 1 {
        0
    } else {
        let h = ilog2_spec_witness(x / 2);
        lemma_pow2_double(h);
        lemma_pow2_double(h + 1);
        h + 1
    }
}

/// Integer base-two logarithm, rounded down (`usize::ilog2`).
pub fn ilog2(x: usize) -> (r: usize)
    requires
        x > 0,
    ensures
        is_floor_log2(r as nat, x as int),
        r < 64,
{
    let mut k: usize = 0;
    let mut p: usize = 1;
    proof {
        vstd::arithmetic::power2::lemma2_to64();
    }
    while p <= x / 2
        invariant
            1 <= p <= x,
            p == pow2(k as nat),
            k < 64,
        decreases x - p,
    {
        proof {
            lemma_pow2_double(k as nat);
            if k == 63 {
                vstd::arithmetic::power2::lemma2_to64_rest();
                assert(pow2(64) == 0x10000000000000000);
                assert(false);
            }
        }
        p = p * 2;
        k = k + 1;
    }
    proof {
        lemma_pow2_double(k as nat);
    }
    k
}

/// `x % (2p) == 0` implies both halves `x` and `x + p` are multiples of `p`.
pub proof fn lemma_halves_aligned(x: int, p: int)
    requires
        p > 0,
        x % (2 * p) == 0,
    ensures
        x % p == 0,
        (x + p) % p == 0,
{
    lemma_fundamental_div_mod(x, 2 * p);
    let q = x / (2 * p);
    assert(x == (2 * q) * p) by (nonlinear_arith)
        requires
            x == 2 * p * q + 0,
    ;
    assert(x + p == (2 * q + 1) * p) by (nonlinear_arith)
        requires
            x == (2 * q) * p,
    ;
    lemma_mod_multiples_basic(2 * q, p);
    lemma_mod_multiples_basic(2 * q + 1, p);
}

/// For a multiple `x` of `p`, the pair it forms with its buddy starts at a
/// multiple of `2p`: at `x` when `x / p` is even, at `x - p` otherwise.
pub proof fn lemma_buddy_parent(x: int, p: int)
    requires
        p > 0,
        x >= 0,
        x % p == 0,
    ensures
        (x / p) % 2 == 0 ==> x % (2 * p) == 0,
        (x / p) % 2 != 0 ==> (x - p) % (2 * p) == 0 && x >= p,
{
    lemma_fundamental_div_mod(x, p);
    let q = x / p;
    assert(x == p * q);
    assert(q >= 0) by (nonlinear_arith)
        requires
            x == p * q,
            x >= 0,
            p > 0,
    ;
    lemma_fundamental_div_mod(q, 2);
    let h = q / 2;
    if q % 2 == 0 {
        assert(x == h * (2 * p)) by (nonlinear_arith)
            requires
                x == p * q,
                q == 2 * h + 0,
        ;
        lemma_mod_multiples_basic(h, 2 * p);
    } else {
        assert(q % 2 == 1);
        assert(x - p == h * (2 * p)) by (nonlinear_arith)
            requires
                x == p * q,
                q == 2 * h + 1,
        ;
        lemma_mod_multiples_basic(h, 2 * p);
        assert(x >= p) by (nonlinear_arith)
            requires
                x == p * q,
                q >= 1,
                p > 0,
        ;
    }
}

/// Rounding up adds less than `a`.
pub proof fn lemma_round_up_upper(x: int, a: int)
    requires
        a >= 1,
        x >= 0,
    ensures
        round_up(x, a) <= x + a - 1,
        round_up(x, a) % a == 0,
{
    lemma_fundamental_div_mod(x + a - 1, a);
    let q = (x + a - 1) / a;
    assert(q * a <= x + a - 1) by (nonlinear_arith)
        requires
            (x + a - 1) == a * q + (x + a - 1) % a,
            (x + a - 1) % a >= 0,
    ;
    lemma_mod_multiples_basic(q, a);
}

/// Rounds `x` up to a multiple of `a`.
pub fn round_up_exec(x: usize, a: usize) -> (r: usize)
    requires
        a > 0,
        x + a - 1 <= usize::MAX,
    ensures
        r == round_up(x as int, a as int),
        r >= x,
        r < x + a,
        r % a == 0,
{
    let q = (x + (a - 1)) / a;
    proof {
        lemma_fundamental_div_mod((x + a - 1) as int, a as int);
        assert(q * a <= x + a - 1) by (nonlinear_arith)
            requires
                (x + a - 1) == a * q + (x + a - 1) % (a as int),
                (x + a - 1) % (a as int) >= 0,
        ;
        assert(q * a > x - 1) by (nonlinear_arith)
            requires
                (x + a - 1) == a * q + (x + a - 1) % (a as int),
                (x + a - 1) % (a as int) < a,
        ;
        lemma_mod_multiples_basic(q as int, a as int);
    }
    q * a
}

} // verus!

verus! {

/// A power of two that fits in a `usize` is at most `isize::MAX + 1`.
pub proof fn lemma_pow2_fits_isize(k: nat)
    requires
        pow2(k) <= usize::MAX,
    ensures
        pow2(k) <= isize::MAX + 1,
{
    vstd::arithmetic::power2::lemma2_to64();
    vstd::arithmetic::power2::lemma2_to64_rest();
    if usize::BITS == 32 {
        if k >= 32 {
            lemma_pow2_mono(32, k);
        } else {
            lemma_pow2_mono(k, 31);
        }
    } else {
        if k >= 64 {
            lemma_pow2_mono(64, k);
        } else {
            lemma_pow2_mono(k, 63);
        }
    }
}

} // verus!

verus! {

/// Masking never exceeds the mask.
pub proof fn lemma_and_le(x: u32, m: u32)
    by (bit_vector)
    ensures
        x & m <= m,
{
}

/// A shift of one below the width is at least one.
pub proof fn lemma_one_shl_pos(s: u32)
    by (bit_vector)
    requires
        s < 32,
    ensures
        1u32 << s >= 1,
{
}

} // verus!
