//! A ChaCha20 keystream generator used as a seeded random number generator.
use vstd::prelude::*;
use vstd::wrapping::u32_specs::wrapping_add;

verus! {

pub const BLOCK_SIZE: usize = 64;
pub const KEY_SIZE: usize = 32;
pub const NONCE_SIZE: usize = 12;
pub const ROUNDS: usize = 20;

/// The little-endian word of four bytes.
pub open spec fn le_word(b0: u8, b1: u8, b2: u8, b3: u8) -> u32 {
    (b0 as u32) | ((b1 as u32) << 8u32) | ((b2 as u32) << 16u32) | ((b3 as u32) << 24u32)
}

/// The word of `s` at byte `i`, little-endian.
pub open spec fn word_at(s: Seq<u8>, i: int) -> u32 {
    le_word(s[i], s[i + 1], s[i + 2], s[i + 3])
}

/// The little-endian bytes of a word.
pub open spec fn word_bytes(x: u32) -> Seq<u8> {
    seq![x as u8, (x >> 8u32) as u8, (x >> 16u32) as u8, (x >> 24u32) as u8]
}

/// `x` rotated left by `n` bits.
pub open spec fn rotl(x: u32, n: u32) -> u32 {
    (x << n) | (x >> (32u32 - n) as u32)
}

/// The state after one quarter round on words `a`, `b`, `c`, `d`.
pub open spec fn quarter(s: Seq<u32>, a: int, b: int, c: int, d: int) -> Seq<u32> {
    let s1 = s.update(a, wrapping_add(s[a], s[b]));
    let s2 = s1.update(d, rotl(s1[d] ^ s1[a], 16));
    let s3 = s2.update(c, wrapping_add(s2[c], s2[d]));
    let s4 = s3.update(b, rotl(s3[b] ^ s3[c], 12));
    let s5 = s4.update(a, wrapping_add(s4[a], s4[b]));
    let s6 = s5.update(d, rotl(s5[d] ^ s5[a], 8));
    let s7 = s6.update(c, wrapping_add(s6[c], s6[d]));
    s7.update(b, rotl(s7[b] ^ s7[c], 7))
}

/// A column round followed by a diagonal round.
pub open spec fn double_round(s: Seq<u32>) -> Seq<u32> {
    let c1 = quarter(s, 0, 4, 8, 12);
    let c2 = quarter(c1, 1, 5, 9, 13);
    let c3 = quarter(c2, 2, 6, 10, 14);
    let c4 = quarter(c3, 3, 7, 11, 15);
    let d1 = quarter(c4, 0, 5, 10, 15);
    let d2 = quarter(d1, 1, 6, 11, 12);
    let d3 = quarter(d2, 2, 7, 8, 13);
    quarter(d3, 3, 4, 9, 14)
}

/// `i` double rounds.
pub open spec fn rounds(s: Seq<u32>, i: nat) -> Seq<u32>
    decreases i,
{
    if i == 0 {
        s
    } else {
        double_round(rounds(s, (i - 1) as nat))
    }
}

/// The block's words: twenty rounds added to the input words.
pub open spec fn block_words(s: Seq<u32>) -> Seq<u32> {
    let w = rounds(s, 10);
    Seq::new(16, |i: int| wrapping_add(w[i], s[i]))
}

/// The little-endian bytes of the first `n` words.
pub open spec fn words_bytes(w: Seq<u32>, n: nat) -> Seq<u8>
    decreases n,
{
    if n == 0 {
        Seq::empty()
    } else {
        words_bytes(w, (n - 1) as nat) + word_bytes(w[n - 1])
    }
}

/// The keystream block for state `s`.
pub open spec fn block_bytes(s: Seq<u32>) -> Seq<u8> {
    words_bytes(block_words(s), 16)
}

/// The state after a block: the 64-bit counter in words 12 and 13 goes up
/// by one.
pub open spec fn advance(s: Seq<u32>) -> Seq<u32> {
    let lo = wrapping_add(s[12], 1);
    let s1 = s.update(12, lo);
    if lo == 0 {
        s1.update(13, wrapping_add(s[13], 1))
    } else {
        s1
    }
}

/// The initial state: the constants, the key's words, a zero counter and
/// the first eight bytes of the nonce.
pub open spec fn initial_state(key: Seq<u8>, nonce: Seq<u8>) -> Seq<u32> {
    Seq::new(
        16,
        |i: int|
            if i == 0 {
                0x61707865u32
            } else if i == 1 {
                0x3320646Eu32
            } else if i == 2 {
                0x79622D32u32
            } else if i == 3 {
                0x6B206574u32
            } else if 4 <= i < 12 {
                word_at(key, 4 * (i - 4))
            } else if i == 12 || i == 13 {
                0u32
            } else if i == 14 {
                word_at(nonce, 0)
            } else {
                word_at(nonce, 4)
            },
    )
}

/// Reads the little-endian word of four bytes.
pub fn u32_from_le_bytes(b0: u8, b1: u8, b2: u8, b3: u8) -> (r: u32)
    ensures
        r == le_word(b0, b1, b2, b3),
{
    (b0 as u32) | ((b1 as u32) << 8u32) | ((b2 as u32) << 16u32) | ((b3 as u32) << 24u32)
}

/// `x` rotated left by `n` bits, for `0 < n < 32`.
pub fn rotate_left(x: u32, n: u32) -> (r: u32)
    requires
        0 < n < 32,
    ensures
        r == rotl(x, n),
{
    (x << n) | (x >> (32 - n))
}

pub struct ChaChaState {
    state: Vec<u32>,
}

impl ChaChaState {
    pub closed spec fn view(&self) -> Seq<u32> {
        self.state@
    }

    /// The state for `key` and `nonce`.
    pub fn new(key: &[u8; 32], nonce: &[u8; 12]) -> (r: ChaChaState)
        ensures
            r.view() == initial_state(key@, nonce@),
    {
        let mut state: Vec<u32> = Vec::new();
        state.push(0x61707865);
        state.push(0x3320646E);
        state.push(0x79622D32);
        state.push(0x6B206574);
        let mut i: usize = 0;
        while i < 8
            invariant
                0 <= i <= 8,
                state@.len() == 4 + i,
                key@.len() == 32,
                forall|j: int| 0 <= j < 4 + i ==> #[trigger] state@[j] == initial_state(key@, nonce@)[j],
            decreases 8 - i,
        {
            let w = u32_from_le_bytes(key[i * 4], key[i * 4 + 1], key[i * 4 + 2], key[i * 4 + 3]);
            state.push(w);
            i = i + 1;
        }
        state.push(0);
        state.push(0);
        state.push(u32_from_le_bytes(nonce[0], nonce[1], nonce[2], nonce[3]));
        state.push(u32_from_le_bytes(nonce[4], nonce[5], nonce[6], nonce[7]));
        let r = ChaChaState { state };
        proof {
            assert(r.view() =~= initial_state(key@, nonce@));
        }
        r
    }

    /// One quarter round on words `a`, `b`, `c`, `d`.
    pub fn quarter_round(&mut self, a: usize, b: usize, c: usize, d: usize)
        requires
            old(self).view().len() == 16,
            a < 16,
            b < 16,
            c < 16,
            d < 16,
        ensures
            final(self).view() == quarter(old(self).view(), a as int, b as int, c as int, d as int),
            final(self).view().len() == 16,
    {
        let x = self.state[a].wrapping_add(self.state[b]);
        self.state.set(a, x);
        let x = rotate_left(self.state[d] ^ self.state[a], 16);
        self.state.set(d, x);
        let x = self.state[c].wrapping_add(self.state[d]);
        self.state.set(c, x);
        let x = rotate_left(self.state[b] ^ self.state[c], 12);
        self.state.set(b, x);
        let x = self.state[a].wrapping_add(self.state[b]);
        self.state.set(a, x);
        let x = rotate_left(self.state[d] ^ self.state[a], 8);
        self.state.set(d, x);
        let x = self.state[c].wrapping_add(self.state[d]);
        self.state.set(c, x);
        let x = rotate_left(self.state[b] ^ self.state[c], 7);
        self.state.set(b, x);
    }

    /// Twenty rounds: ten double rounds.
    pub fn inner_block(&mut self)
        requires
            old(self).view().len() == 16,
        ensures
            final(self).view() == rounds(old(self).view(), 10),
            final(self).view().len() == 16,
    {
        let mut i: usize = 0;
        while i < ROUNDS / 2
            invariant
                0 <= i <= 10,
                self.view().len() == 16,
                self.view() == rounds(old(self).view(), i as nat),
            decreases 10 - i,
        {
            self.quarter_round(0, 4, 8, 12);
            self.quarter_round(1, 5, 9, 13);
            self.quarter_round(2, 6, 10, 14);
            self.quarter_round(3, 7, 11, 15);
            self.quarter_round(0, 5, 10, 15);
            self.quarter_round(1, 6, 11, 12);
            self.quarter_round(2, 7, 8, 13);
            self.quarter_round(3, 4, 9, 14);
            i = i + 1;
        }
    }

    /// The keystream block for the current state; the counter goes up.
    pub fn next_block(&mut self) -> (r: Vec<u8>)
        requires
            old(self).view().len() == 16,
        ensures
            r@ == block_bytes(old(self).view()),
            r@.len() == BLOCK_SIZE,
            final(self).view() == advance(old(self).view()),
    {
        let mut working = ChaChaState { state: self.state.clone() };
        proof {
            assert(working.view() =~= self.view());
        }
        working.inner_block();
        let ghost w = working.view();
        let mut i: usize = 0;
        while i < 16
            invariant
                0 <= i <= 16,
                working.view().len() == 16,
                self.view().len() == 16,
                self.view() == old(self).view(),
                w == rounds(old(self).view(), 10),
                forall|j: int| 0 <= j < i ==> #[trigger] working.view()[j] == block_words(old(self).view())[j],
                forall|j: int| i <= j < 16 ==> #[trigger] working.view()[j] == w[j],
            decreases 16 - i,
        {
            let x = working.state[i].wrapping_add(self.state[i]);
            working.state.set(i, x);
            i = i + 1;
        }
        proof {
            assert(working.view() =~= block_words(old(self).view()));
        }
        let lo = self.state[12].wrapping_add(1);
        self.state.set(12, lo);
        if self.state[12] == 0 {
            let hi = self.state[13].wrapping_add(1);
            self.state.set(13, hi);
        }
        proof {
            assert(self.view() =~= advance(old(self).view()));
        }
        let mut output: Vec<u8> = Vec::new();
        let mut k: usize = 0;
        while k < 16
            invariant
                0 <= k <= 16,
                working.view() == block_words(old(self).view()),
                output@ == words_bytes(working.view(), k as nat),
                output@.len() == 4 * k,
            decreases 16 - k,
        {
            let x = working.state[k];
            output.push(x as u8);
            output.push((x >> 8u32) as u8);
            output.push((x >> 16u32) as u8);
            output.push((x >> 24u32) as u8);
            proof {
                assert(words_bytes(working.view(), (k + 1) as nat) == words_bytes(working.view(), k as nat) + word_bytes(working.view()[k as int]));
            }
            k = k + 1;
            proof {
                assert(output@ =~= words_bytes(working.view(), k as nat));
            }
        }
        output
    }
}

/// A generator's position: its state, the current block and the index of
/// the next unused byte.
pub open spec fn take_stream(
    st: Seq<u32>,
    buf: Seq<u8>,
    idx: int,
    count: nat,
) -> (Seq<u8>, Seq<u32>, Seq<u8>, int)
    decreases count,
{
    if count == 0 {
        (Seq::empty(), st, buf, idx)
    } else {
        let (st1, buf1, idx1) = if idx >= 64 {
            (advance(st), block_bytes(st), 0int)
        } else {
            (st, buf, idx)
        };
        let avail = 64 - idx1;
        let take = if count < avail { count as int } else { avail };
        let rest = take_stream(st1, buf1, idx1 + take, (count - take) as nat);
        (buf1.subrange(idx1, idx1 + take) + rest.0, rest.1, rest.2, rest.3)
    }
}

/// One step of `take_stream`: refill where the block is used up, then take
/// what is left of it, up to `count`.
pub proof fn lemma_take_step(st: Seq<u32>, buf: Seq<u8>, idx: int, count: nat)
    requires
        count > 0,
    ensures
        ({
            let (st1, buf1, idx1) = if idx >= 64 {
                (advance(st), block_bytes(st), 0int)
            } else {
                (st, buf, idx)
            };
            let avail = 64 - idx1;
            let take = if count < avail { count as int } else { avail };
            let rest = take_stream(st1, buf1, idx1 + take, (count - take) as nat);
            let t = take_stream(st, buf, idx, count);
            &&& t.0 == buf1.subrange(idx1, idx1 + take) + rest.0
            &&& t.1 == rest.1
            &&& t.2 == rest.2
            &&& t.3 == rest.3
        }),
{
}

proof fn lemma_words_bytes_len(w: Seq<u32>, n: nat)
    ensures
        words_bytes(w, n).len() == 4 * n,
    decreases n,
{
    if n > 0 {
        lemma_words_bytes_len(w, (n - 1) as nat);
    }
}

/// Filling `n` bytes and then `m` more gives the same bytes, and leaves the
/// generator where it would stand, as filling `n + m` bytes at once.
pub proof fn law_fill_split(st: Seq<u32>, buf: Seq<u8>, idx: int, n: nat, m: nat)
    requires
        0 <= idx <= 64,
        buf.len() == 64,
    ensures
        ({
            let a = take_stream(st, buf, idx, n);
            let b = take_stream(a.1, a.2, a.3, m);
            let c = take_stream(st, buf, idx, n + m);
            &&& c.0 == a.0 + b.0
            &&& c.1 == b.1
            &&& c.2 == b.2
            &&& c.3 == b.3
        }),
    decreases n,
{
    let a = take_stream(st, buf, idx, n);
    let b = take_stream(a.1, a.2, a.3, m);
    let c = take_stream(st, buf, idx, n + m);
    if n == 0 {
        assert(c.0 =~= a.0 + b.0);
    } else {
        lemma_words_bytes_len(block_words(st), 16);
        let (st1, buf1, idx1) = if idx >= 64 {
            (advance(st), block_bytes(st), 0int)
        } else {
            (st, buf, idx)
        };
        assert(buf1.len() == 64);
        let avail = 64 - idx1;
        lemma_take_step(st, buf, idx, n);
        lemma_take_step(st, buf, idx, n + m);
        if n >= avail {
            law_fill_split(st1, buf1, 64, (n - avail) as nat, m);
            let ra = take_stream(st1, buf1, 64, (n - avail) as nat);
            let rc = take_stream(st1, buf1, 64, (n + m - avail) as nat);
            assert(((n - avail) as nat + m) as nat == (n + m - avail) as nat);
            assert(c.0 =~= buf1.subrange(idx1, 64) + rc.0);
            assert(a.0 =~= buf1.subrange(idx1, 64) + ra.0);
            assert(c.0 =~= a.0 + b.0);
        } else {
            let ra = take_stream(st1, buf1, idx1 + n, 0);
            assert(a.0 =~= buf1.subrange(idx1, idx1 + n));
            assert(a.1 == st1 && a.2 == buf1 && a.3 == idx1 + n);
            if m == 0 {
                assert(c.0 =~= a.0 + b.0);
            } else {
                lemma_take_step(st1, buf1, idx1 + n, m);
                if n + m < avail {
                    assert(c.0 =~= buf1.subrange(idx1, idx1 + n + m));
                    assert(b.0 =~= buf1.subrange(idx1 + n, idx1 + n + m));
                    assert(c.0 =~= a.0 + b.0);
                } else {
                    let rc = take_stream(st1, buf1, 64, (n + m - avail) as nat);
                    assert((m - (avail - n)) as nat == (n + m - avail) as nat);
                    assert(c.0 =~= buf1.subrange(idx1, 64) + rc.0);
                    assert(b.0 =~= buf1.subrange(idx1 + n, 64) + rc.0);
                    assert(c.0 =~= a.0 + b.0);
                }
            }
        }
    }
}

/// Where a generator stands: its state, the current block and the index of
/// the next unused byte.
#[verifier::ext_equal]
pub struct StreamPos {
    pub state: Seq<u32>,
    pub buffer: Seq<u8>,
    pub index: int,
}

/// A request made of a generator.
pub enum Draw {
    Word32,
    Word64,
    Bytes(nat),
}

/// What a request gives back.
#[verifier::ext_equal]
pub enum Drawn {
    Word32(u32),
    Word64(u64),
    Bytes(Seq<u8>),
}

/// The position of a generator freshly made from `seed`.
pub open spec fn seeded(seed: Seq<u8>) -> StreamPos {
    let init = initial_state(seed, Seq::new(12, |i: int| 0u8));
    StreamPos { state: advance(init), buffer: block_bytes(init), index: 0 }
}

/// One request: what it gives back and where it leaves the generator.
pub open spec fn draw_step(p: StreamPos, d: Draw) -> (Drawn, StreamPos) {
    match d {
        Draw::Word32 => {
            let fresh = p.index + 4 > 64;
            let st = if fresh { advance(p.state) } else { p.state };
            let buf = if fresh { block_bytes(p.state) } else { p.buffer };
            let idx = if fresh { 0 } else { p.index };
            (Drawn::Word32(word_at(buf, idx)), StreamPos { state: st, buffer: buf, index: idx + 4 })
        },
        Draw::Word64 => {
            let fresh = p.index + 8 > 64;
            let st = if fresh { advance(p.state) } else { p.state };
            let buf = if fresh { block_bytes(p.state) } else { p.buffer };
            let idx = if fresh { 0 } else { p.index };
            (
                Drawn::Word64((word_at(buf, idx) as u64) | ((word_at(buf, idx + 4) as u64) << 32u64)),
                StreamPos { state: st, buffer: buf, index: idx + 8 },
            )
        },
        Draw::Bytes(n) => {
            let t = take_stream(p.state, p.buffer, p.index, n);
            (Drawn::Bytes(t.0), StreamPos { state: t.1, buffer: t.2, index: t.3 })
        },
    }
}

/// A sequence of requests, in order: what they give back and where they
/// leave the generator.
pub open spec fn draw_all(p: StreamPos, ds: Seq<Draw>) -> (Seq<Drawn>, StreamPos)
    decreases ds.len(),
{
    if ds.len() == 0 {
        (Seq::empty(), p)
    } else {
        let (o, p1) = draw_step(p, ds[0]);
        let rest = draw_all(p1, ds.drop_first());
        (seq![o] + rest.0, rest.1)
    }
}

/// Making the requests `a` and then the requests `b` gives back what `a`
/// gives and then what `b` gives from where `a` left off: what a generator
/// hands out depends on nothing but where it stood (for a new one, its seed)
/// and the requests made of it.
pub proof fn law_draws_compose(p: StreamPos, a: Seq<Draw>, b: Seq<Draw>)
    ensures
        draw_all(p, a + b).0 == draw_all(p, a).0 + draw_all(draw_all(p, a).1, b).0,
        draw_all(p, a + b).1 == draw_all(draw_all(p, a).1, b).1,
    decreases a.len(),
{
    if a.len() == 0 {
        assert(a + b =~= b);
        assert(draw_all(p, a).0 + draw_all(p, b).0 =~= draw_all(p, b).0);
    } else {
        let (o, p1) = draw_step(p, a[0]);
        assert((a + b).drop_first() =~= a.drop_first() + b);
        assert((a + b)[0] == a[0]);
        law_draws_compose(p1, a.drop_first(), b);
        let ra = draw_all(p1, a.drop_first());
        let rb = draw_all(ra.1, b);
        assert(draw_all(p, a + b).0 =~= seq![o] + (ra.0 + rb.0));
        assert(seq![o] + (ra.0 + rb.0) =~= (seq![o] + ra.0) + rb.0);
    }
}

pub struct ChaChaRng {
    state: ChaChaState,
    buffer: Vec<u8>,
    index: usize,
}

impl ChaChaRng {
    pub closed spec fn spec_state(&self) -> Seq<u32> {
        self.state.view()
    }

    pub closed spec fn spec_buffer(&self) -> Seq<u8> {
        self.buffer@
    }

    pub closed spec fn spec_index(&self) -> int {
        self.index as int
    }

    /// Where the generator stands.
    pub open spec fn position(&self) -> StreamPos {
        StreamPos { state: self.spec_state(), buffer: self.spec_buffer(), index: self.spec_index() }
    }

    pub closed spec fn wf(&self) -> bool {
        &&& self.state.view().len() == 16
        &&& self.buffer@.len() == BLOCK_SIZE
        &&& self.index <= BLOCK_SIZE
    }

    /// The generator keyed with `seed` and a zero nonce, its first block
    /// ready.
    pub fn from_seed(seed: &[u8; 32]) -> (r: ChaChaRng)
        ensures
            r.wf(),
            r.spec_state() == advance(initial_state(seed@, Seq::new(12, |i: int| 0u8))),
            r.spec_buffer() == block_bytes(initial_state(seed@, Seq::new(12, |i: int| 0u8))),
            r.spec_index() == 0,
            r.position() == seeded(seed@),
    {
        let nonce = [0u8; 12];
        proof {
            assert(nonce@ =~= Seq::new(12, |i: int| 0u8));
        }
        let state = ChaChaState::new(seed, &nonce);
        let mut buffer: Vec<u8> = Vec::new();
        let mut i: usize = 0;
        while i < BLOCK_SIZE
            invariant
                i <= BLOCK_SIZE,
                buffer@.len() == i,
            decreases BLOCK_SIZE - i,
        {
            buffer.push(0);
            i = i + 1;
        }
        let mut rng = ChaChaRng { state, buffer, index: BLOCK_SIZE };
        rng.refill();
        rng
    }

    /// Takes the next block into the buffer.
    fn refill(&mut self)
        requires
            old(self).state.view().len() == 16,
        ensures
            final(self).wf(),
            final(self).spec_buffer() == block_bytes(old(self).spec_state()),
            final(self).spec_state() == advance(old(self).spec_state()),
            final(self).spec_index() == 0,
    {
        self.buffer = self.state.next_block();
        self.index = 0;
    }

    /// The next four bytes of the keystream as a little-endian word; a
    /// fresh block is taken where fewer than four are left.
    pub fn next_u32(&mut self) -> (r: u32)
        requires
            old(self).wf(),
        ensures
            final(self).wf(),
            ({
                let fresh = old(self).spec_index() + 4 > BLOCK_SIZE;
                let st = if fresh { advance(old(self).spec_state()) } else { old(self).spec_state() };
                let buf = if fresh { block_bytes(old(self).spec_state()) } else { old(self).spec_buffer() };
                let idx = if fresh { 0 } else { old(self).spec_index() };
                &&& r == word_at(buf, idx)
                &&& final(self).spec_state() == st
                &&& final(self).spec_buffer() == buf
                &&& final(self).spec_index() == idx + 4
            }),
            (Drawn::Word32(r), final(self).position()) == draw_step(old(self).position(), Draw::Word32),
    {
        if self.index + 4 > BLOCK_SIZE {
            self.refill();
        }
        let i = self.index;
        let r = u32_from_le_bytes(self.buffer[i], self.buffer[i + 1], self.buffer[i + 2], self.buffer[i + 3]);
        self.index = i + 4;
        r
    }

    /// The next eight bytes of the keystream as a little-endian word; a
    /// fresh block is taken where fewer than eight are left.
    pub fn next_u64(&mut self) -> (r: u64)
        requires
            old(self).wf(),
        ensures
            final(self).wf(),
            ({
                let fresh = old(self).spec_index() + 8 > BLOCK_SIZE;
                let st = if fresh { advance(old(self).spec_state()) } else { old(self).spec_state() };
                let buf = if fresh { block_bytes(old(self).spec_state()) } else { old(self).spec_buffer() };
                let idx = if fresh { 0 } else { old(self).spec_index() };
                &&& r == (word_at(buf, idx) as u64) | ((word_at(buf, idx + 4) as u64) << 32u64)
                &&& final(self).spec_state() == st
                &&& final(self).spec_buffer() == buf
                &&& final(self).spec_index() == idx + 8
            }),
            (Drawn::Word64(r), final(self).position()) == draw_step(old(self).position(), Draw::Word64),
    {
        if self.index + 8 > BLOCK_SIZE {
            self.refill();
        }
        let i = self.index;
        let lo = u32_from_le_bytes(self.buffer[i], self.buffer[i + 1], self.buffer[i + 2], self.buffer[i + 3]);
        let hi = u32_from_le_bytes(self.buffer[i + 4], self.buffer[i + 5], self.buffer[i + 6], self.buffer[i + 7]);
        self.index = i + 8;
        (lo as u64) | ((hi as u64) << 32u64)
    }

    /// Fills `buffer` with the next bytes of the keystream, taking fresh
    /// blocks as the current one runs out.
    pub fn fill_bytes(&mut self, buffer: &mut [u8])
        requires
            old(self).wf(),
        ensures
            final(self).wf(),
            ({
                let t = take_stream(
                    old(self).spec_state(),
                    old(self).spec_buffer(),
                    old(self).spec_index(),
                    old(buffer)@.len(),
                );
                &&& final(buffer)@ == t.0
                &&& final(self).spec_state() == t.1
                &&& final(self).spec_buffer() == t.2
                &&& final(self).spec_index() == t.3
            }),
            (Drawn::Bytes(final(buffer)@), final(self).position()) == draw_step(
                old(self).position(),
                Draw::Bytes(old(buffer)@.len()),
            ),
    {
        let ghost total = buffer@.len();
        let ghost target = take_stream(self.spec_state(), self.spec_buffer(), self.spec_index(), total);
        let mut remaining = buffer.len();
        let mut offset: usize = 0;
        while remaining > 0
            invariant
                self.wf(),
                offset + remaining == buffer@.len(),
                offset + remaining <= usize::MAX,
                buffer@.len() == total,
                take_stream(self.spec_state(), self.spec_buffer(), self.spec_index(), remaining as nat).1 == target.1,
                take_stream(self.spec_state(), self.spec_buffer(), self.spec_index(), remaining as nat).2 == target.2,
                take_stream(self.spec_state(), self.spec_buffer(), self.spec_index(), remaining as nat).3 == target.3,
                buffer@.subrange(0, offset as int) + take_stream(
                    self.spec_state(),
                    self.spec_buffer(),
                    self.spec_index(),
                    remaining as nat,
                ).0 == target.0,
            decreases remaining,
        {
            let ghost st0 = self.spec_state();
            let ghost buf0 = self.spec_buffer();
            let ghost idx0 = self.spec_index();
            let ghost b0 = buffer@;
            if self.index >= BLOCK_SIZE {
                self.refill();
            }
            let available = BLOCK_SIZE - self.index;
            let to_copy = if remaining < available { remaining } else { available };
            let mut j: usize = 0;
            while j < to_copy
                invariant
                    self.wf(),
                    j <= to_copy,
                    to_copy <= remaining,
                    self.index + to_copy <= BLOCK_SIZE,
                    offset + remaining == buffer@.len(),
                    offset + remaining <= usize::MAX,
                    buffer@.len() == b0.len(),
                    forall|x: int| 0 <= x < offset ==> buffer@[x] == b0[x],
                    forall|x: int| offset <= x < offset + j ==> #[trigger] buffer@[x] == self.spec_buffer()[self.index + x - offset],
                decreases to_copy - j,
            {
                buffer[offset + j] = self.buffer[self.index + j];
                j = j + 1;
            }
            let ghost idx1 = self.spec_index();
            let ghost buf1 = self.spec_buffer();
            self.index = self.index + to_copy;
            proof {
                lemma_take_step(st0, buf0, idx0, remaining as nat);
                let t = take_stream(st0, buf0, idx0, remaining as nat);
                let rest = take_stream(self.spec_state(), self.spec_buffer(), self.spec_index(), (remaining - to_copy) as nat);
                assert(t.0 == buf1.subrange(idx1, idx1 + to_copy) + rest.0);
                assert(buffer@.subrange(0, offset + to_copy) =~= b0.subrange(0, offset as int) + buf1.subrange(idx1, idx1 + to_copy));
                assert(buffer@.subrange(0, offset + to_copy) + rest.0 =~= b0.subrange(0, offset as int) + t.0);
            }
            offset = offset + to_copy;
            remaining = remaining - to_copy;
        }
        proof {
            assert(buffer@.subrange(0, offset as int) =~= buffer@);
            assert(take_stream(self.spec_state(), self.spec_buffer(), self.spec_index(), 0).0 =~= Seq::<u8>::empty());
        }
    }
}

} // verus!
