//! An environment block under construction: `KEY=VALUE` entries of UTF-16
//! units, each ended by a zero unit, laid out little-endian in a byte buffer
//! of fixed size.
use vstd::prelude::*;

verus! {

#[derive(Debug, Clone, Copy, PartialEq, Eq, Structural)]
pub enum EnvironmentBuilderError {
    BufferOverflow,
    KeyNotFound,
    InvalidUtf16,
    NullPointer,
    StringTooLong,
}

/// The units of a key or a value are at most this many.
pub const MAX_KEY_LEN: usize = 128;
pub const MAX_VALUE_LEN: usize = 128;

/// The unit for `=`.
pub const EQUALS: u16 = 61;

// ---------------------------------------------------------------------------
// The model: bytes, units and entries.
// ---------------------------------------------------------------------------

/// The UTF-16 unit stored little-endian at unit index `k`.
pub open spec fn unit_at(b: Seq<u8>, k: int) -> int {
    b[2 * k] + 256 * b[2 * k + 1]
}

/// The little-endian bytes of a sequence of units.
pub open spec fn unit_bytes(us: Seq<u16>) -> Seq<u8> {
    Seq::new(
        2 * us.len(),
        |i: int|
            if i % 2 == 0 {
                (us[i / 2] % 256) as u8
            } else {
                (us[i / 2] / 256) as u8
            },
    )
}

/// The UTF-16 encoding of one character.
pub open spec fn char_utf16(c: char) -> Seq<u16> {
    let v = c as u32;
    if v < 0x10000 {
        seq![v as u16]
    } else {
        let w = v - 0x10000;
        seq![(0xD800 + w / 0x400) as u16, (0xDC00 + w % 0x400) as u16]
    }
}

/// The UTF-16 encoding of a string.
pub open spec fn utf16(s: Seq<char>) -> Seq<u16>
    decreases s.len(),
{
    if s.len() == 0 {
        seq![]
    } else {
        utf16(s.drop_last()) + char_utf16(s.last())
    }
}

pub proof fn lemma_utf16_push(s: Seq<char>, c: char)
    ensures
        utf16(s.push(c)) == utf16(s) + char_utf16(c),
{
    assert(s.push(c).drop_last() =~= s);
}

/// The units of an entry: the key, `=`, the value and a zero unit.
pub open spec fn entry_units(key: Seq<u16>, value: Seq<u16>) -> Seq<u16> {
    key + seq![EQUALS] + value + seq![0u16]
}

/// The first unit index from `pos` on that holds zero; the end of the
/// buffer counts as one.
pub open spec fn next_null(b: Seq<u8>, pos: int) -> int
    decreases b.len() / 2 - pos,
{
    if pos >= b.len() / 2 {
        pos
    } else if unit_at(b, pos) == 0 {
        pos
    } else {
        next_null(b, pos + 1)
    }
}

/// The first unit index in `from..to` that holds `=`, or `to`.
pub open spec fn first_equals(b: Seq<u8>, from: int, to: int) -> int
    decreases to - from,
{
    if from >= to {
        from
    } else if unit_at(b, from) == EQUALS {
        from
    } else {
        first_equals(b, from + 1, to)
    }
}

pub proof fn lemma_next_null(b: Seq<u8>, pos: int)
    ensures
        next_null(b, pos) >= pos,
        pos < b.len() / 2 ==> next_null(b, pos) <= b.len() / 2,
        forall|k: int| pos <= k < next_null(b, pos) ==> unit_at(b, k) != 0,
        next_null(b, pos) < b.len() / 2 ==> unit_at(b, next_null(b, pos)) == 0,
    decreases b.len() / 2 - pos,
{
    if pos < b.len() / 2 && unit_at(b, pos) != 0 {
        lemma_next_null(b, pos + 1);
    }
}

pub proof fn lemma_first_equals(b: Seq<u8>, from: int, to: int)
    ensures
        from <= to ==> from <= first_equals(b, from, to) <= to,
        forall|k: int| from <= k < first_equals(b, from, to) ==> unit_at(b, k) != EQUALS,
        first_equals(b, from, to) < to ==> unit_at(b, first_equals(b, from, to)) == EQUALS,
    decreases to - from,
{
    if from < to && unit_at(b, from) != EQUALS {
        lemma_first_equals(b, from + 1, to);
    }
}

/// Whether the units `start..eq` spell `key`.
pub open spec fn key_at(b: Seq<u8>, start: int, eq: int, key: Seq<u16>) -> bool {
    &&& eq - start == key.len()
    &&& forall|i: int| 0 <= i < key.len() ==> unit_at(b, start + i) == key[i]
}

/// The first entry at or after unit `pos`, among those that start before
/// unit `limit`, whose name is `key`: its first unit and its length in units
/// with the zero unit.
pub open spec fn scan(b: Seq<u8>, limit: int, pos: int, key: Seq<u16>) -> Option<(int, int)>
    decreases b.len() / 2 + 1 - pos
    via scan_decreases
{
    if pos >= limit || pos >= b.len() / 2 {
        None
    } else {
        let end = next_null(b, pos);
        let eq = first_equals(b, pos, end);
        if eq < end && key_at(b, pos, eq, key) {
            Some((pos, end - pos + 1))
        } else {
            scan(b, limit, end + 1, key)
        }
    }
}

#[via_fn]
proof fn scan_decreases(b: Seq<u8>, limit: int, pos: int, key: Seq<u16>) {
    lemma_next_null(b, pos);
}

/// The first zero unit from `pos` on is at `q` when the units before it are
/// not zero.
proof fn lemma_next_null_at(b: Seq<u8>, pos: int, q: int)
    requires
        0 <= pos <= q < b.len() / 2,
        forall|k: int| pos <= k < q ==> unit_at(b, k) != 0,
        unit_at(b, q) == 0,
    ensures
        next_null(b, pos) == q,
    decreases q - pos,
{
    if pos < q {
        lemma_next_null_at(b, pos + 1, q);
    }
}

/// The first `=` from `from` on is at `q` when the units before it are not.
proof fn lemma_first_equals_at(b: Seq<u8>, from: int, to: int, q: int)
    requires
        from <= q < to,
        forall|k: int| from <= k < q ==> unit_at(b, k) != EQUALS,
        unit_at(b, q) == EQUALS,
    ensures
        first_equals(b, from, to) == q,
    decreases q - from,
{
    if from < q {
        lemma_first_equals_at(b, from + 1, to, q);
    }
}

/// The units in use end with a zero unit, or there are none: every entry in
/// use is closed.
pub open spec fn terminated(b: Seq<u8>, used: int) -> bool {
    &&& used % 2 == 0
    &&& (used == 0 || unit_at(b, used / 2 - 1) == 0)
}

proof fn lemma_next_null_before(b: Seq<u8>, pos: int, q: int)
    requires
        0 <= pos <= q < b.len() / 2,
        unit_at(b, q) == 0,
    ensures
        next_null(b, pos) <= q,
    decreases q - pos,
{
    if pos < q && unit_at(b, pos) != 0 {
        lemma_next_null_before(b, pos + 1, q);
    }
}

/// An entry that `scan` finds in units closed by a zero unit ends with a
/// zero unit inside them, and follows a zero unit unless it is the first.
proof fn lemma_scan_found(b: Seq<u8>, limit: int, pos: int, key: Seq<u16>)
    requires
        0 <= pos,
        0 <= limit <= b.len() / 2,
        limit == 0 || unit_at(b, limit - 1) == 0,
    ensures
        scan(b, limit, pos, key) matches Some((s, l)) ==> {
            &&& pos <= s
            &&& 1 <= l
            &&& s + l <= limit
            &&& (s > pos ==> unit_at(b, s - 1) == 0)
        },
    decreases b.len() / 2 + 1 - pos,
{
    if pos < limit && pos < b.len() / 2 {
        lemma_next_null(b, pos);
        lemma_next_null_before(b, pos, limit - 1);
        let end = next_null(b, pos);
        lemma_scan_found(b, limit, end + 1, key);
    }
}


/// Each unit written reads back as itself.
proof fn lemma_unit_bytes(b: Seq<u8>, length: int, e: Seq<u16>, k: int)
    requires
        0 <= length,
        length % 2 == 0,
        length + 2 * e.len() <= b.len(),
        0 <= k < e.len(),
    ensures
        unit_at(after_write(b, length, e), length / 2 + k) == e[k],
{
    let w = after_write(b, length, e);
    let i = length + 2 * k;
    assert(w[i] == unit_bytes(e)[2 * k]);
    assert(w[i + 1] == unit_bytes(e)[2 * k + 1]);
    assert((2 * k) % 2 == 0 && (2 * k) / 2 == k);
    assert((2 * k + 1) % 2 == 1 && (2 * k + 1) / 2 == k);
}

/// The units of an entry written at the start of a block read back as the
/// entry.
proof fn lemma_entry_reads_back(b: Seq<u8>, e: Seq<u16>)
    requires
        b.len() >= 2 * e.len(),
    ensures
        after_write(b, 0, e).len() == b.len(),
        forall|k: int| 0 <= k < e.len() ==> #[trigger] unit_at(after_write(b, 0, e), k) == e[k],
{
    assert forall|k: int| 0 <= k < e.len() implies #[trigger] unit_at(after_write(b, 0, e), k) == e[k] by {
        lemma_unit_bytes(b, 0, e, k);
    }
}

/// The first entry written into an empty block is found by its name: a
/// name with no `=` and no zero unit, a value with no zero unit.
#[verifier::spinoff_prover]
pub proof fn law_first_entry_found(b: Seq<u8>, key: Seq<u16>, value: Seq<u16>)
    requires
        b.len() >= 2 * (key.len() + value.len() + 2),
        forall|i: int| 0 <= i < key.len() ==> key[i] != EQUALS && key[i] != 0,
        forall|i: int| 0 <= i < value.len() ==> value[i] != 0,
    ensures
        scan(
            after_write(b, 0, entry_units(key, value)),
            (key.len() + value.len() + 2) as int,
            0,
            key,
        ) == Some((0int, (key.len() + value.len() + 2) as int)),
{
    let e = entry_units(key, value);
    let w = after_write(b, 0, e);
    let n = e.len() as int;
    let kl = key.len() as int;
    assert(n == key.len() + value.len() + 2);
    lemma_entry_reads_back(b, e);
    assert forall|k: int| 0 <= k < n - 1 implies unit_at(w, k) != 0 by {
        assert(unit_at(w, k) == e[k]);
        if k < kl {
            assert(e[k] == key[k]);
        } else if k == kl {
            assert(e[k] == EQUALS);
        } else {
            assert(e[k] == value[k - kl - 1]);
        }
    }
    assert(unit_at(w, n - 1) == e[n - 1]);
    assert(e[n - 1] == 0);
    lemma_next_null_at(w, 0, n - 1);
    assert forall|k: int| 0 <= k < kl implies unit_at(w, k) != EQUALS by {
        assert(unit_at(w, k) == e[k]);
        assert(e[k] == key[k]);
    }
    assert(unit_at(w, kl) == e[kl]);
    assert(e[kl] == EQUALS);
    lemma_first_equals_at(w, 0, n - 1, kl);
    assert forall|i: int| 0 <= i < kl implies unit_at(w, 0 + i) == key[i] by {
        assert(unit_at(w, i) == e[i]);
        assert(e[i] == key[i]);
    }
    assert(key_at(w, 0, kl, key));
    assert(next_null(w, 0) == n - 1);
    assert(first_equals(w, 0, n - 1) == kl);
}

/// Taking out by its name the one entry of a block empties the block: what
/// `set` writes into an empty block, `remove` of the same name takes away.
pub proof fn law_remove_undoes_first_set(b: Seq<u8>, key: Seq<u16>, value: Seq<u16>)
    requires
        b.len() >= 2 * (key.len() + value.len() + 2),
        forall|i: int| 0 <= i < key.len() ==> key[i] != EQUALS && key[i] != 0,
        forall|i: int| 0 <= i < value.len() ==> value[i] != 0,
    ensures
        without(b, 0, key) == (b, 0int),
        without(
            after_write(b, 0, entry_units(key, value)),
            (2 * (key.len() + value.len() + 2)) as int,
            key,
        ).1 == 0,
{
    law_first_entry_found(b, key, value);
    let n = (key.len() + value.len() + 2) as int;
    assert((2 * n) / 2 == n);
}

// ---------------------------------------------------------------------------
// The buffer.
// ---------------------------------------------------------------------------

/// A buffer of exactly `N` bytes.
pub struct AlignedBuffer<const N: usize> {
    bytes: Vec<u8>,
}

impl<const N: usize> AlignedBuffer<N> {
    pub closed spec fn view(&self) -> Seq<u8> {
        self.bytes@
    }

    pub closed spec fn wf(&self) -> bool {
        self.bytes@.len() == N
    }

    /// `N` zero bytes.
    pub fn new() -> (r: Self)
        ensures
            r.wf(),
            r.view() == Seq::new(N as nat, |i: int| 0u8),
    {
        let bytes = vec![0u8; N];
        let r = AlignedBuffer { bytes };
        assert(r.view() =~= Seq::new(N as nat, |i: int| 0u8));
        r
    }

    /// The bytes, from the start of the buffer.
    pub fn as_ptr(&self) -> (r: &[u8])
        ensures
            r@ == self.view(),
    {
        self.bytes.as_slice()
    }

    pub fn len(&self) -> (r: usize)
        requires
            self.wf(),
        ensures
            r == N,
    {
        self.bytes.len()
    }

    pub(crate) fn get(&self, i: usize) -> (r: u8)
        requires
            i < self.view().len(),
        ensures
            r == self.view()[i as int],
    {
        self.bytes[i]
    }

    pub(crate) fn set(&mut self, i: usize, v: u8)
        requires
            i < old(self).view().len(),
        ensures
            final(self).view() == old(self).view().update(i as int, v),
    {
        self.bytes.set(i, v);
    }
}

/// The UTF-16 units of `s` in a buffer of `M` units, with their number.
fn encode_utf16<const M: usize>(s: &str) -> (r: Result<([u16; M], usize), EnvironmentBuilderError>)
    ensures
        match r {
            Ok((buf, len)) => {
                &&& utf16(s@).len() <= M
                &&& len == utf16(s@).len()
                &&& buf@.take(len as int) == utf16(s@)
            },
            Err(e) => e == EnvironmentBuilderError::StringTooLong && utf16(s@).len() > M,
        },
{
    broadcast use vstd::string::axiom_spec_iter;

    let mut buf = [0u16; M];
    let mut len: usize = 0;
    let ghost mut done: Seq<char> = Seq::empty();
    for ch in it: s.chars()
        invariant
            it.seq() == s@,
            done == s@.take(it.index() as int),
            len == utf16(done).len(),
            len <= M,
            buf@.len() == M,
            buf@.take(len as int) == utf16(done),
    {
        let v = ch as u32;
        let ghost before = buf@.take(len as int);
        proof {
            lemma_utf16_push(done, ch);
            assert(s@.take(it.index() + 1) =~= done.push(ch));
        }
        if v < 0x10000 {
            if len >= M {
                proof {
                    lemma_utf16_prefix_len(s@, it.index() + 1);
                }
                return Err(EnvironmentBuilderError::StringTooLong);
            }
            buf[len] = v as u16;
            len = len + 1;
        } else {
            let w = v - 0x10000;
            if len >= M {
                proof {
                    lemma_utf16_prefix_len(s@, it.index() + 1);
                }
                return Err(EnvironmentBuilderError::StringTooLong);
            }
            buf[len] = (0xD800 + w / 0x400) as u16;
            len = len + 1;
            if len >= M {
                proof {
                    lemma_utf16_prefix_len(s@, it.index() + 1);
                }
                return Err(EnvironmentBuilderError::StringTooLong);
            }
            buf[len] = (0xDC00 + w % 0x400) as u16;
            len = len + 1;
        }
        proof {
            assert(buf@.take(len as int) =~= before + char_utf16(ch));
            done = done.push(ch);
        }
    }
    proof {
        assert(done =~= s@);
    }
    Ok((buf, len))
}

/// The UTF-16 units of `s`.
pub fn utf16_units(s: &str) -> (r: Vec<u16>)
    ensures
        r@ == utf16(s@),
{
    broadcast use vstd::string::axiom_spec_iter;

    let mut out: Vec<u16> = Vec::new();
    let ghost mut done: Seq<char> = Seq::empty();
    for ch in it: s.chars()
        invariant
            it.seq() == s@,
            done == s@.take(it.index() as int),
            out@ == utf16(done),
    {
        let v = ch as u32;
        proof {
            lemma_utf16_push(done, ch);
            assert(s@.take(it.index() + 1) =~= done.push(ch));
        }
        if v < 0x10000 {
            out.push(v as u16);
        } else {
            let w = v - 0x10000;
            out.push((0xD800 + w / 0x400) as u16);
            out.push((0xDC00 + w % 0x400) as u16);
        }
        proof {
            assert(out@ =~= utf16(done) + char_utf16(ch));
            done = done.push(ch);
        }
    }
    proof {
        assert(done =~= s@);
    }
    out
}

/// A prefix of a string encodes to no more units than the whole.
proof fn lemma_utf16_prefix_len(s: Seq<char>, n: int)
    requires
        0 <= n <= s.len(),
    ensures
        utf16(s.take(n)).len() <= utf16(s).len(),
    decreases s.len() - n,
{
    if n == s.len() {
        assert(s.take(n) =~= s);
    } else {
        lemma_utf16_prefix_len(s, n + 1);
        lemma_utf16_push(s.take(n), s[n]);
        assert(s.take(n + 1) =~= s.take(n).push(s[n]));
    }
}

// ---------------------------------------------------------------------------
// Edits of the block, as functions of its bytes and length.
// ---------------------------------------------------------------------------

/// The bytes after the entry of `l` units at unit `s` is cut out and what
/// follows it, up to the end of the block, moved down.
pub open spec fn after_remove(b: Seq<u8>, length: int, s: int, l: int) -> Seq<u8> {
    let rem = length / 2 - s - l;
    b.take(2 * s) + b.subrange(2 * (s + l), 2 * (s + l + rem)) + b.skip(2 * (s + rem))
}

/// The bytes after the units `e` are written at byte `length`.
pub open spec fn after_write(b: Seq<u8>, length: int, e: Seq<u16>) -> Seq<u8> {
    b.take(length) + unit_bytes(e) + b.skip(length + 2 * e.len())
}

/// The bytes and the length once the first entry named `key`, if there is
/// one, is taken out.
pub open spec fn without(b: Seq<u8>, length: int, key: Seq<u16>) -> (Seq<u8>, int) {
    match scan(b, length / 2, 0, key) {
        Some((s, l)) => (after_remove(b, length, s, l), length - 2 * l),
        None => (b, length),
    }
}

/// The first unit index `p` with zero units at `p` and `p + 1`.
pub open spec fn is_double_null(u: Seq<u16>, p: int) -> bool {
    &&& 0 <= p
    &&& p + 1 < u.len()
    &&& u[p] == 0
    &&& u[p + 1] == 0
    &&& forall|q: int| 0 <= q < p ==> !(#[trigger] u[q] == 0 && u[q + 1] == 0)
}

pub struct EnvironmentBuilder<const N: usize> {
    length: usize,
    buffer: AlignedBuffer<N>,
}

impl<const N: usize> EnvironmentBuilder<N> {
    /// The whole buffer.
    pub closed spec fn bytes(&self) -> Seq<u8> {
        self.buffer.view()
    }

    /// The bytes in use.
    pub closed spec fn used(&self) -> int {
        self.length as int
    }

    pub open spec fn wf(&self) -> bool {
        &&& self.bytes().len() == N
        &&& 0 <= self.used() <= N
    }

    /// The units in use end with a zero unit, or there are none.
    pub open spec fn is_terminated(&self) -> bool {
        terminated(self.bytes(), self.used())
    }

    /// In a block whose units in use end with a zero unit, taking out any
    /// entry stays within the block.
    pub proof fn lemma_entries_fit(&self, key: Seq<u16>)
        requires
            self.wf(),
            self.is_terminated(),
        ensures
            self.entry_fits(key),
    {
        lemma_scan_found(self.bytes(), self.used() / 2, 0, key);
    }

    /// Whether the units in use end with a zero unit, or there are none.
    pub fn terminated(&self) -> (r: bool)
        requires
            self.wf(),
        ensures
            r == self.is_terminated(),
    {
        if self.length % 2 != 0 {
            return false;
        }
        self.length == 0 || self.unit(self.length / 2 - 1) == 0
    }

    /// Taking out the entry that `key` names, if there is one, stays within
    /// the block.
    pub open spec fn entry_fits(&self, key: Seq<u16>) -> bool {
        scan(self.bytes(), self.used() / 2, 0, key) matches Some((s, l)) ==> s + l <= self.used()
            / 2
    }

    /// Whether taking out the entry that `key` names, if there is one, stays
    /// within the block: what `set` and `remove` ask of a key that is not
    /// too long.
    pub fn key_fits(&self, key: &str) -> (r: bool)
        requires
            self.wf(),
        ensures
            r == (utf16(key@).len() <= MAX_KEY_LEN ==> self.entry_fits(utf16(key@))),
    {
        let (key_buf, key_len) = match encode_utf16::<MAX_KEY_LEN>(key) {
            Ok(kv) => kv,
            Err(_) => return true,
        };
        let (k, _) = key_buf.as_slice().split_at(key_len);
        assert(k@ == utf16(key@));
        match self.find_entry(k) {
            Some((start, len)) => start <= self.length / 2 && len <= self.length / 2 - start,
            None => true,
        }
    }

    /// An empty block in a zeroed buffer.
    pub fn new() -> (r: Self)
        ensures
            r.wf(),
            r.is_terminated(),
            r.used() == 0,
            r.bytes() == Seq::new(N as nat, |i: int| 0u8),
    {
        EnvironmentBuilder { length: 0, buffer: AlignedBuffer::new() }
    }

    fn unit(&self, k: usize) -> (r: u16)
        requires
            self.wf(),
            k < N / 2,
        ensures
            r == unit_at(self.bytes(), k as int),
    {
        let lo = self.buffer.get(2 * k);
        let hi = self.buffer.get(2 * k + 1);
        lo as u16 + 256 * (hi as u16)
    }

    fn write_unit(&mut self, off: usize, c: u16)
        requires
            old(self).wf(),
            off + 1 < N,
        ensures
            final(self).wf(),
            final(self).used() == old(self).used(),
            final(self).bytes() == old(self).bytes().update(off as int, (c % 256) as u8).update(
                off + 1,
                (c / 256) as u8,
            ),
    {
        self.buffer.set(off, (c % 256) as u8);
        self.buffer.set(off + 1, (c / 256) as u8);
    }

    /// The first unit from `pos` on that is zero, or the end of the buffer.
    fn read_until_null(&self, pos: usize) -> (r: usize)
        requires
            self.wf(),
            pos <= N / 2,
        ensures
            r == next_null(self.bytes(), pos as int),
    {
        let mut p = pos;
        while p < N / 2 && self.unit(p) != 0
            invariant
                self.wf(),
                pos <= p <= N / 2,
                next_null(self.bytes(), pos as int) == next_null(self.bytes(), p as int),
            decreases N / 2 - p,
        {
            p = p + 1;
        }
        p
    }

    /// The first unit in `start..end` that is `=`, or `end`.
    fn find_equals(&self, start: usize, end: usize) -> (r: usize)
        requires
            self.wf(),
            start <= end <= N / 2,
        ensures
            r == first_equals(self.bytes(), start as int, end as int),
    {
        let mut eq_pos = start;
        while eq_pos < end && self.unit(eq_pos) != EQUALS
            invariant
                self.wf(),
                start <= eq_pos <= end <= N / 2,
                first_equals(self.bytes(), start as int, end as int) == first_equals(
                    self.bytes(),
                    eq_pos as int,
                    end as int,
                ),
            decreases end - eq_pos,
        {
            eq_pos = eq_pos + 1;
        }
        eq_pos
    }

    /// Whether the units `start..eq` spell `key`.
    fn key_matches(&self, start: usize, eq: usize, key: &[u16]) -> (r: bool)
        requires
            self.wf(),
            start <= eq <= N / 2,
        ensures
            r == key_at(self.bytes(), start as int, eq as int, key@),
    {
        if eq - start != key.len() {
            return false;
        }
        let mut i: usize = 0;
        while i < key.len()
            invariant
                self.wf(),
                start <= eq <= N / 2,
                eq - start == key.len(),
                i <= key.len(),
                forall|j: int| 0 <= j < i ==> unit_at(self.bytes(), start + j) == key@[j],
            decreases key.len() - i,
        {
            if self.unit(start + i) != key[i] {
                return false;
            }
            i = i + 1;
        }
        true
    }

    /// The first entry named `key`: its first unit and its length in units.
    fn find_entry(&self, key: &[u16]) -> (r: Option<(usize, usize)>)
        requires
            self.wf(),
        ensures
            match r {
                Some((s, l)) => scan(self.bytes(), self.used() / 2, 0, key@) == Some(
                    (s as int, l as int),
                ),
                None => scan(self.bytes(), self.used() / 2, 0, key@) is None,
            },
    {
        let limit = self.length / 2;
        let mut pos: usize = 0;
        while pos < limit
            invariant
                self.wf(),
                limit == self.used() / 2,
                pos <= N / 2 + 1,
                scan(self.bytes(), limit as int, 0, key@) == scan(
                    self.bytes(),
                    limit as int,
                    pos as int,
                    key@,
                ),
            decreases N / 2 + 1 - pos,
        {
            let start = pos;
            proof {
                lemma_next_null(self.bytes(), start as int);
            }
            pos = self.read_until_null(start);
            let eq_pos = self.find_equals(start, pos);
            proof {
                lemma_first_equals(self.bytes(), start as int, pos as int);
            }
            if eq_pos < pos && self.key_matches(start, eq_pos, key) {
                return Some((start, pos - start + 1));
            }
            pos = pos + 1;
        }
        None
    }

    /// Cuts out the `len` units at unit `start` and moves the rest of the
    /// block down over them.
    fn remove_entry(&mut self, start: usize, len: usize)
        requires
            old(self).wf(),
            start + len <= old(self).used() / 2,
        ensures
            final(self).wf(),
            final(self).used() == old(self).used() - 2 * len,
            final(self).bytes() == after_remove(
                old(self).bytes(),
                old(self).used(),
                start as int,
                len as int,
            ),
            old(self).is_terminated() && (start > 0 ==> unit_at(old(self).bytes(), start - 1) == 0)
                ==> final(self).is_terminated(),
    {
        let remaining = (self.length / 2) - start - len;
        let ghost b0 = self.bytes();
        let mut i: usize = 0;
        while i < remaining
            invariant
                self.wf(),
                b0.len() == N,
                self.used() == old(self).used(),
                b0 == old(self).bytes(),
                remaining == self.used() / 2 - start - len,
                start + len <= self.used() / 2,
                i <= remaining,
                forall|p: int| 0 <= p < 2 * start || 2 * (start + i) <= p < N ==> self.bytes()[p] == b0[p],
                forall|p: int| 2 * start <= p < 2 * (start + i) ==> self.bytes()[p] == b0[p + 2 * len],
            decreases remaining - i,
        {
            let from = 2 * (start + len + i);
            let to = 2 * (start + i);
            let lo = self.buffer.get(from);
            let hi = self.buffer.get(from + 1);
            self.buffer.set(to, lo);
            self.buffer.set(to + 1, hi);
            i = i + 1;
        }
        self.length = self.length - len * 2;
        proof {
            assert(self.bytes() =~= after_remove(b0, old(self).used(), start as int, len as int));
            if old(self).is_terminated() && (start > 0 ==> unit_at(b0, start - 1) == 0) && self.used() > 0 {
                let k = self.used() / 2 - 1;
                if start + len < old(self).used() / 2 {
                    assert(2 * start <= 2 * k);
                    assert(self.bytes()[2 * k] == b0[2 * k + 2 * len]);
                    assert(self.bytes()[2 * k + 1] == b0[2 * k + 1 + 2 * len]);
                    assert(k + len == old(self).used() / 2 - 1);
                } else {
                    assert(k == start - 1);
                    assert(self.bytes()[2 * k] == b0[2 * k]);
                    assert(self.bytes()[2 * k + 1] == b0[2 * k + 1]);
                }
            }
        }
    }

    /// Appends the entry `key=value` and its zero unit, when it fits.
    fn write_entry(&mut self, key: &[u16], value: &[u16]) -> (r: Result<(), EnvironmentBuilderError>)
        requires
            old(self).wf(),
            key.len() <= MAX_KEY_LEN,
            value.len() <= MAX_VALUE_LEN,
        ensures
            final(self).wf(),
            match r {
                Ok(()) => {
                    &&& old(self).used() + 2 * (key.len() + value.len() + 2) <= N
                    &&& (old(self).used() % 2 == 0 ==> final(self).is_terminated())
                    &&& final(self).used() == old(self).used() + 2 * (key.len() + value.len() + 2)
                    &&& final(self).bytes() == after_write(
                        old(self).bytes(),
                        old(self).used(),
                        entry_units(key@, value@),
                    )
                },
                Err(e) => {
                    &&& e == EnvironmentBuilderError::BufferOverflow
                    &&& old(self).used() + 2 * (key.len() + value.len() + 2) > N
                    &&& *final(self) == *old(self)
                },
            },
    {
        let entry_size = (key.len() + 1 + value.len() + 1) * 2;
        if entry_size > N - self.length {
            return Err(EnvironmentBuilderError::BufferOverflow);
        }
        let mut entry: Vec<u16> = Vec::new();
        let mut i: usize = 0;
        while i < key.len()
            invariant
                i <= key.len(),
                entry@ == key@.take(i as int),
            decreases key.len() - i,
        {
            entry.push(key[i]);
            i = i + 1;
        }
        entry.push(EQUALS);
        let mut j: usize = 0;
        while j < value.len()
            invariant
                j <= value.len(),
                entry@ == key@ + seq![EQUALS] + value@.take(j as int),
            decreases value.len() - j,
        {
            entry.push(value[j]);
            j = j + 1;
        }
        entry.push(0u16);
        assert(entry@ =~= entry_units(key@, value@));
        let base = self.length;
        let ghost b0 = self.bytes();
        let mut k: usize = 0;
        while k < entry.len()
            invariant
                self.wf(),
                b0 == old(self).bytes(),
                base == old(self).used(),
                self.used() == base,
                base + 2 * entry.len() <= N,
                entry@ == entry_units(key@, value@),
                k <= entry.len(),
                forall|p: int| 0 <= p < base || base + 2 * k <= p < N ==> self.bytes()[p] == b0[p],
                forall|p: int| base <= p < base + 2 * k ==> self.bytes()[p] == unit_bytes(entry@)[p - base],
            decreases entry.len() - k,
        {
            self.write_unit(base + 2 * k, entry[k]);
            k = k + 1;
        }
        self.length = self.length + entry_size;
        proof {
            assert(self.bytes() =~= after_write(b0, base as int, entry_units(key@, value@)));
            if base % 2 == 0 {
                let n = entry@.len() as int;
                lemma_unit_bytes(b0, base as int, entry@, n - 1);
                assert(base as int / 2 + n - 1 == self.used() / 2 - 1);
            }
        }
        Ok(())
    }

    /// Sets `key` to `value`: the first entry named `key` goes, then the new
    /// entry is appended. A key or value of more than 128 UTF-16 units is
    /// refused before anything changes; a block too full for the new entry
    /// is refused after the old one is gone.
    pub fn set(&mut self, key: &str, value: &str) -> (r: Result<(), EnvironmentBuilderError>)
        requires
            old(self).wf(),
            utf16(key@).len() <= MAX_KEY_LEN ==> old(self).entry_fits(utf16(key@)),
        ensures
            final(self).wf(),
            old(self).is_terminated() ==> final(self).is_terminated(),
            utf16(key@).len() > MAX_KEY_LEN || utf16(value@).len() > MAX_VALUE_LEN ==> {
                &&& r == Err::<(), _>(EnvironmentBuilderError::StringTooLong)
                &&& *final(self) == *old(self)
            },
            utf16(key@).len() <= MAX_KEY_LEN && utf16(value@).len() <= MAX_VALUE_LEN ==> ({
                let (mid, mid_len) = without(old(self).bytes(), old(self).used(), utf16(key@));
                let size = 2 * (utf16(key@).len() + utf16(value@).len() + 2);
                if mid_len + size <= N {
                    &&& r is Ok
                    &&& final(self).used() == mid_len + size
                    &&& final(self).bytes() == after_write(
                        mid,
                        mid_len,
                        entry_units(utf16(key@), utf16(value@)),
                    )
                } else {
                    &&& r == Err::<(), _>(EnvironmentBuilderError::BufferOverflow)
                    &&& final(self).used() == mid_len
                    &&& final(self).bytes() == mid
                }
            }),
    {
        let (key_buf, key_len) = match encode_utf16::<MAX_KEY_LEN>(key) {
            Ok(kv) => kv,
            Err(e) => return Err(e),
        };
        let (value_buf, value_len) = match encode_utf16::<MAX_VALUE_LEN>(value) {
            Ok(vv) => vv,
            Err(e) => return Err(e),
        };
        let (k, _) = key_buf.as_slice().split_at(key_len);
        let (v, _) = value_buf.as_slice().split_at(value_len);
        assert(k@ == utf16(key@));
        assert(v@ == utf16(value@));
        proof {
            if self.is_terminated() {
                lemma_scan_found(self.bytes(), self.used() / 2, 0, k@);
            }
        }
        if let Some((start, len)) = self.find_entry(k) {
            self.remove_entry(start, len);
        }
        self.write_entry(k, v)
    }

    /// Takes out the first entry named `key`; an error when there is none.
    pub fn remove(&mut self, key: &str) -> (r: Result<(), EnvironmentBuilderError>)
        requires
            old(self).wf(),
            utf16(key@).len() <= MAX_KEY_LEN ==> old(self).entry_fits(utf16(key@)),
        ensures
            final(self).wf(),
            old(self).is_terminated() ==> final(self).is_terminated(),
            utf16(key@).len() > MAX_KEY_LEN ==> {
                &&& r == Err::<(), _>(EnvironmentBuilderError::StringTooLong)
                &&& *final(self) == *old(self)
            },
            utf16(key@).len() <= MAX_KEY_LEN ==> ({
                let found = scan(old(self).bytes(), old(self).used() / 2, 0, utf16(key@));
                let (after, after_len) = without(old(self).bytes(), old(self).used(), utf16(key@));
                &&& r is Ok <==> found is Some
                &&& r is Err ==> r == Err::<(), _>(EnvironmentBuilderError::KeyNotFound)
                &&& final(self).used() == after_len
                &&& final(self).bytes() == after
            }),
    {
        let (key_buf, key_len) = match encode_utf16::<MAX_KEY_LEN>(key) {
            Ok(kv) => kv,
            Err(e) => return Err(e),
        };
        let (k, _) = key_buf.as_slice().split_at(key_len);
        proof {
            if self.is_terminated() {
                lemma_scan_found(self.bytes(), self.used() / 2, 0, k@);
            }
        }
        if let Some((start, len)) = self.find_entry(k) {
            self.remove_entry(start, len);
            Ok(())
        } else {
            Err(EnvironmentBuilderError::KeyNotFound)
        }
    }

    /// A block holding the first `len` bytes of `env`; `None` stands for a
    /// null pointer.
    pub fn from_raw_parts(env: Option<&[u8]>, len: usize) -> (r: Result<Self, EnvironmentBuilderError>)
        requires
            env matches Some(e) ==> len <= e@.len(),
        ensures
            env is None ==> r == Err::<Self, _>(EnvironmentBuilderError::NullPointer),
            env is Some && len > N ==> r == Err::<Self, _>(EnvironmentBuilderError::BufferOverflow),
            env is Some && len <= N ==> (r matches Ok(b) && b.wf() && b.used() == len && b.bytes()
                == env->0@.take(len as int) + Seq::new((N - len) as nat, |i: int| 0u8)),
    {
        let data = match env {
            Some(d) => d,
            None => return Err(EnvironmentBuilderError::NullPointer),
        };
        if len > N {
            return Err(EnvironmentBuilderError::BufferOverflow);
        }
        let mut builder = Self::new();
        let mut i: usize = 0;
        while i < len
            invariant
                builder.wf(),
                builder.used() == 0,
                len <= N,
                len <= data@.len(),
                i <= len,
                forall|p: int| 0 <= p < i ==> builder.bytes()[p] == data@[p],
                forall|p: int| i <= p < N ==> builder.bytes()[p] == 0u8,
            decreases len - i,
        {
            builder.buffer.set(i, data[i]);
            i = i + 1;
        }
        builder.length = len;
        assert(builder.bytes() =~= data@.take(len as int) + Seq::new((N - len) as nat, |i: int| 0u8));
        Ok(builder)
    }

    /// A block copied from `env` up to and with its first two zero units in a
    /// row; `None` stands for a null pointer.
    pub fn from_ptr(env: Option<&[u16]>) -> (r: Result<Self, EnvironmentBuilderError>)
        requires
            env matches Some(u) ==> exists|p: int| is_double_null(u@, p),
        ensures
            env is None ==> r == Err::<Self, _>(EnvironmentBuilderError::NullPointer),
            env matches Some(u) ==> (forall|p: int| #[trigger] is_double_null(u@, p) ==> {
                if 2 * (p + 2) > N {
                    r == Err::<Self, _>(EnvironmentBuilderError::BufferOverflow)
                } else {
                    r matches Ok(b) && b.wf() && b.used() == 2 * (p + 2) && b.bytes() == unit_bytes(
                        u@.take(p + 2),
                    ) + Seq::new((N - 2 * (p + 2)) as nat, |i: int| 0u8)
                }
            }),
            r matches Ok(b) ==> b.is_terminated(),
    {
        let data = match env {
            Some(d) => d,
            None => return Err(EnvironmentBuilderError::NullPointer),
        };
        let ghost p0 = choose|p: int| is_double_null(data@, p);
        let mut pos: usize = 0;
        while data[pos] != 0 || data[pos + 1] != 0
            invariant
                is_double_null(data@, p0),
                pos <= p0,
            decreases p0 - pos,
        {
            pos = pos + 1;
        }
        proof {
            assert(is_double_null(data@, pos as int));
            assert forall|p: int| #[trigger] is_double_null(data@, p) implies p == pos by {
                if p < pos {
                    assert(!(data@[p] == 0 && data@[p + 1] == 0));
                } else if p > pos {
                    assert(!(data@[pos as int] == 0 && data@[pos + 1] == 0));
                }
            }
        }
        pos = pos + 2;
        if pos > N / 2 {
            return Err(EnvironmentBuilderError::BufferOverflow);
        }
        let total_bytes = pos * 2;
        let mut builder = Self::new();
        let mut k: usize = 0;
        while k < pos
            invariant
                builder.wf(),
                builder.used() == 0,
                pos <= N / 2,
                pos <= data@.len(),
                k <= pos,
                forall|q: int| 0 <= q < 2 * k ==> builder.bytes()[q] == unit_bytes(data@.take(pos as int))[q],
                forall|q: int| 2 * k <= q < N ==> builder.bytes()[q] == 0u8,
            decreases pos - k,
        {
            builder.write_unit(2 * k, data[k]);
            k = k + 1;
        }
        builder.length = total_bytes;
        assert(builder.bytes() =~= unit_bytes(data@.take(pos as int)) + Seq::new(
            (N - total_bytes) as nat,
            |i: int| 0u8,
        ));
        proof {
            let e = data@.take(pos as int);
            let j = 2 * pos - 2;
            assert(e[pos - 1] == 0);
            assert(j % 2 == 0 && j / 2 == pos - 1);
            assert((j + 1) % 2 == 1 && (j + 1) / 2 == pos - 1);
            assert(builder.bytes()[j] == unit_bytes(e)[j]);
            assert(builder.bytes()[j + 1] == unit_bytes(e)[j + 1]);
            assert(unit_at(builder.bytes(), pos - 1) == 0);
        }
        Ok(builder)
    }

    /// Empties the block and zeroes the whole buffer.
    pub fn clear(&mut self)
        requires
            old(self).wf(),
        ensures
            final(self).wf(),
            final(self).is_terminated(),
            final(self).used() == 0,
            final(self).bytes() == Seq::new(N as nat, |i: int| 0u8),
    {
        self.length = 0;
        let mut i: usize = 0;
        while i < N
            invariant
                self.wf(),
                self.used() == 0,
                i <= N,
                forall|p: int| 0 <= p < i ==> self.bytes()[p] == 0u8,
            decreases N - i,
        {
            self.buffer.set(i, 0);
            i = i + 1;
        }
        assert(self.bytes() =~= Seq::new(N as nat, |i: int| 0u8));
    }

    /// Ends the block with a zero unit: two zero units are written from the
    /// end of the block on, as far as the buffer reaches, and the block grows
    /// by one unit.
    pub fn finalize(&mut self) -> (r: Result<(), EnvironmentBuilderError>)
        requires
            old(self).wf(),
        ensures
            final(self).wf(),
            old(self).used() + 2 > N ==> r == Err::<(), _>(EnvironmentBuilderError::BufferOverflow)
                && *final(self) == *old(self),
            old(self).used() + 2 <= N ==> {
                &&& r is Ok
                &&& (old(self).used() % 2 == 0 ==> final(self).is_terminated())
                &&& final(self).used() == old(self).used() + 2
                &&& final(self).bytes().len() == N
                &&& forall|p: int|
                    0 <= p < N ==> #[trigger] final(self).bytes()[p] == if old(self).used() <= p
                        < old(self).used() + 4 {
                        0u8
                    } else {
                        old(self).bytes()[p]
                    }
            },
    {
        if N < 2 || self.length > N - 2 {
            return Err(EnvironmentBuilderError::BufferOverflow);
        }
        let start = self.length;
        let mut i: usize = 0;
        while i < 4 && i < N - start
            invariant
                self.wf(),
                self.used() == old(self).used(),
                start == old(self).used(),
                start + 2 <= N,
                i <= 4,
                forall|p: int|
                    0 <= p < N ==> #[trigger] self.bytes()[p] == if start <= p < start + i {
                        0u8
                    } else {
                        old(self).bytes()[p]
                    },
            decreases 4 - i,
        {
            self.buffer.set(start + i, 0);
            i = i + 1;
        }
        self.length = self.length + 2;
        Ok(())
    }

    /// Finalizes the block and hands out the buffer.
    pub fn build(&mut self) -> (r: Result<&[u8], EnvironmentBuilderError>)
        requires
            old(self).wf(),
        ensures
            final(self).wf(),
            old(self).used() + 2 > N ==> r is Err && *final(self) == *old(self),
            old(self).used() + 2 <= N ==> (r matches Ok(b) && b@ == final(self).bytes()
                && final(self).used() == old(self).used() + 2),
    {
        match self.finalize() {
            Ok(()) => Ok(self.buffer.as_ptr()),
            Err(e) => Err(e),
        }
    }

    /// The buffer, from its start.
    pub fn as_ptr(&self) -> (r: &[u8])
        ensures
            r@ == self.bytes(),
    {
        self.buffer.as_ptr()
    }

    /// The bytes in use.
    pub fn len(&self) -> (r: usize)
        ensures
            r == self.used(),
    {
        self.length
    }

    pub fn is_empty(&self) -> (r: bool)
        ensures
            r == (self.used() == 0),
    {
        self.length == 0
    }
}

impl<const N: usize> Default for EnvironmentBuilder<N> {
    fn default() -> (r: Self)
        ensures
            r.wf(),
            r.used() == 0,
            r.bytes() == Seq::new(N as nat, |i: int| 0u8),
    {
        Self::new()
    }
}

} // verus!
