//! Text helpers: UTF-16 decoding that drops what does not decode, and the
//! standard conversions it rests on.
use vstd::prelude::*;
use vstd::utf8::{valid_utf8, encode_scalar, encode_utf8};
use vstd::string::{StringSliceAdditionalSpecFns, StringExecFns};

verus! {

#[verifier::external_type_specification]
#[verifier::external_body]
pub struct ExUtf8Error(core::str::Utf8Error);

/// `core::str::from_utf8`: the bytes as a string slice when they are valid
/// UTF-8, an error otherwise.
#[verifier::external_body]
pub(crate) fn str_from_utf8(bytes: &[u8]) -> (r: Result<&str, core::str::Utf8Error>)
    ensures
        r is Ok <==> valid_utf8(bytes@),
        r matches Ok(s) ==> s.spec_bytes() == bytes@,
{
    core::str::from_utf8(bytes)
}

/// `char::from_u32`: the character with that code point, when it is a
/// Unicode scalar value (at most 0x10FFFF and no surrogate).
#[verifier::external_body]
fn char_from_u32(v: u32) -> (r: Option<char>)
    ensures
        (v <= 0x10FFFF && !(0xD800 <= v <= 0xDFFF)) ==> r == Some(v as char),
        !(v <= 0x10FFFF && !(0xD800 <= v <= 0xDFFF)) ==> r is None,
{
    char::from_u32(v)
}

/// `String::push`: appends a character.
#[verifier::external_body]
pub(crate) fn push_char(s: &mut String, c: char)
    ensures
        final(s)@ == old(s)@.push(c),
{
    s.push(c)
}

/// `char::encode_utf8`: the UTF-8 bytes of a character.
#[verifier::external_body]
pub(crate) fn char_utf8(c: char) -> (r: Vec<u8>)
    ensures
        r@ == encode_scalar(c as u32),
{
    let mut buf = [0u8; 4];
    c.encode_utf8(&mut buf).as_bytes().to_vec()
}

pub open spec fn is_high_surrogate(u: u16) -> bool {
    0xD800 <= u <= 0xDBFF
}

pub open spec fn is_low_surrogate(u: u16) -> bool {
    0xDC00 <= u <= 0xDFFF
}

/// The code point a surrogate pair stands for.
pub open spec fn pair_value(hi: u16, lo: u16) -> u32 {
    (0x10000 + (hi - 0xD800) * 0x400 + (lo - 0xDC00)) as u32
}

/// The characters that UTF-16 units decode to, dropping each unit that
/// does not decode: a low surrogate on its own, or a high surrogate not
/// followed by a low one.
pub open spec fn decode_utf16(u: Seq<u16>) -> Seq<char>
    decreases u.len(),
{
    if u.len() == 0 {
        seq![]
    } else if is_high_surrogate(u[0]) && u.len() > 1 && is_low_surrogate(u[1]) {
        seq![pair_value(u[0], u[1]) as char] + decode_utf16(u.skip(2))
    } else if 0xD800 <= u[0] <= 0xDFFF {
        decode_utf16(u.skip(1))
    } else {
        seq![u[0] as char] + decode_utf16(u.skip(1))
    }
}

/// The characters that UTF-16 units decode to, each unit that does not
/// decode standing as U+FFFD.
pub open spec fn decode_utf16_lossy(u: Seq<u16>) -> Seq<char>
    decreases u.len(),
{
    if u.len() == 0 {
        seq![]
    } else if is_high_surrogate(u[0]) && u.len() > 1 && is_low_surrogate(u[1]) {
        seq![pair_value(u[0], u[1]) as char] + decode_utf16_lossy(u.skip(2))
    } else if 0xD800 <= u[0] <= 0xDFFF {
        seq!['\u{FFFD}'] + decode_utf16_lossy(u.skip(1))
    } else {
        seq![u[0] as char] + decode_utf16_lossy(u.skip(1))
    }
}

/// The character the units from `i` on start with, if they start with one,
/// and the number of units it takes or that are dropped.
pub fn decode_step(units: &[u16], i: usize) -> (r: (Option<char>, usize))
    requires
        i < units@.len(),
    ensures
        1 <= r.1 <= 2,
        i + r.1 <= units@.len(),
        decode_utf16(units@.skip(i as int)) == match r.0 {
            Some(c) => seq![c] + decode_utf16(units@.skip(i + r.1)),
            None => decode_utf16(units@.skip(i + r.1)),
        },
        decode_utf16_lossy(units@.skip(i as int)) == match r.0 {
            Some(c) => seq![c] + decode_utf16_lossy(units@.skip(i + r.1)),
            None => seq!['\u{FFFD}'] + decode_utf16_lossy(units@.skip(i + r.1)),
        },
{
    let ghost rest = units@.skip(i as int);
    let u = units[i];
    if 0xD800 <= u && u <= 0xDBFF && i + 1 < units.len() && 0xDC00 <= units[i + 1] && units[i
        + 1] <= 0xDFFF {
        let lo = units[i + 1];
        let v: u32 = 0x10000 + (u as u32 - 0xD800) * 0x400 + (lo as u32 - 0xDC00);
        let c = char_from_u32(v);
        proof {
            assert(rest.skip(2) =~= units@.skip(i + 2));
            assert(v == pair_value(u, lo));
        }
        match c {
            Some(ch) => (Some(ch), 2),
            None => {
                proof {
                    assert(false);
                }
                (None, 2)
            },
        }
    } else if 0xD800 <= u && u <= 0xDFFF {
        proof {
            assert(rest.skip(1) =~= units@.skip(i + 1));
        }
        (None, 1)
    } else {
        let c = char_from_u32(u as u32);
        proof {
            assert(rest.skip(1) =~= units@.skip(i + 1));
        }
        match c {
            Some(ch) => (Some(ch), 1),
            None => {
                proof {
                    assert(false);
                }
                (None, 1)
            },
        }
    }
}

/// The text that UTF-16 units decode to, without the units that do not
/// decode.
pub fn wide_to_utf8(wide: &[u16]) -> (r: String)
    ensures
        r@ == decode_utf16(wide@),
{
    let mut utf8 = String::new();
    let mut i: usize = 0;
    proof {
        assert(wide@.skip(0) =~= wide@);
        assert(utf8@ + decode_utf16(wide@) =~= decode_utf16(wide@));
    }
    while i < wide.len()
        invariant
            i <= wide@.len(),
            utf8@ + decode_utf16(wide@.skip(i as int)) == decode_utf16(wide@),
        decreases wide@.len() - i,
    {
        let (c, n) = decode_step(wide, i);
        match c {
            Some(ch) => {
                proof {
                    assert(utf8@.push(ch) + decode_utf16(wide@.skip(i + n)) =~= utf8@ + (seq![ch]
                        + decode_utf16(wide@.skip(i + n))));
                }
                push_char(&mut utf8, ch);
            },
            None => {},
        }
        i = i + n;
    }
    proof {
        assert(wide@.skip(i as int) =~= Seq::<u16>::empty());
        assert(decode_utf16(wide@.skip(i as int)) =~= Seq::<char>::empty());
        assert(utf8@ + Seq::<char>::empty() =~= utf8@);
    }
    utf8
}

/// Encoding one more character appends its bytes.
pub proof fn lemma_encode_utf8_push(cs: Seq<char>, c: char)
    ensures
        encode_utf8(cs.push(c)) == encode_utf8(cs) + encode_scalar(c as u32),
    decreases cs.len(),
{
    if cs.len() == 0 {
        assert(cs.push(c).drop_first() =~= Seq::<char>::empty());
        assert(encode_utf8(Seq::<char>::empty()) =~= Seq::<u8>::empty());
        assert(encode_utf8(cs.push(c)) =~= encode_scalar(c as u32));
    } else {
        lemma_encode_utf8_push(cs.drop_first(), c);
        assert(cs.push(c).drop_first() =~= cs.drop_first().push(c));
        assert(encode_utf8(cs.push(c)) =~= encode_scalar(cs[0] as u32) + encode_utf8(cs.drop_first().push(c)));
    }
}

/// `bytes` are the UTF-8 of the longest run of whole characters from the
/// start of `cs` that fits in `cap` bytes.
pub open spec fn is_fitting_prefix(bytes: Seq<u8>, cs: Seq<char>, cap: int) -> bool {
    exists|k: int|
        0 <= k <= cs.len() && bytes == #[trigger] encode_utf8(cs.take(k)) && (k == cs.len()
            || encode_utf8(cs.take(k + 1)).len() > cap)
}

/// The UTF-8 of what UTF-16 `units` decode to, units that do not decode
/// left out, cut after the last whole character that fits in `cap` bytes.
pub fn utf8_within(units: &[u16], cap: usize) -> (r: Vec<u8>)
    ensures
        r@.len() <= cap,
        valid_utf8(r@),
        is_fitting_prefix(r@, decode_utf16(units@), cap as int),
{
    broadcast use vstd::utf8::encode_utf8_valid_utf8;

    let ghost cs = decode_utf16(units@);
    let mut out: Vec<u8> = Vec::new();
    let mut full = false;
    let ghost mut taken: Seq<char> = Seq::empty();
    let mut i: usize = 0;
    proof {
        assert(units@.skip(0) =~= units@);
        assert(taken + decode_utf16(units@) =~= decode_utf16(units@));
        assert(encode_utf8(taken) =~= Seq::<u8>::empty());
    }
    while i < units.len() && !full
        invariant
            i <= units@.len(),
            cs == decode_utf16(units@),
            taken + decode_utf16(units@.skip(i as int)) == cs,
            out@ == encode_utf8(taken),
            out@.len() <= cap,
            full ==> taken.len() < cs.len() && encode_utf8(cs.take(taken.len() as int + 1)).len() > cap,
        decreases units@.len() - i + (if full {
            0int
        } else {
            1int
        }),
    {
        let (c, n) = decode_step(units, i);
        match c {
            Some(ch) => {
                let bytes = char_utf8(ch);
                proof {
                    lemma_encode_utf8_push(taken, ch);
                    assert(taken + (seq![ch] + decode_utf16(units@.skip(i + n))) == cs);
                    assert(cs.take(taken.len() as int + 1) =~= taken.push(ch)) by {
                        assert(cs =~= taken.push(ch) + decode_utf16(units@.skip(i + n)));
                    }
                }
                if bytes.len() <= cap - out.len() {
                    let mut j: usize = 0;
                    let ghost before = out@;
                    while j < bytes.len()
                        invariant
                            j <= bytes@.len(),
                            out@ == before + bytes@.take(j as int),
                        decreases bytes@.len() - j,
                    {
                        out.push(bytes[j]);
                        proof {
                            assert(bytes@.take(j + 1) =~= bytes@.take(j as int).push(bytes@[j as int]));
                        }
                        j = j + 1;
                    }
                    proof {
                        assert(bytes@.take(j as int) =~= bytes@);
                        assert(taken.push(ch) + decode_utf16(units@.skip(i + n)) =~= cs);
                        taken = taken.push(ch);
                    }
                    i = i + n;
                } else {
                    full = true;
                }
            },
            None => {
                i = i + n;
            },
        }
    }
    proof {
        if !full {
            assert(units@.skip(i as int) =~= Seq::<u16>::empty());
            assert(taken =~= cs);
            assert(cs.take(cs.len() as int) =~= cs);
        } else {
            assert(cs.take(taken.len() as int) =~= taken);
        }
        assert(cs.take(taken.len() as int) =~= taken);
        assert(out@ == encode_utf8(cs.take(taken.len() as int)));
    }
    out
}

/// The digit for `d`: `0` to `9`, then capital `A` to `F`, or small `a`
/// to `f` when `lower`.
pub open spec fn digit_char(d: int, lower: bool) -> char {
    if d < 10 {
        (48 + d) as char
    } else if lower {
        (87 + d) as char
    } else {
        (55 + d) as char
    }
}

/// The decimal digits of `v`, without leading zeros.
pub open spec fn decimal(v: nat) -> Seq<char>
    decreases v,
{
    if v < 10 {
        seq![digit_char(v as int, false)]
    } else {
        decimal(v / 10) + seq![digit_char((v % 10) as int, false)]
    }
}

/// The last `n` hex digits of `v`, leading zeros kept.
pub open spec fn hex_fixed(v: nat, n: nat, lower: bool) -> Seq<char>
    decreases n,
{
    if n == 0 {
        Seq::empty()
    } else {
        hex_fixed(v / 16, (n - 1) as nat, lower) + seq![digit_char((v % 16) as int, lower)]
    }
}

/// The hex digits of `v`, without leading zeros.
pub open spec fn hex_min(v: nat, lower: bool) -> Seq<char>
    decreases v,
{
    if v < 16 {
        seq![digit_char(v as int, lower)]
    } else {
        hex_min(v / 16, lower) + seq![digit_char((v % 16) as int, lower)]
    }
}

/// A signed number in decimal, with a minus sign when it is negative.
pub open spec fn signed_decimal(v: int) -> Seq<char> {
    if v < 0 {
        seq!['-'] + decimal((-v) as nat)
    } else {
        decimal(v as nat)
    }
}

fn digit(d: u64, lower: bool) -> (r: char)
    requires
        d < 16,
    ensures
        r == digit_char(d as int, lower),
{
    let code: u32 = if d < 10 {
        48 + d as u32
    } else if lower {
        87 + d as u32
    } else {
        55 + d as u32
    };
    match char_from_u32(code) {
        Some(c) => c,
        None => {
            proof {
                assert(false);
            }
            '0'
        },
    }
}

/// Appends the decimal digits of `v`.
pub fn push_decimal(s: &mut String, v: u64)
    ensures
        final(s)@ == old(s)@ + decimal(v as nat),
    decreases v,
{
    if v >= 10 {
        push_decimal(s, v / 10);
    }
    push_char(s, digit(v % 10, false));
    proof {
        if v >= 10 {
            assert(old(s)@ + decimal((v / 10) as nat) + seq![digit_char((v % 10) as int, false)]
                =~= old(s)@ + decimal(v as nat));
        } else {
            assert(old(s)@.push(digit_char((v % 10) as int, false)) =~= old(s)@ + decimal(v as nat));
        }
    }
}

/// Appends a signed number in decimal.
pub fn push_signed_decimal(s: &mut String, v: i64)
    ensures
        final(s)@ == old(s)@ + signed_decimal(v as int),
{
    if v < 0 {
        push_char(s, '-');
        let m: u64 = if v == i64::MIN {
            0x8000_0000_0000_0000u64
        } else {
            (-v) as u64
        };
        push_decimal(s, m);
        proof {
            assert(old(s)@.push('-') + decimal(m as nat) =~= old(s)@ + signed_decimal(v as int));
        }
    } else {
        push_decimal(s, v as u64);
    }
}

/// Appends the last `n` hex digits of `v`.
pub fn push_hex_fixed(s: &mut String, v: u64, n: u32, lower: bool)
    ensures
        final(s)@ == old(s)@ + hex_fixed(v as nat, n as nat, lower),
    decreases n,
{
    if n > 0 {
        push_hex_fixed(s, v / 16, n - 1, lower);
        push_char(s, digit(v % 16, lower));
        proof {
            assert(old(s)@ + hex_fixed((v / 16) as nat, (n - 1) as nat, lower) + seq![digit_char((v % 16) as int, lower)]
                =~= old(s)@ + hex_fixed(v as nat, n as nat, lower));
        }
    } else {
        assert(old(s)@ + hex_fixed(v as nat, 0, lower) =~= old(s)@);
    }
}

/// Appends the hex digits of `v`, without leading zeros.
pub fn push_hex_min(s: &mut String, v: u64, lower: bool)
    ensures
        final(s)@ == old(s)@ + hex_min(v as nat, lower),
    decreases v,
{
    if v >= 16 {
        push_hex_min(s, v / 16, lower);
    }
    push_char(s, digit(v % 16, lower));
    proof {
        if v >= 16 {
            assert(old(s)@ + hex_min((v / 16) as nat, lower) + seq![digit_char((v % 16) as int, lower)]
                =~= old(s)@ + hex_min(v as nat, lower));
        } else {
            assert(old(s)@.push(digit_char((v % 16) as int, lower)) =~= old(s)@ + hex_min(v as nat, lower));
        }
    }
}

/// Appends a piece of text.
pub fn push_text(s: &mut String, t: &str)
    ensures
        final(s)@ == old(s)@ + t@,
{
    s.append(t);
}

/// The names one after another, a comma and a space between two.
pub open spec fn joined(names: Seq<&str>) -> Seq<char>
    decreases names.len(),
{
    if names.len() == 0 {
        Seq::empty()
    } else if names.len() == 1 {
        names[0]@
    } else {
        joined(names.drop_last()) + seq![',', ' '] + names.last()@
    }
}

/// The names joined, or `(none)` when there are none.
pub open spec fn listing(names: Seq<&str>) -> Seq<char> {
    if names.len() == 0 {
        seq!['(', 'n', 'o', 'n', 'e', ')']
    } else {
        joined(names)
    }
}

/// The names joined, or `(none)` when there are none.
pub fn list_names(names: &Vec<&str>) -> (r: String)
    ensures
        r@ == listing(names@),
{
    let mut s = String::new();
    if names.len() == 0 {
        proof {
            reveal_strlit("(none)");
        }
        push_text(&mut s, "(none)");
        return s;
    }
    let mut i: usize = 0;
    while i < names.len()
        invariant
            i <= names@.len(),
            names@.len() > 0,
            s@ == joined(names@.take(i as int)),
        decreases names@.len() - i,
    {
        proof {
            assert(names@.take(i + 1).drop_last() =~= names@.take(i as int));
        }
        if i > 0 {
            proof {
                reveal_strlit(", ");
            }
            push_text(&mut s, ", ");
        } else {
            assert(s@ =~= Seq::<char>::empty());
        }
        push_text(&mut s, names[i]);
        i = i + 1;
    }
    proof {
        assert(names@.take(i as int) =~= names@);
    }
    s
}

} // verus!
