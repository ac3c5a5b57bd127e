//! The parameter block of a new process: its strings laid out one after
//! another in a byte buffer after the fixed part, and the fixed part that
//! points at them.
//!
//! Places in the buffer are byte offsets; an address outside this crate's
//! view (the environment block, the console handle) is a plain integer.
use vstd::prelude::*;
use crate::arith::{round_up, round_up_exec};
use crate::process::environment::{AlignedBuffer, utf16, utf16_units};
use crate::process::error::ProcessBuilderError;
use vstd::utf8::{decode_utf8, encode_utf8, is_continuation_byte};
use vstd::string::StringSliceAdditionalSpecFns;

verus! {

/// The bytes of the fixed part of the block.
pub const PARAMS_SIZE: usize = 0x440;

pub const QUOTE: u16 = 34;
pub const SPACE: u16 = 32;
pub const BACKSLASH: u16 = 92;

/// The flag that says the block's strings are in place.
pub const PARAMS_NORMALIZED: u32 = 1;

/// The bytes once unit `c` is written little-endian at byte `off`, where it
/// fits in the buffer; otherwise unchanged.
pub open spec fn put(b: Seq<u8>, off: int, c: u16) -> Seq<u8> {
    if 0 <= off && off + 2 <= b.len() {
        b.update(off, (c % 256) as u8).update(off + 1, (c / 256) as u8)
    } else {
        b
    }
}

/// Units written one after another from byte `len`, each only while two
/// more bytes fit below `n`: the bytes, the offset reached, and whether all
/// of them were written.
pub open spec fn run(b: Seq<u8>, len: int, n: int, us: Seq<u16>) -> (Seq<u8>, int, bool)
    decreases us.len(),
{
    if us.len() == 0 {
        (b, len, true)
    } else if len + 2 > n {
        (b, len, false)
    } else {
        run(put(b, len, us[0]), len + 2, n, us.drop_first())
    }
}

/// What a run of writes leaves: the units it wrote, two bytes each and low
/// byte first, from `len` on, and every other byte as it was.
pub(crate) proof fn lemma_run_writes(b: Seq<u8>, len: int, n: int, us: Seq<u16>)
    requires
        0 <= len,
        n <= b.len(),
    ensures
        ({
            let (b2, l, ok) = run(b, len, n, us);
            &&& b2.len() == b.len()
            &&& len <= l
            &&& forall|k: int| 0 <= k < b.len() && !(len <= k < l) ==> b2[k] == b[k]
            &&& forall|i: int| 0 <= i < (l - len) / 2 ==> b2[len + 2 * i] == (us[i] % 256) as u8 && b2[len + 2 * i + 1] == (us[i] / 256) as u8
            &&& (l - len) % 2 == 0
            &&& ok ==> l == len + 2 * us.len()
        }),
    decreases us.len(),
{
    lemma_run_len(b, len, n, us);
    if us.len() > 0 && len + 2 <= n {
        let b1 = put(b, len, us[0]);
        lemma_run_writes(b1, len + 2, n, us.drop_first());
        let (b2, l, ok) = run(b, len, n, us);
        assert forall|i: int| 0 <= i < (l - len) / 2 implies b2[len + 2 * i] == (us[i] % 256) as u8 && b2[len + 2
            * i + 1] == (us[i] / 256) as u8 by {
            assert(i < us.len()) by (nonlinear_arith)
                requires
                    0 <= i < (l - len) / 2,
                    l <= len + 2 * us.len(),
            ;
            if i > 0 {
                assert(us.drop_first()[i - 1] == us[i]);
                assert(len + 2 + 2 * (i - 1) == len + 2 * i);
            }
        }
    }
}

/// A string written with `unicode_step` reads back from where it is placed:
/// its units, two bytes each and low byte first, then a zero unit.
pub proof fn law_unicode_string_reads_back(b: Seq<u8>, len: int, n: int, us: Seq<u16>)
    requires
        0 <= len,
        n <= b.len(),
    ensures
        unicode_step(b, len, n, us) matches (b2, l, Some((s, z))) ==> {
            &&& z == 2 * us.len()
            &&& forall|i: int| 0 <= i < us.len() ==> b2[s + 2 * i] == (us[i] % 256) as u8 && b2[s + 2 * i + 1]
                == (us[i] / 256) as u8
            &&& b2[s + z] == 0 && b2[s + z + 1] == 0
        },
{
    let start = round_up(len, 2);
    assert(len <= start) by {
        crate::buddy::types::round_up_lower(len, 2);
    }
    lemma_run_writes(b, start, n, us);
    let (b1, l1, ok) = run(b, start, n, us);
    if ok && l1 + 2 <= n {
        let b2 = put(b1, l1, 0);
        assert forall|i: int| 0 <= i < us.len() implies b2[start + 2 * i] == (us[i] % 256) as u8 && b2[start + 2
            * i + 1] == (us[i] / 256) as u8 by {
            assert((l1 - start) / 2 == us.len());
        }
    }
}

proof fn lemma_run_len(b: Seq<u8>, len: int, n: int, us: Seq<u16>)
    ensures
        run(b, len, n, us).0.len() == b.len(),
        len <= run(b, len, n, us).1 <= len + 2 * us.len(),
    decreases us.len(),
{
    if us.len() > 0 && len + 2 <= n {
        lemma_run_len(put(b, len, us[0]), len + 2, n, us.drop_first());
    }
}

/// A string placed in the buffer: where it starts, its length in bytes
/// without the ending zero, and the room with it.
#[derive(Debug, Clone, Copy, PartialEq, Eq, Structural)]
pub struct UnicodeSpan {
    pub offset: usize,
    pub length: u16,
    pub maximum_length: u16,
}

/// The fields of the fixed part that the builder fills in.
#[derive(Debug, Clone, Copy, PartialEq, Eq, Structural)]
pub struct ProcessParams {
    pub length: u32,
    pub maximum_length: u32,
    pub flags: u32,
    pub process_group_id: u32,
    pub console_handle: usize,
    pub environment: usize,
    pub environment_size: usize,
    pub current_directory: UnicodeSpan,
    pub image_path_name: UnicodeSpan,
    pub command_line: UnicodeSpan,
    pub desktop_info: UnicodeSpan,
    pub window_title: UnicodeSpan,
}

pub open spec fn empty_span() -> UnicodeSpan {
    UnicodeSpan { offset: 0, length: 0, maximum_length: 0 }
}

pub open spec fn zeroed_params() -> ProcessParams {
    ProcessParams {
        length: 0,
        maximum_length: 0,
        flags: 0,
        process_group_id: 0,
        console_handle: 0,
        environment: 0,
        environment_size: 0,
        current_directory: empty_span(),
        image_path_name: empty_span(),
        command_line: empty_span(),
        desktop_info: empty_span(),
        window_title: empty_span(),
    }
}

/// A string written with its ending zero: from the even offset at or after
/// `len`, the units while they fit, then a zero unit that does not count.
pub open spec fn unicode_step(b: Seq<u8>, len: int, n: int, us: Seq<u16>) -> (Seq<u8>, int, Option<(int, int)>) {
    let start = round_up(len, 2);
    let (b1, l1, ok) = run(b, start, n, us);
    if !ok || l1 + 2 > n {
        (b1, l1, None)
    } else {
        (put(b1, l1, 0), l1, Some((start, l1 - start)))
    }
}

/// The command line: with arguments, the image path in quotes, a space and
/// the arguments; without, the image path alone; then a zero unit that does
/// not count. Only the units of the path and the arguments are checked
/// against the end of the buffer.
pub open spec fn command_step(
    b: Seq<u8>,
    len: int,
    n: int,
    image: Seq<u16>,
    args: Option<Seq<u16>>,
) -> (Seq<u8>, int, Option<(int, int)>) {
    let start = round_up(len, 2);
    match args {
        Some(a) => {
            let (b2, l2, ok2) = run(put(b, start, QUOTE), start + 2, n, image);
            if !ok2 {
                (b2, l2, None)
            } else {
                let (b4, l4, ok4) = run(put(put(b2, l2, QUOTE), l2 + 2, SPACE), l2 + 4, n, a);
                if !ok4 || l4 + 2 > n {
                    (b4, l4, None)
                } else {
                    (put(b4, l4, 0), l4, Some((start, l4 - start)))
                }
            }
        },
        None => {
            let (b2, l2, ok2) = run(b, start, n, image);
            if !ok2 || l2 + 2 > n {
                (b2, l2, None)
            } else {
                (put(b2, l2, 0), l2, Some((start, l2 - start)))
            }
        },
    }
}

/// The current directory: its units while they fit, then a backslash that
/// counts and a zero unit that does not, neither checked.
pub open spec fn directory_step(b: Seq<u8>, len: int, n: int, dir: Seq<u16>) -> (Seq<u8>, int, Option<(int, int)>) {
    let start = round_up(len, 2);
    let (b1, l1, ok) = run(b, start, n, dir);
    if !ok {
        (b1, l1, None)
    } else {
        (put(put(b1, l1, BACKSLASH), l1 + 2, 0), l1 + 2, Some((start, l1 + 2 - start)))
    }
}

/// The byte index of the last `c` in `b`, or -1.
pub open spec fn last_index(b: Seq<u8>, c: u8) -> int
    decreases b.len(),
{
    if b.len() == 0 {
        -1
    } else if b.last() == c {
        b.len() - 1
    } else {
        last_index(b.drop_last(), c)
    }
}

proof fn lemma_last_index(b: Seq<u8>, c: u8)
    ensures
        -1 <= last_index(b, c) < b.len(),
        last_index(b, c) >= 0 ==> b[last_index(b, c)] == c,
    decreases b.len(),
{
    if b.len() > 0 && b.last() != c {
        lemma_last_index(b.drop_last(), c);
    }
}

/// The directory part of a path: up to its last backslash, or else up to
/// its last slash, or all of it.
pub open spec fn directory_of(b: Seq<u8>) -> Seq<u8> {
    if last_index(b, 0x5C) >= 0 {
        b.take(last_index(b, 0x5C))
    } else if last_index(b, 0x2F) >= 0 {
        b.take(last_index(b, 0x2F))
    } else {
        b
    }
}

/// The byte index of the last `c` in `bytes`, or none.
fn rfind_byte(bytes: &[u8], c: u8) -> (r: Option<usize>)
    ensures
        match r {
            Some(i) => last_index(bytes@, c) == i,
            None => last_index(bytes@, c) == -1,
        },
{
    let mut i = bytes.len();
    proof {
        assert(bytes@.take(i as int) =~= bytes@);
    }
    while i > 0
        invariant
            i <= bytes@.len(),
            last_index(bytes@, c) == last_index(bytes@.take(i as int), c),
        decreases i,
    {
        proof {
            assert(bytes@.take(i as int).drop_last() =~= bytes@.take(i - 1));
        }
        if bytes[i - 1] == c {
            return Some(i - 1);
        }
        i = i - 1;
    }
    None
}

/// The directory of a path: the text before its last backslash, or else
/// before its last slash, or the whole path.
pub fn get_directory_from_path(path: &str) -> (r: &str)
    ensures
        r.spec_bytes() == directory_of(path.spec_bytes()),
        r@ == directory_chars(path@),
{
    broadcast use vstd::utf8::encode_utf8_valid_utf8, vstd::utf8::encode_utf8_decode_utf8;

    let bytes = path.as_bytes();
    let cut = match rfind_byte(bytes, 0x5C) {
        Some(i) => Some(i),
        None => rfind_byte(bytes, 0x2F),
    };
    match cut {
        Some(i) => {
            proof {
                let c = if last_index(bytes@, 0x5C) >= 0 { 0x5Cu8 } else { 0x2Fu8 };
                lemma_last_index(bytes@, c);
                assert(!is_continuation_byte(bytes@[i as int]));
                vstd::utf8::is_char_boundary_iff_not_is_continuation_byte(bytes@, i as int);
            }
            let (dir, _) = path.split_at(i);
            dir
        },
        None => path,
    }
}

/// The directory of a path, as text: the characters of [`directory_of`]
/// applied to the path's bytes.
pub open spec fn directory_chars(path: Seq<char>) -> Seq<char> {
    decode_utf8(directory_of(encode_utf8(path)))
}

/// What a builder holds: its buffer, the bytes in use, the fixed part and
/// whether it is placed, and the settings that the strings come from.
pub struct ParamsView {
    pub bytes: Seq<u8>,
    pub used: int,
    pub params: ProcessParams,
    pub params_written: bool,
    pub image_path: Seq<char>,
    pub command_args: Option<Seq<char>>,
    pub current_directory: Option<Seq<char>>,
    pub desktop_info: Option<Seq<char>>,
    pub console_handle: usize,
    pub process_group: u32,
    pub environment: usize,
    pub environment_size: usize,
}

pub open spec fn chars_of(s: Option<&str>) -> Option<Seq<char>> {
    match s {
        Some(t) => Some(t@),
        None => None,
    }
}

/// A string placed from byte `start`, `size` bytes long.
pub open spec fn span(start: int, size: int) -> UnicodeSpan {
    UnicodeSpan { offset: start as usize, length: size as u16, maximum_length: (size + 2) as u16 }
}

/// The fixed part with string `which` (0 the current directory, 1 the image
/// path, 2 the command line, 3 the desktop, 4 the window title) placed at
/// `s`, and its bytes counted in the length.
pub open spec fn with_span(p: ProcessParams, which: int, s: UnicodeSpan) -> ProcessParams {
    let q = ProcessParams { length: (p.length + s.length) as u32, ..p };
    if which == 0 {
        ProcessParams { current_directory: s, ..q }
    } else if which == 1 {
        ProcessParams { image_path_name: s, ..q }
    } else if which == 2 {
        ProcessParams { command_line: s, ..q }
    } else if which == 3 {
        ProcessParams { desktop_info: s, ..q }
    } else {
        ProcessParams { window_title: s, ..q }
    }
}

/// The directory written for the block: the one set, or else that of the
/// image path.
pub open spec fn directory_for(v: ParamsView) -> Seq<char> {
    match v.current_directory {
        Some(d) => d,
        None => directory_chars(v.image_path),
    }
}

/// String `which` of the block written at the end of what is in use.
pub open spec fn string_step(v: ParamsView, n: int, which: int) -> (Seq<u8>, int, Option<(int, int)>) {
    if which == 0 {
        directory_step(v.bytes, v.used, n, utf16(directory_for(v)))
    } else if which == 2 {
        command_step(
            v.bytes,
            v.used,
            n,
            utf16(v.image_path),
            match v.command_args {
                Some(a) => Some(utf16(a)),
                None => None,
            },
        )
    } else if which == 3 {
        unicode_step(
            v.bytes,
            v.used,
            n,
            utf16(
                match v.desktop_info {
                    Some(d) => d,
                    None => Seq::empty(),
                },
            ),
        )
    } else {
        unicode_step(v.bytes, v.used, n, utf16(v.image_path))
    }
}

/// The strings from `which` on written one after another, each placed in
/// the fixed part; stops at the first that does not fit.
pub open spec fn strings_from(v: ParamsView, n: int, which: int) -> (ParamsView, bool)
    decreases 5 - which,
{
    if which >= 5 || which < 0 {
        (v, true)
    } else {
        let (b, l, r) = string_step(v, n, which);
        let v1 = ParamsView { bytes: b, used: l, ..v };
        match r {
            None => (v1, false),
            Some((s, z)) => strings_from(
                ParamsView { params: with_span(v.params, which, span(s, z)), ..v1 },
                n,
                which + 1,
            ),
        }
    }
}

/// The room for the fixed part taken, then `off` bytes from the next
/// multiple of 8 where they fit.
pub open spec fn offset_step(v: ParamsView, off: int, n: int) -> (ParamsView, bool) {
    let a = round_up(v.used, 8);
    if a + off > n {
        (ParamsView { used: a, ..v }, false)
    } else {
        (ParamsView { used: a + off, ..v }, true)
    }
}

/// The fixed part placed at the start of the buffer.
pub open spec fn params_step(v: ParamsView) -> ParamsView {
    ParamsView { used: v.used + PARAMS_SIZE, params_written: true, ..v }
}

/// The settings copied into the fixed part and its lengths completed.
pub open spec fn finish(v: ParamsView) -> ParamsView {
    let length = (v.params.length + PARAMS_SIZE) as u32;
    ParamsView {
        params: ProcessParams {
            environment: v.environment,
            environment_size: v.environment_size,
            process_group_id: v.process_group,
            flags: PARAMS_NORMALIZED,
            console_handle: v.console_handle,
            length,
            maximum_length: (v.params.maximum_length + length) as u32,
            ..v.params
        },
        ..v
    }
}

/// A whole build: the fixed part, one byte of room from the next multiple
/// of 8, the five strings, then the settings; whether it all fit.
pub open spec fn build_step(v: ParamsView, n: int) -> (ParamsView, bool) {
    let (v1, ok1) = offset_step(params_step(v), 1, n);
    if !ok1 {
        (v1, false)
    } else {
        let (v2, ok2) = strings_from(v1, n, 0);
        if !ok2 {
            (v2, false)
        } else {
            (finish(v2), true)
        }
    }
}

proof fn lemma_run_bound(b: Seq<u8>, len: int, n: int, us: Seq<u16>)
    ensures
        run(b, len, n, us).1 <= if len <= n { n } else { len },
    decreases us.len(),
{
    if us.len() > 0 && len + 2 <= n {
        lemma_run_bound(put(b, len, us[0]), len + 2, n, us.drop_first());
    }
}

/// The larger of `a` and `b`.
pub open spec fn max_of(a: int, b: int) -> int {
    if a <= b { b } else { a }
}

/// What a string step leaves: the bytes keep their length, the offset moves
/// forward by a bounded amount, and a placed string is at most `n + 2` bytes
/// long and ends where the next one may start.
proof fn lemma_string_step(v: ParamsView, n: int, which: int)
    requires
        v.used >= 0,
        n >= 0,
    ensures
        ({
            let (b, l, r) = string_step(v, n, which);
            &&& b.len() == v.bytes.len()
            &&& v.used <= l <= max_of(v.used, n) + 8
            &&& (r matches Some((s, z)) ==> {
                &&& 0 <= s
                &&& 0 <= z <= n + 2
                &&& (which != 0 ==> l <= n - 2)
                &&& (which == 0 ==> l <= max_of(v.used + 1, n) + 2)
            })
        }),
{
    let start = round_up(v.used, 2);
    assert(v.used <= start <= v.used + 1) by (nonlinear_arith)
        requires
            start == ((v.used + 2 - 1) / 2) * 2,
            v.used >= 0,
    ;
    if which == 0 {
        let us = utf16(directory_for(v));
        lemma_run_len(v.bytes, start, n, us);
        lemma_run_bound(v.bytes, start, n, us);
    } else if which == 2 {
        let image = utf16(v.image_path);
        let b0 = put(v.bytes, start, QUOTE);
        lemma_run_len(b0, start + 2, n, image);
        lemma_run_bound(b0, start + 2, n, image);
        lemma_run_len(v.bytes, start, n, image);
        lemma_run_bound(v.bytes, start, n, image);
        match v.command_args {
            Some(a) => {
                let (b2, l2, ok2) = run(b0, start + 2, n, image);
                let b3 = put(put(b2, l2, QUOTE), l2 + 2, SPACE);
                lemma_run_len(b3, l2 + 4, n, utf16(a));
                lemma_run_bound(b3, l2 + 4, n, utf16(a));
            },
            None => {},
        }
    } else {
        let us = if which == 3 {
            utf16(
                match v.desktop_info {
                    Some(d) => d,
                    None => Seq::empty(),
                },
            )
        } else {
            utf16(v.image_path)
        };
        lemma_run_len(v.bytes, start, n, us);
        lemma_run_bound(v.bytes, start, n, us);
    }
}

/// The bytes from `at` hold the units `us`, two bytes each, low byte first.
pub open spec fn holds_units(b: Seq<u8>, at: int, us: Seq<u16>) -> bool {
    forall|i: int|
        0 <= i < us.len() ==> b[at + 2 * i] == (us[i] % 256) as u8 && b[at + 2 * i + 1] == (us[i] / 256) as u8
}

/// The units string `which` of a block is written as: the directory with a
/// backslash; the image path; the command line, the quoted image path, a
/// space and the arguments where there are arguments; the desktop.
pub open spec fn expected_units(v: ParamsView, which: int) -> Seq<u16> {
    if which == 0 {
        utf16(directory_for(v)) + seq![BACKSLASH]
    } else if which == 2 {
        match v.command_args {
            Some(a) => seq![QUOTE] + utf16(v.image_path) + seq![QUOTE, SPACE] + utf16(a),
            None => utf16(v.image_path),
        }
    } else if which == 3 {
        utf16(
            match v.desktop_info {
                Some(d) => d,
                None => Seq::empty(),
            },
        )
    } else {
        utf16(v.image_path)
    }
}

/// The span of string `which` in the fixed part.
pub open spec fn span_of(p: ProcessParams, which: int) -> UnicodeSpan {
    if which == 0 {
        p.current_directory
    } else if which == 1 {
        p.image_path_name
    } else if which == 2 {
        p.command_line
    } else if which == 3 {
        p.desktop_info
    } else {
        p.window_title
    }
}

proof fn lemma_put(b: Seq<u8>, off: int, c: u16)
    ensures
        put(b, off, c).len() == b.len(),
        forall|k: int| 0 <= k < b.len() && k != off && k != off + 1 ==> put(b, off, c)[k] == b[k],
        0 <= off && off + 2 <= b.len() ==> put(b, off, c)[off] == (c % 256) as u8 && put(b, off, c)[off
            + 1] == (c / 256) as u8,
{
}

/// Units written at `at` and then `vs` written right after them, with
/// nothing written below `at + 2 * us.len()` in between, hold `us + vs`.
proof fn lemma_holds_concat(b: Seq<u8>, at: int, us: Seq<u16>, vs: Seq<u16>)
    requires
        holds_units(b, at, us),
        holds_units(b, at + 2 * us.len(), vs),
    ensures
        holds_units(b, at, us + vs),
{
    assert forall|i: int| 0 <= i < (us + vs).len() implies b[at + 2 * i] == ((us + vs)[i] % 256) as u8 && b[at + 2
        * i + 1] == ((us + vs)[i] / 256) as u8 by {
        if i >= us.len() {
            assert(at + 2 * us.len() + 2 * (i - us.len()) == at + 2 * i);
        }
    }
}

/// Bytes that a later write leaves alone keep holding what they held.
pub(crate) proof fn lemma_holds_kept(b: Seq<u8>, b2: Seq<u8>, at: int, us: Seq<u16>)
    requires
        holds_units(b, at, us),
        0 <= at,
        at + 2 * us.len() <= b.len(),
        b2.len() == b.len(),
        forall|k: int| at <= k < at + 2 * us.len() ==> b2[k] == b[k],
    ensures
        holds_units(b2, at, us),
{
    assert forall|i: int| 0 <= i < us.len() implies b2[at + 2 * i] == (us[i] % 256) as u8 && b2[at + 2 * i + 1]
        == (us[i] / 256) as u8 by {
        assert(at <= at + 2 * i && at + 2 * i + 1 < at + 2 * us.len());
    }
}

/// What a string step writes: a placed string starts at or after the
/// offset in use and ends where the offset is left; where it lies inside
/// the buffer its bytes hold the units of the string; no byte below the
/// offset in use changes.
proof fn lemma_string_step_writes(v: ParamsView, n: int, which: int)
    requires
        0 <= v.used,
        0 <= n <= v.bytes.len(),
    ensures
        ({
            let (b, l, r) = string_step(v, n, which);
            &&& b.len() == v.bytes.len()
            &&& forall|k: int| 0 <= k < v.used ==> b[k] == v.bytes[k]
            &&& (r matches Some((st, z)) ==> {
                &&& v.used <= st
                &&& l == st + z
                &&& z == 2 * expected_units(v, which).len()
                &&& (st + z <= n ==> holds_units(b, st, expected_units(v, which)))
            })
        }),
{
    let start = round_up(v.used, 2);
    crate::buddy::types::round_up_lower(v.used, 2);
    if which == 0 {
        let us = utf16(directory_for(v));
        lemma_run_writes(v.bytes, start, n, us);
        let (b1, l1, ok) = run(v.bytes, start, n, us);
        if ok {
            let b2 = put(b1, l1, BACKSLASH);
            let b3 = put(b2, l1 + 2, 0);
            lemma_put(b1, l1, BACKSLASH);
            lemma_put(b2, l1 + 2, 0);
            if l1 + 2 <= n {
                assert(holds_units(b1, start, us)) by {
                    assert((l1 - start) / 2 == us.len());
                }
                lemma_holds_kept(b1, b3, start, us);
                assert(holds_units(b3, l1, seq![BACKSLASH]));
                lemma_holds_concat(b3, start, us, seq![BACKSLASH]);
            }
        }
    } else if which == 2 {
        let image = utf16(v.image_path);
        match v.command_args {
            Some(a) => {
                let au = utf16(a);
                let b0 = put(v.bytes, start, QUOTE);
                lemma_put(v.bytes, start, QUOTE);
                lemma_run_writes(b0, start + 2, n, image);
                let (b2, l2, ok2) = run(b0, start + 2, n, image);
                if ok2 {
                    let b3 = put(b2, l2, QUOTE);
                    let b4 = put(b3, l2 + 2, SPACE);
                    lemma_put(b2, l2, QUOTE);
                    lemma_put(b3, l2 + 2, SPACE);
                    lemma_run_writes(b4, l2 + 4, n, au);
                    let (b5, l5, ok5) = run(b4, l2 + 4, n, au);
                    if ok5 && l5 + 2 <= n {
                        let b6 = put(b5, l5, 0);
                        lemma_put(b5, l5, 0);
                        assert(holds_units(b0, start, seq![QUOTE]));
                        lemma_holds_kept(b0, b6, start, seq![QUOTE]);
                        assert(holds_units(b2, start + 2, image)) by {
                            assert((l2 - (start + 2)) / 2 == image.len());
                        }
                        lemma_holds_kept(b2, b6, start + 2, image);
                        assert(holds_units(b4, l2, seq![QUOTE, SPACE]));
                        lemma_holds_kept(b4, b6, l2, seq![QUOTE, SPACE]);
                        assert(holds_units(b5, l2 + 4, au)) by {
                            assert((l5 - (l2 + 4)) / 2 == au.len());
                        }
                        lemma_holds_kept(b5, b6, l2 + 4, au);
                        lemma_holds_concat(b6, start, seq![QUOTE], image);
                        lemma_holds_concat(b6, start, seq![QUOTE] + image, seq![QUOTE, SPACE]);
                        lemma_holds_concat(b6, start, seq![QUOTE] + image + seq![QUOTE, SPACE], au);
                    }
                }
            },
            None => {
                lemma_run_writes(v.bytes, start, n, image);
                let (b1, l1, ok) = run(v.bytes, start, n, image);
                if ok && l1 + 2 <= n {
                    lemma_put(b1, l1, 0);
                    assert(holds_units(b1, start, image)) by {
                        assert((l1 - start) / 2 == image.len());
                    }
                    lemma_holds_kept(b1, put(b1, l1, 0), start, image);
                }
            },
        }
    } else {
        law_unicode_string_reads_back(v.bytes, v.used, n, expected_units(v, which));
        lemma_run_writes(v.bytes, start, n, expected_units(v, which));
        let (b1, l1, ok) = run(v.bytes, start, n, expected_units(v, which));
        if ok && l1 + 2 <= n {
            lemma_put(b1, l1, 0);
        }
    }
}


/// The strings from `which` on, written one after another: each span the
/// fixed part records starts at or after the offset in use, has the length
/// of its units and, inside the buffer, holds them; bytes below the offset
/// in use and the spans recorded before stay as they were.
proof fn lemma_strings_from_writes(v: ParamsView, n: int, which: int)
    requires
        0 <= v.used <= 0x1_0000 + 8 * which,
        0 <= n <= v.bytes.len(),
        n + 64 <= 0xFFFF,
        0 <= which <= 5,
    ensures
        ({
            let (vf, ok) = strings_from(v, n, which);
            &&& vf.bytes.len() == v.bytes.len()
            &&& vf.used >= v.used
            &&& forall|k: int| 0 <= k < v.used ==> vf.bytes[k] == v.bytes[k]
            &&& forall|w: int| 0 <= w < which ==> span_of(vf.params, w) == span_of(v.params, w)
            &&& ok ==> forall|w: int|
                #![trigger span_of(vf.params, w)]
                which <= w < 5 ==> {
                    let sp = span_of(vf.params, w);
                    &&& v.used <= sp.offset
                    &&& sp.offset + sp.length <= vf.used
                    &&& sp.length == 2 * expected_units(v, w).len()
                    &&& (w != 0 ==> sp.offset + sp.length <= n - 2)
                    &&& (sp.offset + sp.length <= n ==> holds_units(vf.bytes, sp.offset as int, expected_units(v, w)))
                }
        }),
    decreases 5 - which,
{
    if which < 5 {
        lemma_string_step(v, n, which);
        lemma_string_step_writes(v, n, which);
        let (b, l, r) = string_step(v, n, which);
        match r {
            None => {
                let v1 = ParamsView { bytes: b, used: l, ..v };
                assert(strings_from(v, n, which) == (v1, false));
            },
            Some((st, z)) => {
                let v2 = ParamsView {
                    params: with_span(v.params, which, span(st, z)),
                    bytes: b,
                    used: l,
                    ..v
                };
                assert(strings_from(v, n, which) == strings_from(v2, n, which + 1));
                lemma_strings_from_writes(v2, n, which + 1);
                let (vf, ok) = strings_from(v2, n, which + 1);
                assert(forall|w: int| 0 <= w < 5 ==> expected_units(v2, w) == expected_units(v, w));
                assert(span_of(v2.params, which) == span(st, z));
                assert(span(st, z).offset == st && span(st, z).length == z);
                if st + z <= n {
                    lemma_holds_kept(b, vf.bytes, st, expected_units(v, which));
                }
                assert forall|w: int| #![trigger span_of(vf.params, w)] ok && which <= w < 5 implies {
                    let sp = span_of(vf.params, w);
                    &&& v.used <= sp.offset
                    &&& sp.offset + sp.length <= vf.used
                    &&& sp.length == 2 * expected_units(v, w).len()
                    &&& (w != 0 ==> sp.offset + sp.length <= n - 2)
                    &&& (sp.offset + sp.length <= n ==> holds_units(vf.bytes, sp.offset as int, expected_units(v, w)))
                } by {
                    assert(expected_units(v2, w) == expected_units(v, w));
                    if w == which {
                        assert(span_of(vf.params, w) == span(st, z));
                    }
                }
                assert forall|w: int| 0 <= w < which implies span_of(vf.params, w) == span_of(v.params, w) by {
                    assert(span_of(vf.params, w) == span_of(v2.params, w));
                }
            },
        }
    }
}

/// After a build that fits, the span the fixed part records for each
/// string has the length of the string's units and, where it lies inside
/// the buffer, holds them; every string but the directory lies inside it.
pub proof fn law_build_places_strings(v: ParamsView, n: int)
    requires
        0 <= v.used,
        0 <= n <= v.bytes.len(),
        n + 64 <= 0xFFFF,
    ensures
        build_step(v, n).1 ==> forall|w: int|
            #![trigger span_of(build_step(v, n).0.params, w)]
            0 <= w < 5 ==> {
                let vf = build_step(v, n).0;
                let sp = span_of(vf.params, w);
                &&& sp.length == 2 * expected_units(v, w).len()
                &&& (w != 0 ==> sp.offset + sp.length <= n - 2)
                &&& (sp.offset + sp.length <= n ==> holds_units(vf.bytes, sp.offset as int, expected_units(v, w)))
            },
{
    let (v1, ok1) = offset_step(params_step(v), 1, n);
    if ok1 {
        lemma_strings_from_writes(v1, n, 0);
        let (v2, ok2) = strings_from(v1, n, 0);
        if ok2 {
            assert forall|w: int| #![trigger span_of(build_step(v, n).0.params, w)] 0 <= w < 5 implies {
                let vf = build_step(v, n).0;
                let sp = span_of(vf.params, w);
                &&& sp.length == 2 * expected_units(v, w).len()
                &&& (w != 0 ==> sp.offset + sp.length <= n - 2)
                &&& (sp.offset + sp.length <= n ==> holds_units(vf.bytes, sp.offset as int, expected_units(v, w)))
            } by {
                assert(expected_units(v1, w) == expected_units(v, w));
                assert(span_of(finish(v2).params, w) == span_of(v2.params, w));
            }
        }
    }
}


/// A builder with nothing written and nothing set but the default desktop.
pub open spec fn empty_params_view(n: nat) -> ParamsView {
    ParamsView {
        bytes: Seq::new(n, |i: int| 0u8),
        used: 0,
        params: zeroed_params(),
        params_written: false,
        image_path: Seq::empty(),
        command_args: None,
        current_directory: None,
        desktop_info: Some("Winsta0\\Default"@),
        console_handle: 0,
        process_group: 0,
        environment: 0,
        environment_size: 0,
    }
}

/// Builds the parameter block of a new process in a buffer of `N` bytes.
pub struct ProcessParamsBuilder<'a, const N: usize> {
    buffer: AlignedBuffer<N>,
    console_handle: usize,
    process_group_id: u32,
    environment_ptr: usize,
    environment_len: usize,
    params: ProcessParams,
    params_written: bool,
    image_path: &'a str,
    command_args: Option<&'a str>,
    current_directory: Option<&'a str>,
    desktop_info: Option<&'a str>,
    length: usize,
}

/// Room kept below the word's top so that offsets past the buffer never
/// wrap.
pub const LENGTH_SLACK: usize = 0x10000;

impl<'a, const N: usize> View for ProcessParamsBuilder<'a, N> {
    type V = ParamsView;

    closed spec fn view(&self) -> ParamsView {
        ParamsView {
            bytes: self.buffer.view(),
            used: self.length as int,
            params: self.params,
            params_written: self.params_written,
            image_path: self.image_path@,
            command_args: chars_of(self.command_args),
            current_directory: chars_of(self.current_directory),
            desktop_info: chars_of(self.desktop_info),
            console_handle: self.console_handle,
            process_group: self.process_group_id,
            environment: self.environment_ptr,
            environment_size: self.environment_len,
        }
    }
}

impl<'a, const N: usize> ProcessParamsBuilder<'a, N> {
    pub open spec fn wf(&self) -> bool {
        &&& self@.bytes.len() == N
        &&& N + 2 * LENGTH_SLACK <= usize::MAX
        &&& 0 <= self@.used
        &&& self@.used + LENGTH_SLACK <= usize::MAX
    }

    /// An empty block with the default desktop.
    pub fn new() -> (r: Self)
        requires
            N > PARAMS_SIZE + 100,
            N + 2 * LENGTH_SLACK <= usize::MAX,
        ensures
            r.wf(),
            r@ == empty_params_view(N as nat),
    {
        proof {
            reveal_strlit("");
        }
        let r = ProcessParamsBuilder {
            buffer: AlignedBuffer::new(),
            console_handle: 0,
            process_group_id: 0,
            environment_ptr: 0,
            environment_len: 0,
            params: ProcessParams {
                length: 0,
                maximum_length: 0,
                flags: 0,
                process_group_id: 0,
                console_handle: 0,
                environment: 0,
                environment_size: 0,
                current_directory: UnicodeSpan { offset: 0, length: 0, maximum_length: 0 },
                image_path_name: UnicodeSpan { offset: 0, length: 0, maximum_length: 0 },
                command_line: UnicodeSpan { offset: 0, length: 0, maximum_length: 0 },
                desktop_info: UnicodeSpan { offset: 0, length: 0, maximum_length: 0 },
                window_title: UnicodeSpan { offset: 0, length: 0, maximum_length: 0 },
            },
            params_written: false,
            image_path: "",
            command_args: None,
            current_directory: None,
            desktop_info: Some("Winsta0\\Default"),
            length: 0,
        };
        assert(r@.image_path =~= Seq::<char>::empty());
        r
    }

    pub fn set_console_handle(&mut self, handle: usize)
        ensures
            final(self)@ == (ParamsView { console_handle: handle, ..old(self)@ }),
    {
        self.console_handle = handle;
    }

    pub fn set_process_group(&mut self, id: u32)
        ensures
            final(self)@ == (ParamsView { process_group: id, ..old(self)@ }),
    {
        self.process_group_id = id;
    }

    pub fn set_environment(&mut self, environment_ptr: usize, environment_len: usize)
        ensures
            final(self)@ == (ParamsView {
                environment: environment_ptr,
                environment_size: environment_len,
                ..old(self)@
            }),
    {
        self.environment_ptr = environment_ptr;
        self.environment_len = environment_len;
    }

    pub fn set_command_args(&mut self, command_args: &'a str)
        ensures
            final(self)@ == (ParamsView { command_args: Some(command_args@), ..old(self)@ }),
    {
        self.command_args = Some(command_args);
    }

    pub fn set_current_directory(&mut self, current_directory: &'a str)
        ensures
            final(self)@ == (ParamsView {
                current_directory: Some(current_directory@),
                ..old(self)@
            }),
    {
        self.current_directory = Some(current_directory);
    }

    pub fn set_image_path(&mut self, path: &'a str)
        ensures
            final(self)@ == (ParamsView { image_path: path@, ..old(self)@ }),
    {
        self.image_path = path;
    }

    /// Where the fixed part starts in the buffer, once it is placed.
    pub fn as_mut_ptr(&self) -> (r: Option<usize>)
        ensures
            r == (if self@.params_written {
                Some(0usize)
            } else {
                None
            }),
    {
        if self.params_written {
            Some(0)
        } else {
            None
        }
    }

    /// The filled-in fixed part, once it is placed.
    pub fn params(&self) -> (r: Option<ProcessParams>)
        ensures
            r == (if self@.params_written {
                Some(self@.params)
            } else {
                None
            }),
    {
        if self.params_written {
            Some(self.params)
        } else {
            None
        }
    }

    /// The buffer, from its start.
    pub fn as_ptr(&self) -> (r: &[u8])
        ensures
            r@ == self@.bytes,
    {
        self.buffer.as_ptr()
    }

    /// The bytes in use.
    pub fn len(&self) -> (r: usize)
        ensures
            r == self@.used,
    {
        self.length
    }

    /// `offset` rounded up to a multiple of `align`.
    fn align_offset(&self, offset: usize, align: usize) -> (r: usize)
        requires
            1 <= align <= 8,
            offset + align <= usize::MAX,
        ensures
            r == round_up(offset as int, align as int),
            offset <= r < offset + align,
    {
        round_up_exec(offset, align)
    }

    /// Writes unit `c` at byte `off` where it fits.
    fn poke_unit(&mut self, off: usize, c: u16)
        requires
            old(self).wf(),
        ensures
            final(self)@ == (ParamsView { bytes: put(old(self)@.bytes, off as int, c), ..old(self)@ }),
            final(self).wf(),
    {
        if off <= N && N - off >= 2 {
            self.buffer.set(off, (c % 256) as u8);
            self.buffer.set(off + 1, (c / 256) as u8);
        }
    }

    /// Writes unit `c` at the current offset where it fits, and moves past
    /// it either way.
    fn push_unit(&mut self, c: u16)
        requires
            old(self).wf(),
            old(self)@.used + 2 + LENGTH_SLACK <= usize::MAX,
        ensures
            final(self)@ == (ParamsView {
                bytes: put(old(self)@.bytes, old(self)@.used, c),
                used: old(self)@.used + 2,
                ..old(self)@
            }),
            final(self).wf(),
    {
        self.poke_unit(self.length, c);
        self.length = self.length + 2;
    }

    /// Writes units while two more bytes fit; whether all were written.
    fn write_run(&mut self, us: &Vec<u16>) -> (ok: bool)
        requires
            old(self).wf(),
        ensures
            ({
                let (b, l, all) = run(old(self)@.bytes, old(self)@.used, N as int, us@);
                &&& final(self)@ == (ParamsView { bytes: b, used: l, ..old(self)@ })
                &&& ok == all
            }),
            final(self).wf(),
    {
        let mut i: usize = 0;
        proof {
            assert(us@.skip(0) =~= us@);
        }
        while i < us.len()
            invariant
                self.wf(),
                i <= us@.len(),
                run(old(self)@.bytes, old(self)@.used, N as int, us@) == run(
                    self@.bytes,
                    self@.used,
                    N as int,
                    us@.skip(i as int),
                ),
                self@ == (ParamsView { bytes: self@.bytes, used: self@.used, ..old(self)@ }),
            decreases us@.len() - i,
        {
            if self.length > N || N - self.length < 2 {
                return false;
            }
            proof {
                assert(us@.skip(i as int).drop_first() =~= us@.skip(i + 1));
            }
            self.push_unit(us[i]);
            i = i + 1;
        }
        proof {
            assert(us@.skip(i as int) =~= Seq::<u16>::empty());
        }
        true
    }

    /// Writes `s` with its ending zero from the next even offset; where it
    /// starts and its length in bytes.
    fn write_unicode_string(&mut self, s: &str) -> (r: Result<(usize, usize), ProcessBuilderError>)
        requires
            old(self).wf(),
            old(self)@.used + 16 + LENGTH_SLACK <= usize::MAX,
        ensures
            final(self).wf(),
            ({
                let (b, l, res) = unicode_step(old(self)@.bytes, old(self)@.used, N as int, utf16(s@));
                &&& final(self)@ == (ParamsView { bytes: b, used: l, ..old(self)@ })
                &&& match (r, res) {
                    (Ok((a, z)), Some((a2, z2))) => a == a2 && z == z2,
                    (Err(e), None) => e == ProcessBuilderError::BufferOverflow,
                    _ => false,
                }
            }),
    {
        let units = utf16_units(s);
        self.length = self.align_offset(self.length, 2);
        let start = self.length;
        if !self.write_run(&units) {
            return Err(ProcessBuilderError::BufferOverflow);
        }
        proof {
            lemma_run_len(old(self)@.bytes, start as int, N as int, units@);
        }
        if self.length > N || N - self.length < 2 {
            return Err(ProcessBuilderError::BufferOverflow);
        }
        self.poke_unit(self.length, 0);
        Ok((start, self.length - start))
    }
    /// Places the fixed part at the start of the buffer and takes its room.
    pub fn write_params(&mut self) -> (r: Result<(), ProcessBuilderError>)
        requires
            old(self).wf(),
            old(self)@.used + PARAMS_SIZE + LENGTH_SLACK <= usize::MAX,
        ensures
            final(self).wf(),
            final(self)@ == params_step(old(self)@),
            r is Ok,
    {
        self.length = self.length + PARAMS_SIZE;
        self.params_written = true;
        Ok(())
    }

    /// Takes `offset` bytes of room from the next multiple of 8, where they
    /// fit.
    pub fn offset(&mut self, offset: usize) -> (r: Result<(), ProcessBuilderError>)
        requires
            old(self).wf(),
            old(self)@.used + 16 + LENGTH_SLACK <= usize::MAX,
        ensures
            final(self).wf(),
            final(self)@ == offset_step(old(self)@, offset as int, N as int).0,
            r is Ok <==> offset_step(old(self)@, offset as int, N as int).1,
            r is Err ==> r == Err::<(), ProcessBuilderError>(ProcessBuilderError::BufferOverflow),
    {
        self.length = self.align_offset(self.length, 8);
        if offset > N || self.length > N - offset {
            return Err(ProcessBuilderError::BufferOverflow);
        }
        self.length = self.length + offset;
        Ok(())
    }

    /// Writes the image path with its ending zero.
    pub fn write_image_path(&mut self) -> (r: Result<(usize, usize), ProcessBuilderError>)
        requires
            old(self).wf(),
            old(self)@.used + 16 + LENGTH_SLACK <= usize::MAX,
        ensures
            final(self).wf(),
            ({
                let (b, l, res) = string_step(old(self)@, N as int, 1);
                &&& final(self)@ == (ParamsView { bytes: b, used: l, ..old(self)@ })
                &&& match (r, res) {
                    (Ok((a, z)), Some((a2, z2))) => a == a2 && z == z2,
                    (Err(e), None) => e == ProcessBuilderError::BufferOverflow,
                    _ => false,
                }
            }),
    {
        self.write_unicode_string(self.image_path)
    }

    /// Writes the window title, which is the image path, with its ending
    /// zero.
    pub fn write_window_title(&mut self) -> (r: Result<(usize, usize), ProcessBuilderError>)
        requires
            old(self).wf(),
            old(self)@.used + 16 + LENGTH_SLACK <= usize::MAX,
        ensures
            final(self).wf(),
            ({
                let (b, l, res) = string_step(old(self)@, N as int, 4);
                &&& final(self)@ == (ParamsView { bytes: b, used: l, ..old(self)@ })
                &&& match (r, res) {
                    (Ok((a, z)), Some((a2, z2))) => a == a2 && z == z2,
                    (Err(e), None) => e == ProcessBuilderError::BufferOverflow,
                    _ => false,
                }
            }),
    {
        self.write_unicode_string(self.image_path)
    }

    /// Writes the desktop, or an empty string without one, with its ending
    /// zero.
    pub fn write_desktop_info(&mut self) -> (r: Result<(usize, usize), ProcessBuilderError>)
        requires
            old(self).wf(),
            old(self)@.used + 16 + LENGTH_SLACK <= usize::MAX,
        ensures
            final(self).wf(),
            ({
                let (b, l, res) = string_step(old(self)@, N as int, 3);
                &&& final(self)@ == (ParamsView { bytes: b, used: l, ..old(self)@ })
                &&& match (r, res) {
                    (Ok((a, z)), Some((a2, z2))) => a == a2 && z == z2,
                    (Err(e), None) => e == ProcessBuilderError::BufferOverflow,
                    _ => false,
                }
            }),
    {
        let desktop = match self.desktop_info {
            Some(d) => d,
            None => "",
        };
        proof {
            reveal_strlit("");
        }
        self.write_unicode_string(desktop)
    }

    /// Writes the command line: the image path in quotes, a space and the
    /// arguments where there are arguments, else the image path alone; then
    /// an ending zero.
    pub fn write_command_args(&mut self) -> (r: Result<(usize, usize), ProcessBuilderError>)
        requires
            old(self).wf(),
            old(self)@.used + 16 + LENGTH_SLACK <= usize::MAX,
        ensures
            final(self).wf(),
            ({
                let (b, l, res) = string_step(old(self)@, N as int, 2);
                &&& final(self)@ == (ParamsView { bytes: b, used: l, ..old(self)@ })
                &&& match (r, res) {
                    (Ok((a, z)), Some((a2, z2))) => a == a2 && z == z2,
                    (Err(e), None) => e == ProcessBuilderError::BufferOverflow,
                    _ => false,
                }
            }),
    {
        let image = utf16_units(self.image_path);
        self.length = self.align_offset(self.length, 2);
        let start = self.length;
        let ghost b0 = self@.bytes;
        match self.command_args {
            Some(cmd) => {
                let args = utf16_units(cmd);
                self.push_unit(QUOTE);
                if !self.write_run(&image) {
                    return Err(ProcessBuilderError::BufferOverflow);
                }
                proof {
                    lemma_run_bound(put(b0, start as int, QUOTE), start + 2, N as int, image@);
                }
                self.push_unit(QUOTE);
                self.push_unit(SPACE);
                let ghost l3 = self@.used;
                let ghost b3 = self@.bytes;
                if !self.write_run(&args) {
                    return Err(ProcessBuilderError::BufferOverflow);
                }
                proof {
                    lemma_run_len(b3, l3, N as int, args@);
                    lemma_run_len(put(b0, start as int, QUOTE), start + 2, N as int, image@);
                }
            },
            None => {
                if !self.write_run(&image) {
                    return Err(ProcessBuilderError::BufferOverflow);
                }
                proof {
                    lemma_run_len(b0, start as int, N as int, image@);
                }
            },
        }
        if self.length > N || N - self.length < 2 {
            return Err(ProcessBuilderError::BufferOverflow);
        }
        self.poke_unit(self.length, 0);
        Ok((start, self.length - start))
    }

    /// Writes the current directory, or else that of the image path, then a
    /// backslash and an ending zero.
    pub fn write_current_directory(&mut self) -> (r: Result<(usize, usize), ProcessBuilderError>)
        requires
            old(self).wf(),
            old(self)@.used + 16 + LENGTH_SLACK <= usize::MAX,
        ensures
            final(self).wf(),
            ({
                let (b, l, res) = string_step(old(self)@, N as int, 0);
                &&& final(self)@ == (ParamsView { bytes: b, used: l, ..old(self)@ })
                &&& match (r, res) {
                    (Ok((a, z)), Some((a2, z2))) => a == a2 && z == z2,
                    (Err(e), None) => e == ProcessBuilderError::BufferOverflow,
                    _ => false,
                }
            }),
    {
        let dir = match self.current_directory {
            Some(path) => path,
            None => get_directory_from_path(self.image_path),
        };
        let units = utf16_units(dir);
        self.length = self.align_offset(self.length, 2);
        let start = self.length;
        let ghost b0 = self@.bytes;
        if !self.write_run(&units) {
            return Err(ProcessBuilderError::BufferOverflow);
        }
        proof {
            lemma_run_len(b0, start as int, N as int, units@);
            lemma_run_bound(b0, start as int, N as int, units@);
        }
        self.push_unit(BACKSLASH);
        self.poke_unit(self.length, 0);
        Ok((start, self.length - start))
    }
    /// Records string `which`, `size` bytes from `start`, in the fixed part.
    fn place(&mut self, which: u8, start: usize, size: usize)
        requires
            size + 32 <= 0xFFFF,
            old(self)@.params.length + size <= u32::MAX,
        ensures
            final(self)@ == (ParamsView {
                params: with_span(old(self)@.params, which as int, span(start as int, size as int)),
                ..old(self)@
            }),
    {
        let s = UnicodeSpan { offset: start, length: size as u16, maximum_length: size as u16 + 2 };
        self.params.length = self.params.length + size as u32;
        if which == 0 {
            self.params.current_directory = s;
        } else if which == 1 {
            self.params.image_path_name = s;
        } else if which == 2 {
            self.params.command_line = s;
        } else if which == 3 {
            self.params.desktop_info = s;
        } else {
            self.params.window_title = s;
        }
    }

    /// One string of the block written and recorded in the fixed part.
    fn write_string(&mut self, which: u8) -> (r: Result<(), ProcessBuilderError>)
        requires
            old(self).wf(),
            which < 5,
            old(self)@.used <= N + 8,
            N + 64 <= 0xFFFF,
            old(self)@.params.length + N + 2 <= u32::MAX,
        ensures
            final(self).wf(),
            ({
                let (b, l, res) = string_step(old(self)@, N as int, which as int);
                let v1 = ParamsView { bytes: b, used: l, ..old(self)@ };
                match res {
                    Some((st, z)) => {
                        &&& r is Ok
                        &&& final(self)@ == (ParamsView {
                            params: with_span(old(self)@.params, which as int, span(st, z)),
                            ..v1
                        })
                        &&& z <= N + 2
                        &&& final(self)@.params.length == old(self)@.params.length + z
                        &&& (which != 0 ==> l <= N - 2)
                        &&& (which == 0 ==> l <= max_of(old(self)@.used + 1, N as int) + 2)
                    },
                    None => r == Err::<(), ProcessBuilderError>(ProcessBuilderError::BufferOverflow)
                        && final(self)@ == v1,
                }
            }),
    {
        proof {
            lemma_string_step(self@, N as int, which as int);
        }
        let step = if which == 0 {
            self.write_current_directory()
        } else if which == 1 {
            self.write_image_path()
        } else if which == 2 {
            self.write_command_args()
        } else if which == 3 {
            self.write_desktop_info()
        } else {
            self.write_window_title()
        };
        match step {
            Ok((start, size)) => {
                self.place(which, start, size);
                Ok(())
            },
            Err(e) => Err(e),
        }
    }

    /// Lays out the whole block: the fixed part, a byte of room from the next
    /// multiple of 8, the current directory, the image path, the command
    /// line, the desktop and the window title, each recorded in the fixed
    /// part; then the environment, the process group, the console handle,
    /// the flag and the lengths. Fails at the first string that does not
    /// fit, with what was written so far kept.
    pub fn build(&mut self) -> (r: Result<(), ProcessBuilderError>)
        requires
            old(self).wf(),
            old(self)@.used + PARAMS_SIZE + 16 + LENGTH_SLACK <= usize::MAX,
            N + 64 <= 0xFFFF,
            old(self)@.params.length + 5 * (N + 2) + PARAMS_SIZE <= u32::MAX,
            old(self)@.params.maximum_length + old(self)@.params.length + 5 * (N + 2) + 2 * PARAMS_SIZE
                <= u32::MAX,
        ensures
            final(self).wf(),
            final(self)@ == build_step(old(self)@, N as int).0,
            r is Ok <==> build_step(old(self)@, N as int).1,
            r is Err ==> r == Err::<(), ProcessBuilderError>(ProcessBuilderError::BufferOverflow),
    {
        let _ = self.write_params();
        match self.offset(1) {
            Ok(()) => {},
            Err(e) => return Err(e),
        }
        let ghost v0 = self@;
        let ghost len0 = self@.params.length;
        assert(offset_step(params_step(old(self)@), 1, N as int) == (v0, true));
        let mut which: u8 = 0;
        while which < 5
            invariant
                self.wf(),
                which <= 5,
                self@.used <= N + 3,
                which == 0 ==> self@.used <= N,
                N + 64 <= 0xFFFF,
                self@.params.maximum_length == old(self)@.params.maximum_length,
                self@.params.length <= len0 + which * (N + 2),
                len0 == old(self)@.params.length,
                offset_step(params_step(old(self)@), 1, N as int) == (v0, true),
                strings_from(v0, N as int, 0) == strings_from(self@, N as int, which as int),
                self@.environment == old(self)@.environment,
                self@.environment_size == old(self)@.environment_size,
                self@.process_group == old(self)@.process_group,
                self@.console_handle == old(self)@.console_handle,
                len0 + 5 * (N + 2) + PARAMS_SIZE <= u32::MAX,
            decreases 5 - which,
        {
            let ghost before = self@;
            assert(self@.params.length + N + 2 <= u32::MAX) by (nonlinear_arith)
                requires
                    self@.params.length <= len0 + which * (N + 2),
                    which < 5,
                    len0 + 5 * (N + 2) + PARAMS_SIZE <= u32::MAX,
            ;
            match self.write_string(which) {
                Ok(()) => {},
                Err(e) => {
                    proof {
                        assert(strings_from(before, N as int, which as int) == (self@, false));
                    }
                    return Err(e);
                },
            }
            proof {
                assert(strings_from(before, N as int, which as int) == strings_from(
                    self@,
                    N as int,
                    which + 1,
                ));
                assert(self@.params.length <= len0 + (which + 1) * (N + 2)) by (nonlinear_arith)
                    requires
                        self@.params.length <= before.params.length + N + 2,
                        before.params.length <= len0 + which * (N + 2),
                ;
            }
            which = which + 1;
        }
        proof {
            assert(strings_from(self@, N as int, 5) == (self@, true));
        }
        self.params.environment = self.environment_ptr;
        self.params.environment_size = self.environment_len;
        self.params.process_group_id = self.process_group_id;
        self.params.flags = PARAMS_NORMALIZED;
        self.params.console_handle = self.console_handle;
        self.params.length = self.params.length + PARAMS_SIZE as u32;
        self.params.maximum_length = self.params.maximum_length + self.params.length;
        Ok(())
    }
}

} // verus!
