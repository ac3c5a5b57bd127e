//! Names and paths.
use vstd::prelude::*;
use vstd::utf8::{valid_utf8, is_char_boundary, is_continuation_byte, encode_utf8, encode_scalar};
use vstd::string::{StringSliceAdditionalSpecFns, StrSliceExecFns};
use crate::text::{str_from_utf8, char_utf8, decode_utf16, is_fitting_prefix, utf8_within, wide_to_utf8};

verus! {

/// Up to 256 bytes of a name.
pub struct FileName {
    data: [u8; 256],
    len: usize,
}

impl FileName {
    /// The bytes held.
    pub closed spec fn bytes(&self) -> Seq<u8> {
        self.data@.take(self.len as int)
    }

    /// All 256 bytes of storage: the name, then zeros.
    pub closed spec fn storage(&self) -> Seq<u8> {
        self.data@
    }

    pub closed spec fn wf(&self) -> bool {
        &&& self.len <= 256
        &&& self.data@ == self.bytes() + Seq::new((256 - self.len) as nat, |i: int| 0u8)
    }

    /// The first 256 bytes of `bytes`, or all of them when there are fewer.
    fn from_bytes(bytes: &[u8]) -> (r: Self)
        ensures
            r.wf(),
            r.bytes() == bytes@.take(if bytes@.len() < 256 { bytes@.len() as int } else { 256 }),
    {
        let mut data = [0u8; 256];
        let len = if bytes.len() < 256 {
            bytes.len()
        } else {
            256
        };
        let mut i: usize = 0;
        while i < len
            invariant
                len <= 256,
                len <= bytes@.len(),
                i <= len,
                forall|k: int| 0 <= k < i ==> data@[k] == bytes@[k],
                forall|k: int| i <= k < 256 ==> data@[k] == 0,
            decreases len - i,
        {
            data[i] = bytes[i];
            i = i + 1;
        }
        let r = FileName { data, len };
        assert(r.bytes() =~= bytes@.take(len as int));
        assert(data@ =~= r.bytes() + Seq::new((256 - len) as nat, |i: int| 0u8));
        r
    }

    /// The first 256 bytes of `s`, or all of them when there are fewer.
    pub fn from_str(s: &str) -> (r: Self)
        ensures
            r.wf(),
            r.bytes() == s.spec_bytes().take(
                if s.spec_bytes().len() < 256 {
                    s.spec_bytes().len() as int
                } else {
                    256
                },
            ),
    {
        FileName::from_bytes(s.as_bytes())
    }

    /// The name that UTF-16 `units` decode to, units that do not decode
    /// left out: the longest run of whole characters from the start whose
    /// UTF-8 fits in 256 bytes.
    pub fn from_units(units: &[u16]) -> (r: Self)
        ensures
            r.wf(),
            valid_utf8(r.bytes()),
            is_fitting_prefix(r.bytes(), decode_utf16(units@), 256),
    {
        let bytes = utf8_within(units, 256);
        let r = FileName::from_bytes(bytes.as_slice());
        assert(r.bytes() =~= bytes@);
        r
    }

    /// The name as text, when its bytes are valid UTF-8.
    pub fn as_str(&self) -> (r: &str)
        requires
            self.wf(),
            valid_utf8(self.bytes()),
        ensures
            r.spec_bytes() == self.bytes(),
    {
        let (text, _) = self.data.as_slice().split_at(self.len);
        assert(text@ == self.bytes());
        match str_from_utf8(text) {
            Ok(s) => s,
            Err(_) => {
                proof {
                    assert(false);
                }
                ""
            },
        }
    }
}

/// The byte index of the first backslash at or after byte 8, or the length.
pub open spec fn device_end(b: Seq<u8>) -> int {
    if exists|i: int| 8 <= i < b.len() && b[i] == 0x5C {
        choose|i: int|
            8 <= i < b.len() && b[i] == 0x5C && forall|k: int| 8 <= k < i ==> b[k] != 0x5C
    } else {
        b.len() as int
    }
}

/// The device part of an NT path: up to the first backslash after its
/// first eight bytes, or all of it; none for a path shorter than that.
pub fn extract_device(nt_path: &str) -> (r: Option<&str>)
    requires
        nt_path.spec_bytes().len() >= 8 ==> is_char_boundary(nt_path.spec_bytes(), 8),
    ensures
        nt_path.spec_bytes().len() < 8 ==> r is None,
        nt_path.spec_bytes().len() >= 8 ==> (r matches Some(d) && d.spec_bytes()
            == nt_path.spec_bytes().take(device_end(nt_path.spec_bytes()))),
{
    broadcast use vstd::utf8::encode_utf8_valid_utf8;

    let bytes = nt_path.as_bytes();
    if bytes.len() < 8 {
        return None;
    }
    let mut end: usize = 8;
    while end < bytes.len() && bytes[end] != 0x5C
        invariant
            8 <= end <= bytes@.len(),
            bytes@ == nt_path.spec_bytes(),
            forall|k: int| 8 <= k < end ==> bytes@[k] != 0x5C,
        decreases bytes@.len() - end,
    {
        end = end + 1;
    }
    proof {
        let b = bytes@;
        assert(valid_utf8(b));
        if end < b.len() {
            assert(b[end as int] == 0x5C);
            assert(exists|i: int| 8 <= i < b.len() && b[i] == 0x5C);
            let c = choose|i: int|
                8 <= i < b.len() && b[i] == 0x5C && forall|k: int| 8 <= k < i ==> b[k] != 0x5C;
            assert(forall|k: int| 8 <= k < end ==> b[k] != 0x5C);
            if c < end {
            } else if c > end {
                assert(b[end as int] != 0x5C);
            }
            assert(device_end(b) == end);
            assert(!is_continuation_byte(b[end as int]));
            vstd::utf8::is_char_boundary_iff_not_is_continuation_byte(b, end as int);
        } else {
            assert(device_end(b) == end);
            vstd::utf8::is_char_boundary_start_end_of_seq(b);
        }
    }
    let (device, _) = nt_path.split_at(end);
    Some(device)
}

/// `b` without the `c` bytes at its end.
pub open spec fn trim_end_byte(b: Seq<u8>, c: u8) -> Seq<u8>
    decreases b.len(),
{
    if b.len() > 0 && b.last() == c {
        trim_end_byte(b.drop_last(), c)
    } else {
        b
    }
}

/// `b` without the `c` bytes at its start.
pub open spec fn trim_start_byte(b: Seq<u8>, c: u8) -> Seq<u8>
    decreases b.len(),
{
    if b.len() > 0 && b[0] == c {
        trim_start_byte(b.drop_first(), c)
    } else {
        b
    }
}

/// An ASCII capital letter made small; any other byte kept.
pub open spec fn ascii_lower(x: u8) -> u8 {
    if 0x41 <= x <= 0x5A {
        (x + 32) as u8
    } else {
        x
    }
}

/// The two byte strings are equal once ASCII letters are made small.
pub open spec fn eq_ignore_ascii_case(a: Seq<u8>, b: Seq<u8>) -> bool {
    &&& a.len() == b.len()
    &&& forall|i: int| 0 <= i < a.len() ==> ascii_lower(a[i]) == ascii_lower(b[i])
}

/// The number of `c` bytes at the end of `b`.
fn trailing_count(b: &[u8], c: u8) -> (r: usize)
    ensures
        r <= b@.len(),
        trim_end_byte(b@, c) == b@.take(b@.len() - r),
{
    let mut end = b.len();
    proof {
        assert(b@.take(end as int) =~= b@);
    }
    while end > 0 && b[end - 1] == c
        invariant
            end <= b@.len(),
            trim_end_byte(b@, c) == trim_end_byte(b@.take(end as int), c),
        decreases end,
    {
        proof {
            assert(b@.take(end as int).drop_last() =~= b@.take(end - 1));
        }
        end = end - 1;
    }
    proof {
        if end > 0 {
            assert(b@.take(end as int).last() == b@[end - 1]);
        }
    }
    b.len() - end
}

/// The number of `c` bytes at the start of `b`.
fn leading_count(b: &[u8], c: u8) -> (r: usize)
    ensures
        r <= b@.len(),
        trim_start_byte(b@, c) == b@.skip(r as int),
{
    let mut start: usize = 0;
    proof {
        assert(b@.skip(0) =~= b@);
    }
    while start < b.len() && b[start] == c
        invariant
            start <= b@.len(),
            trim_start_byte(b@, c) == trim_start_byte(b@.skip(start as int), c),
        decreases b@.len() - start,
    {
        proof {
            assert(b@.skip(start as int).drop_first() =~= b@.skip(start + 1));
        }
        start = start + 1;
    }
    start
}

fn lower_byte(x: u8) -> (r: u8)
    ensures
        r == ascii_lower(x),
{
    if 0x41 <= x && x <= 0x5A {
        x + 32
    } else {
        x
    }
}

/// The status a directory query gives when more entries follow.
pub const STATUS_MORE_ENTRIES: i32 = 0x105;

/// The UTF-16 units of the type name of a symbolic link.
pub const SYMBOLIC_LINK_TYPE: [u16; 12] = [
    0x53, 0x79, 0x6D, 0x62, 0x6F, 0x6C, 0x69, 0x63, 0x4C, 0x69, 0x6E, 0x6B,
];

/// What a directory query's status means for a walk over DOS device links.
#[derive(Debug, Clone, Copy, PartialEq, Eq, Structural)]
pub enum DirQueryStep {
    /// The query failed: the walk ends.
    Stop,
    /// The entries that came back are the last ones: read them, then end.
    ReadLast,
    /// More entries follow: read these, then query again.
    ReadMore,
}

/// The step a directory query's `status` calls for: success gives the last
/// entries, "more entries" asks for another query, anything else ends the
/// walk.
pub fn dir_query_step(status: i32) -> (r: DirQueryStep)
    ensures
        status == 0 ==> r == DirQueryStep::ReadLast,
        status == STATUS_MORE_ENTRIES ==> r == DirQueryStep::ReadMore,
        status != 0 && status != STATUS_MORE_ENTRIES ==> r == DirQueryStep::Stop,
{
    if status == 0 {
        DirQueryStep::ReadLast
    } else if status == STATUS_MORE_ENTRIES {
        DirQueryStep::ReadMore
    } else {
        DirQueryStep::Stop
    }
}

/// What one entry of a directory batch calls for.
#[derive(Debug, Clone, Copy, PartialEq, Eq, Structural)]
pub enum LinkEntryStep {
    /// An entry with an empty name: the batch ends here.
    EndOfBatch,
    /// A symbolic link: open it and read its target.
    Follow,
    /// Any other object: go on to the next entry.
    Skip,
}

/// The step an entry calls for, from the byte length of its name and the
/// UTF-16 units of its type name: an empty name ends the batch, a type named
/// `SymbolicLink` is followed, anything else is passed over.
pub fn link_entry_step(name_len: u16, type_units: &[u16]) -> (r: LinkEntryStep)
    ensures
        name_len == 0 ==> r == LinkEntryStep::EndOfBatch,
        name_len != 0 && type_units@ == SYMBOLIC_LINK_TYPE@ ==> r == LinkEntryStep::Follow,
        name_len != 0 && type_units@ != SYMBOLIC_LINK_TYPE@ ==> r == LinkEntryStep::Skip,
{
    if name_len == 0 {
        return LinkEntryStep::EndOfBatch;
    }
    let expected = SYMBOLIC_LINK_TYPE;
    if type_units.len() != expected.len() {
        return LinkEntryStep::Skip;
    }
    let mut i: usize = 0;
    while i < type_units.len()
        invariant
            name_len != 0,
            type_units@.len() == expected@.len(),
            expected@ == SYMBOLIC_LINK_TYPE@,
            i <= type_units@.len(),
            forall|k: int| 0 <= k < i ==> type_units@[k] == expected@[k],
        decreases type_units@.len() - i,
    {
        if type_units[i] != expected[i] {
            return LinkEntryStep::Skip;
        }
        i = i + 1;
    }
    assert(type_units@ =~= SYMBOLIC_LINK_TYPE@);
    LinkEntryStep::Follow
}

/// The drive letter of a DOS device link: the first character of its name
/// when the name ends with a colon and the link's target, without the
/// backslashes at its end, is `device`, likewise trimmed, up to ASCII case.
pub fn dos_drive_letter(link_name: &str, target: &str, device: &str) -> (r: Option<char>)
    ensures
        r == (if link_name.spec_bytes().len() > 0 && link_name.spec_bytes().last() == 0x3A
            && eq_ignore_ascii_case(
            trim_end_byte(target.spec_bytes(), 0x5C),
            trim_end_byte(device.spec_bytes(), 0x5C),
        ) {
            Some(link_name@[0])
        } else {
            None
        }),
{
    let name = link_name.as_bytes();
    if name.len() == 0 || name[name.len() - 1] != 0x3A {
        return None;
    }
    let t = target.as_bytes();
    let d = device.as_bytes();
    let tn = t.len() - trailing_count(t, 0x5C);
    let dn = d.len() - trailing_count(d, 0x5C);
    if tn != dn {
        return None;
    }
    let mut i: usize = 0;
    while i < tn
        invariant
            t@ == target.spec_bytes(),
            d@ == device.spec_bytes(),
            trim_end_byte(t@, 0x5C) == t@.take(tn as int),
            trim_end_byte(d@, 0x5C) == d@.take(dn as int),
            tn == dn,
            tn <= t@.len(),
            dn <= d@.len(),
            i <= tn,
            forall|k: int| 0 <= k < i ==> ascii_lower(t@[k]) == ascii_lower(d@[k]),
        decreases tn - i,
    {
        if lower_byte(t[i]) != lower_byte(d[i]) {
            proof {
                let a = trim_end_byte(target.spec_bytes(), 0x5C);
                let b = trim_end_byte(device.spec_bytes(), 0x5C);
                assert(ascii_lower(a[i as int]) != ascii_lower(b[i as int]));
            }
            return None;
        }
        i = i + 1;
    }
    proof {
        if link_name@.len() == 0 {
            assert(link_name@ =~= Seq::<char>::empty());
            assert(encode_utf8(link_name@) =~= Seq::<u8>::empty());
        }
    }
    Some(link_name.get_char(0))
}

/// An NT path to a device that has no drive letter: the console, the null
/// device or a named pipe.
pub open spec fn is_unmapped_device_path(b: Seq<u8>) -> bool {
    ||| "\\Device\\ConDrv".spec_bytes().is_prefix_of(b)
    ||| "\\Device\\Null".spec_bytes().is_prefix_of(b)
    ||| "\\Device\\NamedPipe".spec_bytes().is_prefix_of(b)
}

fn starts_with_bytes(b: &[u8], p: &[u8]) -> (r: bool)
    ensures
        r == p@.is_prefix_of(b@),
{
    if p.len() > b.len() {
        return false;
    }
    let mut i: usize = 0;
    while i < p.len()
        invariant
            p@.len() <= b@.len(),
            i <= p@.len(),
            forall|k: int| 0 <= k < i ==> p@[k] == b@[k],
        decreases p@.len() - i,
    {
        if p[i] != b[i] {
            return false;
        }
        i = i + 1;
    }
    assert(p@ =~= b@.take(p@.len() as int));
    true
}

/// Whether an NT path names a device that has no drive letter.
pub fn is_unmapped_device(nt_path: &str) -> (r: bool)
    ensures
        r == is_unmapped_device_path(nt_path.spec_bytes()),
{
    let b = nt_path.as_bytes();
    starts_with_bytes(b, "\\Device\\ConDrv".as_bytes()) || starts_with_bytes(b, "\\Device\\Null".as_bytes())
        || starts_with_bytes(b, "\\Device\\NamedPipe".as_bytes())
}

/// The DOS path on `drive` of a path relative to its volume: the letter, a
/// colon, a backslash and the path without its leading backslashes; its
/// first 256 bytes.
pub fn dos_full_path(drive: char, rel_path: &str) -> (r: FileName)
    ensures
        r.wf(),
        ({
            let full = encode_scalar(drive as u32) + seq![0x3Au8, 0x5Cu8] + trim_start_byte(
                rel_path.spec_bytes(),
                0x5C,
            );
            r.bytes() == full.take(if full.len() < 256 { full.len() as int } else { 256 })
        }),
{
    let rel = rel_path.as_bytes();
    let skip = leading_count(rel, 0x5C);
    let mut out = char_utf8(drive);
    out.push(0x3A);
    out.push(0x5C);
    let ghost head = out@;
    let mut i = skip;
    while i < rel.len()
        invariant
            skip <= i <= rel@.len(),
            out@ == head + rel@.subrange(skip as int, i as int),
        decreases rel@.len() - i,
    {
        out.push(rel[i]);
        proof {
            assert(rel@.subrange(skip as int, i + 1) =~= rel@.subrange(skip as int, i as int).push(rel@[i as int]));
        }
        i = i + 1;
    }
    proof {
        assert(rel@.subrange(skip as int, i as int) =~= rel@.skip(skip as int));
        assert(head =~= encode_scalar(drive as u32) + seq![0x3Au8, 0x5Cu8]);
    }
    FileName::from_bytes(out.as_slice())
}

/// The text of a counted UTF-16 string: nothing when its length is zero or
/// it has no buffer, else what the first `length / 2` units decode to.
pub fn unicode_to_string(length: u16, buffer: Option<&[u16]>) -> (r: String)
    requires
        buffer matches Some(b) ==> length / 2 <= b@.len(),
    ensures
        r@ == match buffer {
            Some(b) if length != 0 => decode_utf16(b@.take((length / 2) as int)),
            _ => Seq::<char>::empty(),
        },
{
    match buffer {
        Some(b) if length != 0 => {
            let n = (length / 2) as usize;
            let mut units: Vec<u16> = Vec::new();
            let mut i: usize = 0;
            while i < n
                invariant
                    n <= b@.len(),
                    i <= n,
                    units@ == b@.take(i as int),
                decreases n - i,
            {
                units.push(b[i]);
                proof {
                    assert(b@.take(i + 1) =~= b@.take(i as int).push(b@[i as int]));
                }
                i = i + 1;
            }
            wide_to_utf8(units.as_slice())
        },
        _ => String::new(),
    }
}

/// The UTF-16 units of `count` little-endian pairs of bytes from `start`.
pub open spec fn le_units(b: Seq<u8>, start: int, count: int) -> Seq<u16> {
    Seq::new(count as nat, |i: int| (b[start + 2 * i] + 256 * b[start + 2 * i + 1]) as u16)
}

/// The byte length a file name record starts with, little-endian.
pub open spec fn record_length(b: Seq<u8>) -> int {
    b[0] + 256 * b[1] + 65536 * b[2] + 16777216 * b[3]
}

/// The path in a file name record: a 32-bit byte length, then that many
/// bytes of UTF-16; none when the record is shorter than it says.
pub fn parse_file_name_information(info: &[u8]) -> (r: Option<String>)
    ensures
        info@.len() >= 4 && 4 + 2 * (record_length(info@) / 2) <= info@.len() ==> (r matches Some(s)
            && s@ == decode_utf16(le_units(info@, 4, record_length(info@) / 2))),
        !(info@.len() >= 4 && 4 + 2 * (record_length(info@) / 2) <= info@.len()) ==> r is None,
{
    if info.len() < 4 {
        return None;
    }
    let len_bytes: u32 = info[0] as u32 + 256 * (info[1] as u32) + 65536 * (info[2] as u32) + 16777216 * (
    info[3] as u32);
    let count = (len_bytes / 2) as usize;
    if count > (info.len() - 4) / 2 {
        return None;
    }
    assert(4 + 2 * count <= info@.len());
    let total = info.len();
    let mut units: Vec<u16> = Vec::new();
    let mut i: usize = 0;
    while i < count
        invariant
            total == info@.len(),
            4 + 2 * count <= info@.len(),
            count == record_length(info@) / 2,
            i <= count,
            units@ == le_units(info@, 4, i as int),
        decreases count - i,
    {
        assert(5 + 2 * i < info@.len());
        let lo = info[4 + 2 * i] as u32;
        let hi = info[5 + 2 * i] as u32;
        units.push((lo + 256 * hi) as u16);
        proof {
            assert(units@ =~= le_units(info@, 4, i + 1));
        }
        i = i + 1;
    }
    Some(wide_to_utf8(units.as_slice()))
}

} // verus!
