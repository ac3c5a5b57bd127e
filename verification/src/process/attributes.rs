//! The attribute list of a new process: the image path in NT form, room for
//! the client id and the image information that creation fills in, and the
//! entries that point at them.
//!
//! Places in the buffer are byte offsets. The list header and its entries
//! are kept as typed values beside the bytes; the bytes hold the path and
//! the zeroed room.
use vstd::prelude::*;
use crate::arith::{round_up, round_up_exec};
use crate::process::environment::{AlignedBuffer, utf16, utf16_units};
use crate::process::error::ProcessBuilderError;
use crate::process::params::{run, holds_units, lemma_run_writes, lemma_holds_kept};

verus! {

/// The bytes of a client id: a process id and a thread id.
pub const CLIENT_ID_SIZE: usize = 16;

/// The bytes of the image information that creation reports.
pub const IMAGE_INFO_SIZE: usize = 64;

/// The bytes of one list entry.
pub const ATTRIBUTE_SIZE: usize = 32;

/// The bytes of the list head with room for its first entry.
pub const ATTRIBUTE_LIST_SIZE: usize = 40;

/// The bytes of the length field that starts the list.
pub const LIST_LENGTH_SIZE: usize = 8;

/// The bytes of a handle.
pub const HANDLE_SIZE: usize = 8;

pub const PS_ATTRIBUTE_PARENT_PROCESS: usize = 0x60000;
pub const PS_ATTRIBUTE_CLIENT_ID: usize = 0x10003;
pub const PS_ATTRIBUTE_IMAGE_NAME: usize = 0x20005;
pub const PS_ATTRIBUTE_IMAGE_INFO: usize = 6;

/// Room kept below the word's top so that offsets never wrap.
pub const ATTR_SLACK: usize = 0x10000;

/// One entry of the list: its kind, the size of what it refers to, and a
/// value or the offset of what it points at.
#[derive(Debug, Clone, Copy, PartialEq, Eq, Structural)]
pub struct PsAttribute {
    pub attribute: usize,
    pub size: usize,
    pub value: usize,
}

/// What an attribute builder holds.
pub struct AttributesView {
    pub bytes: Seq<u8>,
    pub used: int,
    pub attribute_count: u32,
    pub total_length: int,
    pub entries: Seq<PsAttribute>,
    pub nt_image_path: Option<usize>,
    pub client_id: Option<usize>,
    pub image_info: Option<usize>,
    pub attribute_list: Option<usize>,
    pub image_path: Option<Seq<char>>,
    pub parent_pid: Option<u32>,
}

/// The prefix that makes a DOS path an NT path.
pub open spec fn nt_prefix() -> Seq<char> {
    seq!['\\', '?', '?', '\\']
}

/// `size` bytes from `at` set to zero.
pub open spec fn zeroed(b: Seq<u8>, at: int, size: int) -> Seq<u8> {
    Seq::new(b.len(), |i: int| if at <= i < at + size { 0u8 } else { b[i] })
}

/// The path written in NT form from the end of what is in use, while it
/// fits with room for an ending zero; where it starts and its length in
/// bytes. The offset in use moves only when it all fits.
pub open spec fn nt_path_step(v: AttributesView, path: Seq<char>, n: int) -> (AttributesView, Option<(int, int)>) {
    let (b, l, ok) = run(v.bytes, v.used, n, utf16(nt_prefix()) + utf16(path));
    if !ok || l + 2 > n {
        (AttributesView { bytes: b, ..v }, None)
    } else {
        (AttributesView { bytes: b, used: l, ..v }, Some((v.used, l - v.used)))
    }
}

/// Zeroed room of `size` bytes from the next multiple of 8, where it fits.
pub open spec fn room_step(v: AttributesView, size: int, n: int) -> (AttributesView, Option<int>) {
    let a = round_up(v.used, 8);
    if a + size > n {
        (AttributesView { used: a, ..v }, None)
    } else {
        (AttributesView { bytes: zeroed(v.bytes, a, size), used: a + size, ..v }, Some(a))
    }
}

/// A list head from the next multiple of 8, where it fits with its first
/// entry: its length is that of the length field, and it has no entries.
pub open spec fn header_step(v: AttributesView, n: int) -> (AttributesView, Option<int>) {
    let a = round_up(v.used, 8);
    if a + ATTRIBUTE_LIST_SIZE > n {
        (AttributesView { used: a, ..v }, None)
    } else {
        (
            AttributesView {
                used: a + LIST_LENGTH_SIZE,
                total_length: LIST_LENGTH_SIZE as int,
                entries: Seq::empty(),
                ..v
            },
            Some(a),
        )
    }
}

/// One more entry, where it fits; the list's length counts it.
pub open spec fn entry_step(v: AttributesView, e: PsAttribute, n: int) -> (AttributesView, bool) {
    if v.used + ATTRIBUTE_SIZE > n {
        (v, false)
    } else {
        (
            AttributesView {
                used: v.used + ATTRIBUTE_SIZE,
                attribute_count: (v.attribute_count + 1) as u32,
                total_length: v.total_length + ATTRIBUTE_SIZE,
                entries: v.entries.push(e),
                ..v
            },
            true,
        )
    }
}

/// The entries after the room: the image name, the client id and the image
/// information, each where it fits.
pub open spec fn entries_step(v: AttributesView, n: int, name: (int, int), cid: int, info: int) -> (AttributesView, bool) {
    let (v1, ok1) = entry_step(
        v,
        PsAttribute { attribute: PS_ATTRIBUTE_IMAGE_NAME, size: name.1 as usize, value: name.0 as usize },
        n,
    );
    if !ok1 {
        (v1, false)
    } else {
        let (v2, ok2) = entry_step(
            v1,
            PsAttribute { attribute: PS_ATTRIBUTE_CLIENT_ID, size: CLIENT_ID_SIZE, value: cid as usize },
            n,
        );
        if !ok2 {
            (v2, false)
        } else {
            entry_step(
                v2,
                PsAttribute { attribute: PS_ATTRIBUTE_IMAGE_INFO, size: IMAGE_INFO_SIZE, value: info as usize },
                n,
            )
        }
    }
}

/// A build: the NT path, the room for the client id and for the image
/// information, the list head and its three entries; the first step that
/// does not fit ends it with a buffer overflow.
pub open spec fn build_step(v: AttributesView, n: int) -> (AttributesView, Result<(), ProcessBuilderError>) {
    match v.image_path {
        None => (v, Err(ProcessBuilderError::ImagePathEmpty)),
        Some(path) => {
            let (v1, r1) = nt_path_step(v, path, n);
            match r1 {
                None => (v1, Err(ProcessBuilderError::BufferOverflow)),
                Some(name) => {
                    let v1b = AttributesView { nt_image_path: Some(name.0 as usize), ..v1 };
                    let (v2, r2) = room_step(v1b, CLIENT_ID_SIZE as int, n);
                    match r2 {
                        None => (v2, Err(ProcessBuilderError::BufferOverflow)),
                        Some(cid) => {
                            let v2b = AttributesView { client_id: Some(cid as usize), ..v2 };
                            let (v3, r3) = room_step(v2b, IMAGE_INFO_SIZE as int, n);
                            match r3 {
                                None => (v3, Err(ProcessBuilderError::BufferOverflow)),
                                Some(info) => {
                                    let v3b = AttributesView { image_info: Some(info as usize), ..v3 };
                                    let (v4, r4) = header_step(v3b, n);
                                    match r4 {
                                        None => (v4, Err(ProcessBuilderError::BufferOverflow)),
                                        Some(list) => {
                                            let v4b = AttributesView { attribute_list: Some(list as usize), ..v4 };
                                            let (v5, ok5) = entries_step(v4b, n, name, cid, info);
                                            if ok5 {
                                                (v5, Ok(()))
                                            } else {
                                                (v5, Err(ProcessBuilderError::BufferOverflow))
                                            }
                                        },
                                    }
                                },
                            }
                        },
                    }
                },
            }
        },
    }
}

/// After a build that fits, the list's first entry names the image: it
/// points at the offset that was in use and its size is that of the units
/// of the NT path, which the bytes there hold; the next two point at the
/// room for the client id and the image information, which is zero.
pub proof fn law_build_names_image(v: AttributesView, n: int)
    requires
        0 <= v.used <= n + 8,
        0 <= n <= v.bytes.len(),
        n + ATTR_SLACK <= usize::MAX,
    ensures
        build_step(v, n).1 is Ok ==> ({
            let vf = build_step(v, n).0;
            let us = utf16(nt_prefix()) + utf16(v.image_path->0);
            &&& vf.entries.len() == 3
            &&& vf.entries[0] == (PsAttribute {
                attribute: PS_ATTRIBUTE_IMAGE_NAME,
                size: (2 * us.len()) as usize,
                value: v.used as usize,
            })
            &&& holds_units(vf.bytes, v.used, us)
            &&& vf.entries[1].attribute == PS_ATTRIBUTE_CLIENT_ID
            &&& vf.entries[1].size == CLIENT_ID_SIZE
            &&& forall|k: int| vf.entries[1].value <= k < vf.entries[1].value + CLIENT_ID_SIZE ==> vf.bytes[k] == 0
            &&& vf.entries[2].attribute == PS_ATTRIBUTE_IMAGE_INFO
            &&& vf.entries[2].size == IMAGE_INFO_SIZE
            &&& forall|k: int| vf.entries[2].value <= k < vf.entries[2].value + IMAGE_INFO_SIZE ==> vf.bytes[k] == 0
        }),
{
    if let Some(path) = v.image_path {
        let us = utf16(nt_prefix()) + utf16(path);
        lemma_run_writes(v.bytes, v.used, n, us);
        let (v1, r1) = nt_path_step(v, path, n);
        if let Some(name) = r1 {
            let v1b = AttributesView { nt_image_path: Some(name.0 as usize), ..v1 };
            let (v2, r2) = room_step(v1b, CLIENT_ID_SIZE as int, n);
            crate::buddy::types::round_up_lower(v1b.used, 8);
            if let Some(cid) = r2 {
                let v2b = AttributesView { client_id: Some(cid as usize), ..v2 };
                let (v3, r3) = room_step(v2b, IMAGE_INFO_SIZE as int, n);
                crate::buddy::types::round_up_lower(v2b.used, 8);
                if let Some(info) = r3 {
                    assert(holds_units(v1.bytes, v.used, us)) by {
                        assert((v1.used - v.used) / 2 == us.len());
                    }
                    lemma_holds_kept(v1.bytes, v3.bytes, v.used, us);
                    assert(forall|k: int| cid <= k < cid + CLIENT_ID_SIZE ==> v3.bytes[k] == 0);
                }
            }
        }
    }
}

/// A multiple of 8 rounds up to itself.
proof fn lemma_round_up_fixed(x: int)
    requires
        x >= 0,
    ensures
        x % 8 == 0 ==> round_up(x, 8) == x,
{
    if x % 8 == 0 {
        assert(((x + 8 - 1) / 8) * 8 == x) by (nonlinear_arith)
            requires
                x % 8 == 0,
                x >= 0,
        ;
    }
}

/// A builder with nothing written and nothing set.
pub open spec fn empty_attributes_view(n: nat) -> AttributesView {
    AttributesView {
        bytes: Seq::new(n, |i: int| 0u8),
        used: 0,
        attribute_count: 0,
        total_length: 0,
        entries: Seq::empty(),
        nt_image_path: None,
        client_id: None,
        image_info: None,
        attribute_list: None,
        image_path: None,
        parent_pid: None,
    }
}

/// Builds the attribute list of a new process in a buffer of `N` bytes.
pub struct AttributesBuilder<'a, const N: usize> {
    parent_pid: Option<u32>,
    client_id: Option<usize>,
    image_info: Option<usize>,
    attribute_list: Option<usize>,
    nt_image_path: Option<usize>,
    image_path: Option<&'a str>,
    buffer: AlignedBuffer<N>,
    length: usize,
    attribute_count: u32,
    total_length: usize,
    entries: Vec<PsAttribute>,
}

impl<'a, const N: usize> View for AttributesBuilder<'a, N> {
    type V = AttributesView;

    closed spec fn view(&self) -> AttributesView {
        AttributesView {
            bytes: self.buffer.view(),
            used: self.length as int,
            attribute_count: self.attribute_count,
            total_length: self.total_length as int,
            entries: self.entries@,
            nt_image_path: self.nt_image_path,
            client_id: self.client_id,
            image_info: self.image_info,
            attribute_list: self.attribute_list,
            image_path: match self.image_path {
                Some(p) => Some(p@),
                None => None,
            },
            parent_pid: self.parent_pid,
        }
    }
}

impl<'a, const N: usize> AttributesBuilder<'a, N> {
    pub open spec fn wf(&self) -> bool {
        &&& self@.bytes.len() == N
        &&& N + ATTR_SLACK <= usize::MAX
        &&& N <= u32::MAX
        &&& 0 <= self@.used
        &&& (self@.used <= N || (self@.used % 8 == 0 && self@.used < N + 8))
        &&& self@.used % 2 == 0
        &&& self@.total_length <= self@.used + LIST_LENGTH_SIZE
        &&& self@.attribute_count * ATTRIBUTE_SIZE <= self@.used
    }

    /// An empty builder with nothing set.
    pub fn new() -> (r: Self)
        requires
            N + ATTR_SLACK <= usize::MAX,
            N <= u32::MAX,
        ensures
            r.wf(),
            r@ == empty_attributes_view(N as nat),
    {
        let r = AttributesBuilder {
            parent_pid: None,
            client_id: None,
            image_info: None,
            attribute_list: None,
            nt_image_path: None,
            image_path: None,
            buffer: AlignedBuffer::new(),
            length: 0,
            attribute_count: 0,
            total_length: 0,
            entries: Vec::new(),
        };
        assert(r@.entries =~= Seq::<PsAttribute>::empty());
        r
    }

    /// Where the list starts in the buffer, once it is written.
    pub fn as_mut_ptr(&self) -> (r: Option<usize>)
        ensures
            r == self@.attribute_list,
    {
        self.attribute_list
    }

    /// The list's entries and its length in bytes.
    pub fn as_attr_list(&self) -> (r: (Vec<PsAttribute>, usize))
        ensures
            r.0@ == self@.entries,
            r.1 == self@.total_length,
    {
        (self.entries.clone(), self.total_length)
    }

    pub fn set_image_path(&mut self, path: &'a str)
        ensures
            final(self)@ == (AttributesView { image_path: Some(path@), ..old(self)@ }),
    {
        self.image_path = Some(path);
    }

    pub fn set_parent_pid(&mut self, pid: u32)
        ensures
            final(self)@ == (AttributesView { parent_pid: Some(pid), ..old(self)@ }),
    {
        self.parent_pid = Some(pid);
    }

    /// The process whose handle the list should carry as parent, if one
    /// was set.
    pub fn parent_pid(&self) -> (r: Option<u32>)
        ensures
            r == self@.parent_pid,
    {
        self.parent_pid
    }

    /// Where the room for the client id starts, once it is taken.
    pub fn client_id(&self) -> (r: Option<usize>)
        ensures
            r == self@.client_id,
    {
        self.client_id
    }

    /// Where the room for the image information starts, once it is taken.
    pub fn image_info(&self) -> (r: Option<usize>)
        ensures
            r == self@.image_info,
    {
        self.image_info
    }

    /// The buffer, from its start.
    pub fn as_ptr(&self) -> (r: &[u8])
        ensures
            r@ == self@.bytes,
    {
        self.buffer.as_ptr()
    }

    /// The bytes in use.
    pub fn len(&self) -> (r: usize)
        ensures
            r == self@.used,
    {
        self.length
    }

    /// Writes the NT form of `path` from the end of what is in use: the
    /// prefix and the path, while two more bytes fit; the offset in use
    /// moves past them only when they all fit with room for a zero.
    fn encode_nt_path(&mut self, path: &str) -> (r: Result<(usize, usize), ProcessBuilderError>)
        requires
            old(self).wf(),
        ensures
            final(self).wf(),
            ({
                let (v, res) = nt_path_step(old(self)@, path@, N as int);
                &&& final(self)@ == v
                &&& match (r, res) {
                    (Ok((a, z)), Some((a2, z2))) => a == a2 && z == z2,
                    (Err(e), None) => e == ProcessBuilderError::BufferOverflow,
                    _ => false,
                }
            }),
    {
        let mut units = utf16_units("\\??\\");
        proof {
            reveal_strlit("\\??\\");
            assert("\\??\\"@ =~= nt_prefix());
        }
        let rest = utf16_units(path);
        let ghost prefix = units@;
        let mut k: usize = 0;
        while k < rest.len()
            invariant
                k <= rest@.len(),
                units@ == prefix + rest@.take(k as int),
            decreases rest@.len() - k,
        {
            units.push(rest[k]);
            proof {
                assert(rest@.take(k + 1) =~= rest@.take(k as int).push(rest@[k as int]));
            }
            k = k + 1;
        }
        proof {
            assert(rest@.take(k as int) =~= rest@);
        }
        let start = self.length;
        let mut pos = start;
        let mut i: usize = 0;
        proof {
            assert(units@.skip(0) =~= units@);
        }
        while i < units.len()
            invariant
                self.wf(),
                units@ == utf16(nt_prefix()) + utf16(path@),
                i <= units@.len(),
                start <= pos,
                pos % 2 == 0,
                self@ == (AttributesView { bytes: self@.bytes, ..old(self)@ }),
                start == old(self)@.used,
                run(old(self)@.bytes, start as int, N as int, units@) == run(
                    self@.bytes,
                    pos as int,
                    N as int,
                    units@.skip(i as int),
                ),
                pos <= if start <= N { N } else { start },
            decreases units@.len() - i,
        {
            if pos > N || N - pos < 2 {
                return Err(ProcessBuilderError::BufferOverflow);
            }
            proof {
                assert(units@.skip(i as int).drop_first() =~= units@.skip(i + 1));
            }
            let c = units[i];
            self.buffer.set(pos, (c % 256) as u8);
            self.buffer.set(pos + 1, (c / 256) as u8);
            pos = pos + 2;
            i = i + 1;
        }
        proof {
            assert(units@.skip(i as int) =~= Seq::<u16>::empty());
        }
        if pos > N || N - pos < 2 {
            return Err(ProcessBuilderError::BufferOverflow);
        }
        self.length = pos;
        Ok((start, pos - start))
    }

    /// Takes `size` zeroed bytes from the next multiple of 8, where they fit.
    fn alloc_zeroed(&mut self, size: usize) -> (r: Result<usize, ProcessBuilderError>)
        requires
            old(self).wf(),
            size <= 0x100,
            size % 2 == 0,
        ensures
            final(self).wf(),
            ({
                let (v, res) = room_step(old(self)@, size as int, N as int);
                &&& final(self)@ == v
                &&& match (r, res) {
                    (Ok(a), Some(a2)) => a == a2,
                    (Err(e), None) => e == ProcessBuilderError::BufferOverflow,
                    _ => false,
                }
            }),
    {
        let offset = round_up_exec(self.length, 8);
        proof {
            lemma_round_up_fixed(self@.used);
        }
        self.length = offset;
        if offset > N || N - offset < size {
            return Err(ProcessBuilderError::BufferOverflow);
        }
        let mut i = offset;
        while i < offset + size
            invariant
                offset <= i <= offset + size,
                offset + size <= N,
                self.wf(),
                self@ == (AttributesView { bytes: self@.bytes, used: offset as int, ..old(self)@ }),
                forall|j: int| 0 <= j < N ==> self@.bytes[j] == if offset <= j < i {
                    0u8
                } else {
                    old(self)@.bytes[j]
                },
            decreases offset + size - i,
        {
            self.buffer.set(i, 0);
            i = i + 1;
        }
        assert(self@.bytes =~= zeroed(old(self)@.bytes, offset as int, size as int));
        self.length = offset + size;
        Ok(offset)
    }

    /// Writes the list head from the next multiple of 8, where it fits with
    /// its first entry.
    fn write_attribute_list_header(&mut self) -> (r: Result<usize, ProcessBuilderError>)
        requires
            old(self).wf(),
        ensures
            final(self).wf(),
            ({
                let (v, res) = header_step(old(self)@, N as int);
                &&& final(self)@ == v
                &&& match (r, res) {
                    (Ok(a), Some(a2)) => a == a2,
                    (Err(e), None) => e == ProcessBuilderError::BufferOverflow,
                    _ => false,
                }
            }),
    {
        proof {
            lemma_round_up_fixed(self@.used);
        }
        self.length = round_up_exec(self.length, 8);
        if self.length > N || N - self.length < ATTRIBUTE_LIST_SIZE {
            return Err(ProcessBuilderError::BufferOverflow);
        }
        let at = self.length;
        self.total_length = LIST_LENGTH_SIZE;
        self.entries = Vec::new();
        self.length = self.length + LIST_LENGTH_SIZE;
        assert(self@.entries =~= Seq::<PsAttribute>::empty());
        Ok(at)
    }

    /// Adds an entry to the list, where it fits.
    fn add_attribute(&mut self, attribute: usize, value: usize, size: usize) -> (r: Result<(), ProcessBuilderError>)
        requires
            old(self).wf(),
        ensures
            final(self).wf(),
            ({
                let (v, ok) = entry_step(
                    old(self)@,
                    PsAttribute { attribute, size, value },
                    N as int,
                );
                &&& final(self)@ == v
                &&& (r is Ok <==> ok)
                &&& (r is Err ==> r == Err::<(), ProcessBuilderError>(ProcessBuilderError::BufferOverflow))
            }),
    {
        if self.length > N || N - self.length < ATTRIBUTE_SIZE {
            return Err(ProcessBuilderError::BufferOverflow);
        }
        self.entries.push(PsAttribute { attribute, size, value });
        self.length = self.length + ATTRIBUTE_SIZE;
        self.attribute_count = self.attribute_count + 1;
        self.total_length = self.total_length + ATTRIBUTE_SIZE;
        Ok(())
    }

    /// Adds an entry that points at `size` bytes from offset `ptr`.
    fn add_attribute_ptr(&mut self, attribute: usize, ptr: usize, size: usize) -> (r: Result<(), ProcessBuilderError>)
        requires
            old(self).wf(),
        ensures
            final(self).wf(),
            ({
                let (v, ok) = entry_step(old(self)@, PsAttribute { attribute, size, value: ptr }, N as int);
                &&& final(self)@ == v
                &&& (r is Ok <==> ok)
                &&& (r is Err ==> r == Err::<(), ProcessBuilderError>(ProcessBuilderError::BufferOverflow))
            }),
    {
        self.add_attribute(attribute, ptr, size)
    }

    /// Adds an entry that carries `value` itself.
    fn add_attribute_value(&mut self, attribute: usize, value: usize, size: usize) -> (r: Result<(), ProcessBuilderError>)
        requires
            old(self).wf(),
        ensures
            final(self).wf(),
            ({
                let (v, ok) = entry_step(old(self)@, PsAttribute { attribute, size, value }, N as int);
                &&& final(self)@ == v
                &&& (r is Ok <==> ok)
                &&& (r is Err ==> r == Err::<(), ProcessBuilderError>(ProcessBuilderError::BufferOverflow))
            }),
    {
        self.add_attribute(attribute, value, size)
    }

    /// Lays out the list: the NT form of the image path, zeroed room for
    /// the client id and the image information, the list head and entries
    /// for the three. Fails without an image path, or at the first step
    /// that does not fit, with what was written so far kept. The parent
    /// process is added afterwards, once it is opened.
    pub fn build(&mut self) -> (r: Result<(), ProcessBuilderError>)
        requires
            old(self).wf(),
        ensures
            final(self).wf(),
            (final(self)@, r) == build_step(old(self)@, N as int),
    {
        let image_path = match self.image_path {
            Some(p) => p,
            None => return Err(ProcessBuilderError::ImagePathEmpty),
        };
        let (name_at, name_size) = match self.encode_nt_path(image_path) {
            Ok(x) => x,
            Err(e) => return Err(e),
        };
        self.nt_image_path = Some(name_at);
        let cid = match self.alloc_zeroed(CLIENT_ID_SIZE) {
            Ok(a) => a,
            Err(e) => return Err(e),
        };
        self.client_id = Some(cid);
        let info = match self.alloc_zeroed(IMAGE_INFO_SIZE) {
            Ok(a) => a,
            Err(e) => return Err(e),
        };
        self.image_info = Some(info);
        let list = match self.write_attribute_list_header() {
            Ok(a) => a,
            Err(e) => return Err(e),
        };
        self.attribute_list = Some(list);
        match self.add_attribute_ptr(PS_ATTRIBUTE_IMAGE_NAME, name_at, name_size) {
            Ok(()) => {},
            Err(e) => return Err(e),
        }
        match self.add_attribute_ptr(PS_ATTRIBUTE_CLIENT_ID, cid, CLIENT_ID_SIZE) {
            Ok(()) => {},
            Err(e) => return Err(e),
        }
        match self.add_attribute_ptr(PS_ATTRIBUTE_IMAGE_INFO, info, IMAGE_INFO_SIZE) {
            Ok(()) => {},
            Err(e) => return Err(e),
        }
        Ok(())
    }

    /// Adds the parent process that opening it gave: the status it failed
    /// with, or an entry that carries its handle, where it fits.
    pub fn add_parent_process(&mut self, status: i32, handle: usize) -> (r: Result<(), ProcessBuilderError>)
        requires
            old(self).wf(),
        ensures
            final(self).wf(),
            status < 0 ==> r == Err::<(), ProcessBuilderError>(ProcessBuilderError::NtOpenProcessFailed(status))
                && final(self)@ == old(self)@,
            status >= 0 ==> ({
                let (v, ok) = entry_step(
                    old(self)@,
                    PsAttribute { attribute: PS_ATTRIBUTE_PARENT_PROCESS, size: HANDLE_SIZE, value: handle },
                    N as int,
                );
                &&& final(self)@ == v
                &&& (r is Ok <==> ok)
                &&& (r is Err ==> r == Err::<(), ProcessBuilderError>(ProcessBuilderError::BufferOverflow))
            }),
    {
        if status < 0 {
            return Err(ProcessBuilderError::NtOpenProcessFailed(status));
        }
        self.add_attribute_value(PS_ATTRIBUTE_PARENT_PROCESS, handle, HANDLE_SIZE)
    }
}

} // verus!
