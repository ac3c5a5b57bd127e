//! Object types as the system lists them: a walk over the list that a type
//! query fills in, and the names it holds.
use vstd::prelude::*;
use vstd::utf8::{encode_utf8, valid_utf8};
use vstd::string::StringSliceAdditionalSpecFns;
use crate::arith::{round_up, round_up_exec};
use crate::handles::error::NtApiError;
use crate::handles::handle::STATUS_INFO_LENGTH_MISMATCH;
use crate::text::{decode_utf16, decode_step, char_utf8, str_from_utf8, lemma_encode_utf8_push};

verus! {

/// The bytes of one type record, before its name.
pub const OBJECT_TYPE_INFO_SIZE: usize = 104;

/// The alignment of a type record.
pub const OBJECT_TYPE_INFO_ALIGN: usize = 8;

/// The bytes of a name kept: at most 63.
pub const NAME_CAPACITY: usize = 63;

/// The bytes a record takes with its name buffer of `maximum_length` bytes,
/// rounded up to the record alignment.
pub open spec fn entry_span(maximum_length: u16) -> int {
    round_up(OBJECT_TYPE_INFO_SIZE + maximum_length, OBJECT_TYPE_INFO_ALIGN as int)
}

pub fn entry_span_exec(maximum_length: u16) -> (r: usize)
    ensures
        r == entry_span(maximum_length),
{
    round_up_exec(OBJECT_TYPE_INFO_SIZE + maximum_length as usize, OBJECT_TYPE_INFO_ALIGN)
}

/// The offset past the first `n` records, from `start` on.
pub open spec fn records_end(start: int, max_lengths: Seq<u16>, n: int) -> int
    decreases n,
{
    if n <= 0 {
        start
    } else {
        records_end(start, max_lengths, n - 1) + entry_span(max_lengths[n - 1])
    }
}

/// An object type: its number and up to 63 bytes of its name.
pub struct ObjectType {
    pub id: usize,
    str_data: [u8; 64],
    str_len: usize,
}

impl ObjectType {
    /// The name bytes held.
    pub closed spec fn name_bytes(&self) -> Seq<u8> {
        self.str_data@.take(self.str_len as int)
    }

    pub closed spec fn wf(&self) -> bool {
        self.str_len <= NAME_CAPACITY
    }

    pub closed spec fn spec_id(&self) -> usize {
        self.id
    }

    /// The type numbered `id` whose name has the UTF-16 units `units`: the
    /// first 63 bytes of the UTF-8 of what decodes, byte by byte.
    pub fn from_units(id: usize, units: &[u16]) -> (r: Self)
        ensures
            r.wf(),
            r.spec_id() == id,
            r.name_bytes() == ({
                let all = encode_utf8(decode_utf16(units@));
                all.take(if all.len() < NAME_CAPACITY { all.len() as int } else { NAME_CAPACITY as int })
            }),
    {
        let mut str_data = [0u8; 64];
        let mut str_len: usize = 0;
        let ghost mut taken: Seq<char> = Seq::empty();
        let mut i: usize = 0;
        proof {
            assert(units@.skip(0) =~= units@);
            assert(taken + decode_utf16(units@) =~= decode_utf16(units@));
        }
        while i < units.len()
            invariant
                i <= units@.len(),
                taken + decode_utf16(units@.skip(i as int)) == decode_utf16(units@),
                str_len <= NAME_CAPACITY,
                str_len == (if encode_utf8(taken).len() < NAME_CAPACITY {
                    encode_utf8(taken).len() as int
                } else {
                    NAME_CAPACITY as int
                }),
                forall|k: int| 0 <= k < str_len ==> str_data@[k] == encode_utf8(taken)[k],
            decreases units@.len() - i,
        {
            let (c, n) = decode_step(units, i);
            match c {
                Some(ch) => {
                    let bytes = char_utf8(ch);
                    let ghost before = encode_utf8(taken);
                    proof {
                        lemma_encode_utf8_push(taken, ch);
                    }
                    let mut j: usize = 0;
                    while j < bytes.len()
                        invariant
                            j <= bytes@.len(),
                            bytes@ == vstd::utf8::encode_scalar(ch as u32),
                            encode_utf8(taken.push(ch)) == before + bytes@,
                            str_len <= NAME_CAPACITY,
                            str_len == (if before.len() + j < NAME_CAPACITY {
                                before.len() + j
                            } else {
                                NAME_CAPACITY as int
                            }),
                            forall|k: int| 0 <= k < str_len ==> str_data@[k] == (before + bytes@)[k],
                        decreases bytes@.len() - j,
                    {
                        if str_len < NAME_CAPACITY {
                            str_data[str_len] = bytes[j];
                            str_len = str_len + 1;
                        }
                        j = j + 1;
                    }
                    proof {
                        assert(taken.push(ch) + decode_utf16(units@.skip(i + n)) =~= taken + (seq![
                            ch,
                        ] + decode_utf16(units@.skip(i + n))));
                        taken = taken.push(ch);
                    }
                },
                None => {},
            }
            i = i + n;
        }
        proof {
            assert(units@.skip(i as int) =~= Seq::<u16>::empty());
            assert(taken =~= decode_utf16(units@));
        }
        let r = ObjectType { id, str_data, str_len };
        assert(r.name_bytes() =~= ({
            let all = encode_utf8(decode_utf16(units@));
            all.take(if all.len() < NAME_CAPACITY { all.len() as int } else { NAME_CAPACITY as int })
        }));
        r
    }

    /// The name as text, when the bytes kept are valid UTF-8.
    pub fn name(&self) -> (r: &str)
        requires
            self.wf(),
            valid_utf8(self.name_bytes()),
        ensures
            r.spec_bytes() == self.name_bytes(),
    {
        let (text, _) = self.str_data.as_slice().split_at(self.str_len);
        assert(text@ == self.name_bytes());
        match str_from_utf8(text) {
            Ok(s) => s,
            Err(_) => {
                proof {
                    assert(false);
                }
                ""
            },
        }
    }
}

/// A walk over the type records of a query's buffer.
pub struct ObjectTypeIterator {
    current_index: usize,
    total_types: usize,
    current_offset: usize,
}

impl ObjectTypeIterator {
    pub closed spec fn index(&self) -> int {
        self.current_index as int
    }

    pub closed spec fn total(&self) -> int {
        self.total_types as int
    }

    pub closed spec fn offset(&self) -> int {
        self.current_offset as int
    }

    /// What a type query's answer means: a status saying the buffer of
    /// `buffer_size` bytes was too small, with the length it asked for;
    /// another failing status; or, for a query that succeeded, a check that
    /// the records, with name buffers of `max_lengths` bytes and the first
    /// at `first_offset`, end inside the buffer: the walk from the first
    /// record, or the offset past the first record that runs over.
    pub fn new(status: i32, return_length: u32, first_offset: usize, max_lengths: &[u16], buffer_size: usize) -> (r: Result<Self, NtApiError>)
        requires
            first_offset <= buffer_size,
            buffer_size <= usize::MAX - 0x1_0000 - OBJECT_TYPE_INFO_SIZE,
        ensures
            status == STATUS_INFO_LENGTH_MISMATCH ==> r == Err::<Self, NtApiError>(
                NtApiError::BufferTooSmall { needed: return_length as usize, available: buffer_size },
            ),
            status != STATUS_INFO_LENGTH_MISMATCH && status != 0 ==> r == Err::<Self, NtApiError>(
                NtApiError::QueryFailed(status),
            ),
            status == 0 ==> match r {
                Ok(it) => {
                    &&& it.index() == 0
                    &&& it.total() == max_lengths@.len()
                    &&& it.offset() == first_offset
                    &&& forall|n: int| 0 <= n <= max_lengths@.len() ==> records_end(first_offset as int, max_lengths@, n) <= buffer_size
                },
                Err(e) => exists|n: int| 1 <= n <= max_lengths@.len() && ({
                    &&& forall|m: int| 0 <= m < n ==> records_end(first_offset as int, max_lengths@, m) <= buffer_size
                    &&& records_end(first_offset as int, max_lengths@, n) > buffer_size
                    &&& e == (NtApiError::BufferTooSmall {
                        needed: records_end(first_offset as int, max_lengths@, n) as usize,
                        available: buffer_size,
                    })
                }),
            },
    {
        if status == STATUS_INFO_LENGTH_MISMATCH {
            return Err(NtApiError::BufferTooSmall { needed: return_length as usize, available: buffer_size });
        }
        if status != 0 {
            return Err(NtApiError::QueryFailed(status));
        }
        let total_types = max_lengths.len();
        let mut offset = first_offset;
        let mut i: usize = 0;
        while i < total_types
            invariant
                status == 0,
                total_types == max_lengths@.len(),
                i <= total_types,
                buffer_size <= usize::MAX - 0x1_0000 - OBJECT_TYPE_INFO_SIZE,
                offset == records_end(first_offset as int, max_lengths@, i as int),
                offset <= buffer_size,
                forall|m: int| 0 <= m <= i ==> records_end(first_offset as int, max_lengths@, m) <= buffer_size,
            decreases total_types - i,
        {
            let span = entry_span_exec(max_lengths[i]);
            proof {
                crate::arith::lemma_round_up_upper(OBJECT_TYPE_INFO_SIZE + max_lengths[i as int], 8);
            }
            offset = offset + span;
            i = i + 1;
            assert(offset == records_end(first_offset as int, max_lengths@, i as int));
            if offset > buffer_size {
                proof {
                    let n = i as int;
                    assert(forall|m: int| 0 <= m < n ==> records_end(first_offset as int, max_lengths@, m) <= buffer_size);
                    assert(records_end(first_offset as int, max_lengths@, n) > buffer_size);
                }
                return Err(NtApiError::BufferTooSmall { needed: offset, available: buffer_size });
            }
        }
        Ok(ObjectTypeIterator { current_index: 0, total_types, current_offset: first_offset })
    }

    /// The next type, whose record holds a name of `units` in a buffer of
    /// `maximum_length` bytes; the walk moves past the record. The type is
    /// numbered one above the count of types read so far, this one included.
    pub fn next_type(&mut self, units: &[u16], maximum_length: u16) -> (r: Option<ObjectType>)
        requires
            old(self).offset() + OBJECT_TYPE_INFO_SIZE + 0x1_0000 <= usize::MAX,
            old(self).total() < usize::MAX - 1,
        ensures
            final(self).total() == old(self).total(),
            old(self).index() >= old(self).total() ==> r is None && *final(self) == *old(self),
            old(self).index() < old(self).total() ==> {
                &&& final(self).index() == old(self).index() + 1
                &&& final(self).offset() == old(self).offset() + entry_span(maximum_length)
                &&& r matches Some(t) && t.spec_id() == old(self).index() + 2 && t.name_bytes() == ({
                    let all = encode_utf8(decode_utf16(units@));
                    all.take(if all.len() < NAME_CAPACITY { all.len() as int } else { NAME_CAPACITY as int })
                })
            },
    {
        if self.current_index >= self.total_types {
            return None;
        }
        let span = entry_span_exec(maximum_length);
        proof {
            crate::arith::lemma_round_up_upper(OBJECT_TYPE_INFO_SIZE + maximum_length, 8);
        }
        self.current_offset = self.current_offset + span;
        self.current_index = self.current_index + 1;
        Some(ObjectType::from_units(self.current_index + 1, units))
    }
}

} // verus!
