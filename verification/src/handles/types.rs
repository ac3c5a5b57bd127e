//! The image name of a process, as a query hands it out in UTF-16.
use vstd::prelude::*;
use vstd::utf8::valid_utf8;
use vstd::string::StringSliceAdditionalSpecFns;
use crate::text::{decode_utf16, is_fitting_prefix, str_from_utf8, utf8_within};

verus! {

/// The bytes a name holds at most.
pub const FILE_NAME_CAPACITY: usize = 512;

/// Up to 512 bytes of UTF-8: the characters of a name, as many whole ones
/// from the start as fit.
pub struct FileName {
    buffer: [u8; 512],
    len: usize,
}

impl FileName {
    /// The bytes held.
    pub closed spec fn bytes(&self) -> Seq<u8> {
        self.buffer@.take(self.len as int)
    }

    /// All 512 bytes of storage: the name, then zeros.
    pub closed spec fn storage(&self) -> Seq<u8> {
        self.buffer@
    }

    pub closed spec fn wf(&self) -> bool {
        &&& self.len <= FILE_NAME_CAPACITY
        &&& valid_utf8(self.bytes())
        &&& self.buffer@ == self.bytes() + Seq::new((512 - self.len) as nat, |i: int| 0u8)
    }

    /// The name that UTF-16 `units` decode to, units that do not decode
    /// left out: the longest run of whole characters from the start whose
    /// UTF-8 fits in 512 bytes.
    pub fn from_units(units: &[u16]) -> (r: Self)
        ensures
            r.wf(),
            is_fitting_prefix(r.bytes(), decode_utf16(units@), FILE_NAME_CAPACITY as int),
    {
        let bytes = utf8_within(units, FILE_NAME_CAPACITY);
        let mut buffer = [0u8; 512];
        let mut i: usize = 0;
        while i < bytes.len()
            invariant
                bytes@.len() <= FILE_NAME_CAPACITY,
                i <= bytes@.len(),
                forall|k: int| 0 <= k < i ==> buffer@[k] == bytes@[k],
                forall|k: int| i <= k < 512 ==> buffer@[k] == 0,
            decreases bytes@.len() - i,
        {
            buffer[i] = bytes[i];
            i = i + 1;
        }
        let r = FileName { buffer, len: bytes.len() };
        assert(r.bytes() =~= bytes@);
        assert(buffer@ =~= r.bytes() + Seq::new((512 - bytes.len()) as nat, |i: int| 0u8));
        r
    }

    /// The name as text.
    pub fn as_str(&self) -> (r: &str)
        requires
            self.wf(),
        ensures
            r.spec_bytes() == self.bytes(),
    {
        let (text, _) = self.buffer.as_slice().split_at(self.len);
        assert(text@ == self.bytes());
        match str_from_utf8(text) {
            Ok(s) => s,
            Err(_) => {
                proof {
                    assert(false);
                }
                ""
            },
        }
    }
}

} // verus!
