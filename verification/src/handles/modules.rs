//! The kernel modules the system lists: a walk over the list, and the path
//! and file name each entry holds.
use vstd::prelude::*;
use vstd::utf8::{valid_utf8, is_char_boundary};
use vstd::string::StringSliceAdditionalSpecFns;
use crate::text::str_from_utf8;

verus! {

/// The length of the text in `b`: up to its first zero byte, or all of it.
pub open spec fn text_len(b: Seq<u8>) -> int {
    if exists|i: int| 0 <= i < b.len() && b[i] == 0 {
        choose|i: int| 0 <= i < b.len() && b[i] == 0 && forall|k: int| 0 <= k < i ==> b[k] != 0
    } else {
        b.len() as int
    }
}

/// The position of a walk over `count` module entries.
pub struct SystemModuleIterator {
    index: usize,
    count: usize,
}

impl SystemModuleIterator {
    pub closed spec fn position(&self) -> int {
        self.index as int
    }

    pub closed spec fn spec_count(&self) -> int {
        self.count as int
    }

    /// What a module query's answer means: its status when it failed, else
    /// a walk from the first of the `module_count` entries it reported.
    pub fn new(status: i32, module_count: u32) -> (r: Result<Self, i32>)
        ensures
            status != 0 ==> r == Err::<Self, i32>(status),
            status == 0 ==> (r matches Ok(it) && it.position() == 0 && it.spec_count() == module_count),
    {
        if status != 0 {
            return Err(status);
        }
        Ok(SystemModuleIterator { index: 0, count: module_count as usize })
    }

    /// The number of entries the list reported.
    pub fn total_count(&self) -> (r: usize)
        ensures
            r == self.spec_count(),
    {
        self.count
    }

    /// The index of the next entry to read, and a step past it; `None`
    /// once every entry was read.
    pub fn next_index(&mut self) -> (r: Option<usize>)
        ensures
            final(self).spec_count() == old(self).spec_count(),
            old(self).position() >= old(self).spec_count() ==> r is None && final(self).position()
                == old(self).position(),
            old(self).position() < old(self).spec_count() ==> r == Some(old(self).position() as usize)
                && final(self).position() == old(self).position() + 1,
    {
        if self.index >= self.count {
            return None;
        }
        let i = self.index;
        self.index = self.index + 1;
        Some(i)
    }
}

/// One entry of the module list: where the image is loaded, its size, its
/// path in a 256-byte field and where the file name starts in it.
#[derive(Clone, Copy)]
pub struct SystemModuleInfo {
    pub image_base: usize,
    pub image_size: u32,
    pub full_path_name: [u8; 256],
    pub offset_to_file_name: u16,
}

impl SystemModuleInfo {
    pub fn new(image_base: usize, image_size: u32, full_path_name: [u8; 256], offset_to_file_name: u16) -> (r: Self)
        ensures
            r.image_base == image_base,
            r.image_size == image_size,
            r.full_path_name@ == full_path_name@,
            r.offset_to_file_name == offset_to_file_name,
    {
        SystemModuleInfo { image_base, image_size, full_path_name, offset_to_file_name }
    }

    pub fn image_base(&self) -> (r: usize)
        ensures
            r == self.image_base,
    {
        self.image_base
    }

    pub fn image_size(&self) -> (r: u32)
        ensures
            r == self.image_size,
    {
        self.image_size
    }

    /// The path field and the file name's offset, as a path.
    pub fn file_path(&self) -> (r: ModuleFilePath)
        ensures
            r.spec_buffer() == self.full_path_name@,
            r.spec_offset() == self.offset_to_file_name,
    {
        ModuleFilePath { buffer: self.full_path_name, offset_to_filename: self.offset_to_file_name as usize }
    }
}

/// A module's path field and where its file name starts.
pub struct ModuleFilePath {
    buffer: [u8; 256],
    offset_to_filename: usize,
}

impl ModuleFilePath {
    pub closed spec fn spec_buffer(&self) -> Seq<u8> {
        self.buffer@
    }

    pub closed spec fn spec_offset(&self) -> int {
        self.offset_to_filename as int
    }

    /// The bytes of the path: the field up to its first zero byte.
    pub open spec fn path_bytes(&self) -> Seq<u8> {
        self.spec_buffer().take(text_len(self.spec_buffer()))
    }

    /// Where the file name starts: the offset, or the path's end when the
    /// offset is past it.
    pub open spec fn name_start(&self) -> int {
        if self.spec_offset() < self.path_bytes().len() {
            self.spec_offset()
        } else {
            self.path_bytes().len() as int
        }
    }

    /// The length of the text in the field.
    fn text_end(&self) -> (r: usize)
        ensures
            r == text_len(self.buffer@),
            r <= 256,
    {
        let mut i: usize = 0;
        while i < 256 && self.buffer[i] != 0
            invariant
                i <= 256,
                forall|k: int| 0 <= k < i ==> self.buffer@[k] != 0,
            decreases 256 - i,
        {
            i = i + 1;
        }
        proof {
            let b = self.buffer@;
            if i < 256 {
                assert(b[i as int] == 0);
                let c = choose|j: int| 0 <= j < b.len() && b[j] == 0 && forall|k: int| 0 <= k < j ==> b[k] != 0;
                if c < i {
                } else if c > i {
                    assert(b[i as int] != 0);
                }
            } else {
                assert(!(exists|j: int| 0 <= j < b.len() && b[j] == 0));
            }
        }
        i
    }

    /// The path as text.
    pub fn full_path(&self) -> (r: &str)
        requires
            valid_utf8(self.path_bytes()),
        ensures
            r.spec_bytes() == self.path_bytes(),
    {
        let len = self.text_end();
        let (text, _) = self.buffer.as_slice().split_at(len);
        assert(text@ == self.path_bytes());
        match str_from_utf8(text) {
            Ok(s) => s,
            Err(_) => {
                proof {
                    assert(false);
                }
                ""
            },
        }
    }

    /// The file name: the path from the file name's offset on, or nothing
    /// when the offset is past the path's end.
    pub fn file_name(&self) -> (r: &str)
        requires
            valid_utf8(self.path_bytes()),
            is_char_boundary(self.path_bytes(), self.name_start()),
        ensures
            r.spec_bytes() == self.path_bytes().skip(self.name_start()),
    {
        let full = self.full_path();
        let n = full.as_bytes().len();
        let start = if self.offset_to_filename < n {
            self.offset_to_filename
        } else {
            n
        };
        let (_, name) = full.split_at(start);
        assert(name.spec_bytes() =~= self.path_bytes().skip(self.name_start()));
        name
    }
}

} // verus!
