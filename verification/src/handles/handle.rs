//! A walk over the entries of the system handle table.
use vstd::prelude::*;
use crate::handles::error::NtApiError;

verus! {

/// The bytes the handle query may fill in.
pub const BUFFER_SIZE: usize = 7_500_000;

/// The bytes of the table's head, before its first entry.
pub const HANDLES_OFFSET: usize = 16;

/// The bytes of one table entry.
pub const ENTRY_SIZE: usize = 40;

/// The status of a query whose buffer was too small.
pub const STATUS_INFO_LENGTH_MISMATCH: i32 = -1073741820;

/// One entry of the system handle table.
#[derive(Debug, Clone, Copy, PartialEq, Eq, Structural)]
pub struct HandleInfo {
    pub object: usize,
    pub unique_process_id: usize,
    pub handle_value: usize,
    pub granted_access: u32,
    pub creator_back_trace_index: u16,
    pub object_type_index: u16,
    pub handle_attributes: u32,
}

impl HandleInfo {
    /// The id of the process that holds the handle, cut to 32 bits.
    pub fn process_id(&self) -> (r: u32)
        ensures
            r == self.unique_process_id as u32,
    {
        self.unique_process_id as u32
    }

    /// The address of the object the handle refers to.
    pub fn object(&self) -> (r: usize)
        ensures
            r == self.object,
    {
        self.object
    }

    pub fn handle_value(&self) -> (r: u64)
        ensures
            r == self.handle_value,
    {
        self.handle_value as u64
    }

    pub fn object_type_index(&self) -> (r: u16)
        ensures
            r == self.object_type_index,
    {
        self.object_type_index
    }

    pub fn handle_attributes(&self) -> (r: u32)
        ensures
            r == self.handle_attributes,
    {
        self.handle_attributes
    }

    pub fn granted_access(&self) -> (r: u32)
        ensures
            r == self.granted_access,
    {
        self.granted_access
    }

    /// An entry is in use when its handle value is not zero.
    pub fn is_valid(&self) -> (r: bool)
        ensures
            r == (self.handle_value != 0),
    {
        self.handle_value != 0
    }
}

/// One step of a walk over `count` entries that stands at `pos`: the index
/// it hands out, if any, and where it stands after.
pub open spec fn walk_step(pos: int, count: int) -> (Option<usize>, int) {
    if pos < count {
        (Some(pos as usize), pos + 1)
    } else {
        (None, pos)
    }
}

/// What `k` steps of a walk over `count` entries from `pos` hand out.
pub open spec fn walk_items(pos: int, count: int, k: nat) -> Seq<Option<usize>>
    decreases k,
{
    if k == 0 {
        Seq::empty()
    } else {
        let (o, p1) = walk_step(pos, count);
        seq![o] + walk_items(p1, count, (k - 1) as nat)
    }
}

proof fn lemma_walk_items(pos: int, count: int, k: nat)
    ensures
        walk_items(pos, count, k).len() == k,
        forall|i: int|
            0 <= i < k ==> #[trigger] walk_items(pos, count, k)[i] == if pos + i < count {
                Some((pos + i) as usize)
            } else {
                None
            },
    decreases k,
{
    if k > 0 {
        let (o, p1) = walk_step(pos, count);
        lemma_walk_items(p1, count, (k - 1) as nat);
        let rest = walk_items(p1, count, (k - 1) as nat);
        assert forall|i: int| 0 <= i < k implies #[trigger] walk_items(pos, count, k)[i] == if pos + i
            < count {
            Some((pos + i) as usize)
        } else {
            None
        } by {
            if i > 0 {
                assert(walk_items(pos, count, k)[i] == rest[i - 1]);
                if pos >= count {
                    assert(p1 == pos);
                }
            }
        }
    }
}

/// The position of a walk over `count` handle table entries.
pub struct SystemHandleIterator {
    index: usize,
    count: usize,
}

impl SystemHandleIterator {
    pub closed spec fn position(&self) -> int {
        self.index as int
    }

    pub closed spec fn spec_count(&self) -> int {
        self.count as int
    }

    /// A walk from the first of `count` entries.
    pub fn from_count(count: usize) -> (r: Self)
        ensures
            r.position() == 0,
            r.spec_count() == count,
    {
        SystemHandleIterator { index: 0, count }
    }

    /// What a handle query's answer means: a status saying the buffer was
    /// too small, with the length it asked for; another failing status; a
    /// table of `handle_count` entries that does not fit in the buffer; or a
    /// walk from its first entry.
    pub fn new(status: i32, return_length: u32, handle_count: usize) -> (r: Result<Self, NtApiError>)
        requires
            status == 0 ==> HANDLES_OFFSET + handle_count * ENTRY_SIZE <= usize::MAX,
        ensures
            status == STATUS_INFO_LENGTH_MISMATCH ==> r == Err::<Self, NtApiError>(
                NtApiError::BufferTooSmall { needed: return_length as usize, available: BUFFER_SIZE },
            ),
            status != STATUS_INFO_LENGTH_MISMATCH && status != 0 ==> r == Err::<Self, NtApiError>(
                NtApiError::QueryFailed(status),
            ),
            status == 0 && HANDLES_OFFSET + handle_count * ENTRY_SIZE > BUFFER_SIZE ==> r == Err::<
                Self,
                NtApiError,
            >(
                NtApiError::BufferTooSmall {
                    needed: (HANDLES_OFFSET + handle_count * ENTRY_SIZE) as usize,
                    available: BUFFER_SIZE,
                },
            ),
            status == 0 && HANDLES_OFFSET + handle_count * ENTRY_SIZE <= BUFFER_SIZE ==> (r matches Ok(
                it,
            ) && it.position() == 0 && it.spec_count() == handle_count),
    {
        if status == STATUS_INFO_LENGTH_MISMATCH {
            return Err(NtApiError::BufferTooSmall { needed: return_length as usize, available: BUFFER_SIZE });
        }
        if status != 0 {
            return Err(NtApiError::QueryFailed(status));
        }
        let total_required_size = HANDLES_OFFSET + handle_count * ENTRY_SIZE;
        if total_required_size > BUFFER_SIZE {
            return Err(NtApiError::BufferTooSmall { needed: total_required_size, available: BUFFER_SIZE });
        }
        Ok(SystemHandleIterator { index: 0, count: handle_count })
    }

    /// A walk as `new` or `from_count` makes it, over `n` entries, asked
    /// `n + extra` times, hands out exactly the indices `0` to `n - 1`, in
    /// order, and nothing after them; `total_count` gives `n` throughout, as
    /// `next_index` keeps the count.
    pub proof fn law_walk_yields_count(&self, extra: nat)
        requires
            self.position() == 0,
        ensures
            ({
                let n = self.spec_count();
                let items = walk_items(self.position(), n, (n + extra) as nat);
                &&& items.len() == n + extra
                &&& forall|i: int| 0 <= i < n ==> #[trigger] items[i] == Some(i as usize)
                &&& forall|i: int| n <= i < n + extra ==> #[trigger] items[i] is None
            }),
    {
        lemma_walk_items(0, self.spec_count(), (self.spec_count() + extra) as nat);
    }

    /// The number of entries the table reported.
    pub fn total_count(&self) -> (r: usize)
        ensures
            r == self.spec_count(),
    {
        self.count
    }

    /// The index of the next entry to read, and a step past it; `None`
    /// once every entry was read.
    pub fn next_index(&mut self) -> (r: Option<usize>)
        ensures
            final(self).spec_count() == old(self).spec_count(),
            old(self).position() >= old(self).spec_count() ==> r is None && final(self).position()
                == old(self).position(),
            old(self).position() < old(self).spec_count() ==> r == Some(old(self).position() as usize)
                && final(self).position() == old(self).position() + 1,
            (r, final(self).position()) == walk_step(old(self).position(), old(self).spec_count()),
    {
        if self.index >= self.count {
            return None;
        }
        let i = self.index;
        self.index = self.index + 1;
        Some(i)
    }
}

} // verus!
