//! The state word of a reader-writer lock, and the decisions its lock and
//! unlock paths take on a value read from it.
//!
//! The low 30 bits count the readers, or hold all ones while a writer has
//! the lock; bit 30 says that readers wait, bit 31 that writers wait.
use vstd::prelude::*;
use core::sync::atomic::{AtomicUsize, Ordering};

verus! {

pub const MASK: usize = 0x3FFF_FFFF;
pub const WRITE_LOCKED: usize = 0x3FFF_FFFF;
pub const READ_LOCKED: usize = 1;
pub const READERS_WAITING: usize = 0x4000_0000;
pub const WRITERS_WAITING: usize = 0x8000_0000;
pub const MAX_READERS: usize = 0x3FFF_FFFE;

/// No reader and no writer holds the lock.
pub open spec fn unlocked(state: usize) -> bool {
    state & MASK == 0
}

/// A writer holds the lock.
pub open spec fn write_locked(state: usize) -> bool {
    state & MASK == WRITE_LOCKED
}

/// A reader may join: room for one more, and nobody waits.
pub open spec fn read_lockable(state: usize) -> bool {
    &&& state & MASK < MAX_READERS
    &&& state & READERS_WAITING == 0
    &&& state & WRITERS_WAITING == 0
}

/// A reader that has slept may join other readers even while writers wait.
pub open spec fn read_lockable_after_downgrade(state: usize) -> bool {
    &&& state & MASK < MAX_READERS
    &&& state & READERS_WAITING == 0
    &&& !write_locked(state)
    &&& !unlocked(state)
}

/// The number of readers, or `MASK` under a writer.
pub open spec fn lock_count(state: usize) -> usize {
    state & MASK
}

/// The two waiting bits, 30 and 31.
pub open spec fn waiting_bits(state: usize) -> usize {
    state & 0xC000_0000
}

pub fn is_unlocked(state: usize) -> (r: bool)
    ensures
        r == unlocked(state),
{
    state & MASK == 0
}

pub fn is_write_locked(state: usize) -> (r: bool)
    ensures
        r == write_locked(state),
{
    state & MASK == WRITE_LOCKED
}

pub fn is_read_lockable(state: usize) -> (r: bool)
    ensures
        r == read_lockable(state),
{
    state & MASK < MAX_READERS && state & READERS_WAITING == 0 && state & WRITERS_WAITING == 0
}

pub fn is_read_lockable_after_downgrade(state: usize) -> (r: bool)
    ensures
        r == read_lockable_after_downgrade(state),
{
    state & MASK < MAX_READERS && state & READERS_WAITING == 0 && !is_write_locked(state)
        && !is_unlocked(state)
}

/// A state below the reader limit is not the largest word, so one more
/// reader fits without overflow.
proof fn lemma_below_max_readers(state: usize)
    requires
        state & 0x3FFF_FFFF < 0x3FFF_FFFE,
    ensures
        state < usize::MAX,
{
    assert(state & 0x3FFF_FFFF < 0x3FFF_FFFE ==> state != 0xFFFF_FFFF && (state as u64)
        != 0xFFFF_FFFF_FFFF_FFFFu64) by (bit_vector);
}

/// What a reader that found the lock busy does next.
#[derive(Debug, Clone, Copy, PartialEq, Eq, Structural)]
pub enum ReadStep {
    /// Try to move the state from `expected` to `new`, one more reader.
    Acquire { expected: usize, new: usize },
    /// The reader count is at its limit.
    TooManyReaders,
    /// Try to set the readers-waiting bit, then sleep on the state.
    MarkWaiting { expected: usize, new: usize },
    /// Sleep while the state is still `expected`.
    Wait { expected: usize },
}

/// The decision a contended reader takes on a state it read, given whether
/// it has slept before.
pub fn read_contended_step(state: usize, has_slept: bool) -> (r: ReadStep)
    ensures
        (has_slept && read_lockable_after_downgrade(state)) || read_lockable(state) ==> r
            == (ReadStep::Acquire { expected: state, new: (state + READ_LOCKED) as usize }),
        !((has_slept && read_lockable_after_downgrade(state)) || read_lockable(state)) ==> ({
            if !(state & MASK < MAX_READERS) {
                r == ReadStep::TooManyReaders
            } else if state & READERS_WAITING == 0 {
                r == (ReadStep::MarkWaiting { expected: state, new: state | READERS_WAITING })
            } else {
                r == (ReadStep::Wait { expected: state | READERS_WAITING })
            }
        }),
        r is Acquire ==> !write_locked(state) && lock_count(state) < MAX_READERS,
        !has_slept && state & WRITERS_WAITING != 0 ==> !(r is Acquire),
        !has_slept && state & READERS_WAITING != 0 ==> !(r is Acquire),
{
    if (has_slept && is_read_lockable_after_downgrade(state)) || is_read_lockable(state) {
        proof {
            lemma_below_max_readers(state);
        }
        return ReadStep::Acquire { expected: state, new: state + READ_LOCKED };
    }
    if !(state & MASK < MAX_READERS) {
        return ReadStep::TooManyReaders;
    }
    if state & READERS_WAITING == 0 {
        ReadStep::MarkWaiting { expected: state, new: state | READERS_WAITING }
    } else {
        ReadStep::Wait { expected: state | READERS_WAITING }
    }
}

/// What a writer that found the lock busy does next.
#[derive(Debug, Clone, Copy, PartialEq, Eq, Structural)]
pub enum WriteStep {
    /// Try to move the state from `expected` to `new`, write-locked.
    Acquire { expected: usize, new: usize },
    /// Try to set the writers-waiting bit.
    MarkWaiting { expected: usize, new: usize },
    /// The bit is set: read the notification counter and the state again.
    Prepare,
}

/// The decision a contended writer takes on a state it read; `other_waiting`
/// is the writers-waiting bit to keep once it has waited itself, or zero.
pub fn write_contended_step(state: usize, other_waiting: usize) -> (r: WriteStep)
    ensures
        unlocked(state) ==> r == (WriteStep::Acquire {
            expected: state,
            new: state | WRITE_LOCKED | other_waiting,
        }),
        !unlocked(state) && state & WRITERS_WAITING == 0 ==> r == (WriteStep::MarkWaiting {
            expected: state,
            new: state | WRITERS_WAITING,
        }),
        !unlocked(state) && state & WRITERS_WAITING != 0 ==> r == WriteStep::Prepare,
        r is Acquire ==> lock_count(state) == 0,
{
    if is_unlocked(state) {
        WriteStep::Acquire { expected: state, new: state | WRITE_LOCKED | other_waiting }
    } else if state & WRITERS_WAITING == 0 {
        WriteStep::MarkWaiting { expected: state, new: state | WRITERS_WAITING }
    } else {
        WriteStep::Prepare
    }
}

/// Whether a waiting writer sleeps on the state it read again: only while
/// the lock is held and the writers-waiting bit still stands.
pub fn writer_should_wait(state: usize) -> (r: bool)
    ensures
        r == !(unlocked(state) || state & WRITERS_WAITING == 0),
{
    !(is_unlocked(state) || state & WRITERS_WAITING == 0)
}

/// Whom an unlock wakes.
#[derive(Debug, Clone, Copy, PartialEq, Eq, Structural)]
pub enum Wake {
    Writer,
    Readers,
}

/// The hand-over an unlock makes from a state with waiters: move the state
/// from `expected` to `new`, then wake `target`.
#[derive(Debug, Clone, Copy, PartialEq, Eq, Structural)]
pub struct WakePlan {
    pub expected: usize,
    pub new: usize,
    pub target: Wake,
}

/// A writer is preferred; readers are woken only when no writer waits.
pub fn wake_plan(state: usize) -> (r: Option<WakePlan>)
    ensures
        state == WRITERS_WAITING ==> r == Some(
            (WakePlan { expected: state, new: 0, target: Wake::Writer }),
        ),
        state == READERS_WAITING + WRITERS_WAITING ==> r == Some(
            (WakePlan { expected: state, new: READERS_WAITING, target: Wake::Writer }),
        ),
        state == READERS_WAITING ==> r == Some(
            (WakePlan { expected: state, new: 0, target: Wake::Readers }),
        ),
        state != WRITERS_WAITING && state != READERS_WAITING + WRITERS_WAITING && state
            != READERS_WAITING ==> r is None,
        r matches Some(p) ==> {
            &&& p.expected == state
            &&& (p.target == Wake::Writer) == (state & WRITERS_WAITING != 0)
            &&& p.new & WRITERS_WAITING == 0
            &&& lock_count(p.new) == 0
            &&& (p.target == Wake::Writer ==> p.new & READERS_WAITING == state & READERS_WAITING)
        },
{
    proof {
        assert({
            &&& 0x8000_0000usize & 0x8000_0000 != 0
            &&& 0xC000_0000usize & 0x8000_0000 != 0
            &&& 0x4000_0000usize & 0x8000_0000 == 0
            &&& 0usize & 0x8000_0000 == 0
            &&& 0usize & 0x3FFF_FFFF == 0
            &&& 0x4000_0000usize & 0x3FFF_FFFF == 0
            &&& 0usize & 0x4000_0000 == 0x8000_0000usize & 0x4000_0000
            &&& 0x4000_0000usize & 0x4000_0000 == 0xC000_0000usize & 0x4000_0000
        }) by (bit_vector);
    }
    if state == WRITERS_WAITING {
        Some(WakePlan { expected: state, new: 0, target: Wake::Writer })
    } else if state == READERS_WAITING + WRITERS_WAITING {
        Some(WakePlan { expected: state, new: READERS_WAITING, target: Wake::Writer })
    } else if state == READERS_WAITING {
        Some(WakePlan { expected: state, new: 0, target: Wake::Readers })
    } else {
        None
    }
}

/// After a reader leaves, `prev` being the state before: the state to hand
/// over when it was the last reader and writers wait.
pub fn after_read_release(prev: usize) -> (r: Option<usize>)
    requires
        prev >= READ_LOCKED,
    ensures
        ({
            let state = (prev - READ_LOCKED) as usize;
            if unlocked(state) && state & WRITERS_WAITING != 0 {
                r == Some(state)
            } else {
                r is None
            }
        }),
        r is Some <==> (prev % 0x4000_0000 == 1 && (prev / 0x8000_0000) % 2 == 1),
{
    proof {
        let st = (prev - 1) as usize;
        assert(prev >= 1 && st == prev - 1 ==> {
            &&& (st & 0x3FFF_FFFF == 0) == (prev % 0x4000_0000 == 1)
            &&& (prev % 0x4000_0000 == 1 ==> ((st & 0x8000_0000 != 0) == ((prev / 0x8000_0000) % 2
                == 1)))
        }) by (bit_vector);
    }
    let state = prev - READ_LOCKED;
    if is_unlocked(state) && state & WRITERS_WAITING != 0 {
        Some(state)
    } else {
        None
    }
}

/// After a writer leaves, `prev` being the state before: the state to hand
/// over when anybody waits.
pub fn after_write_release(prev: usize) -> (r: Option<usize>)
    requires
        prev >= WRITE_LOCKED,
    ensures
        ({
            let state = (prev - WRITE_LOCKED) as usize;
            if state & WRITERS_WAITING != 0 || state & READERS_WAITING != 0 {
                r == Some(state)
            } else {
                r is None
            }
        }),
        write_locked(prev) ==> (r is Some <==> (prev / 0x4000_0000) % 4 != 0),
{
    proof {
        let st = (prev - 0x3FFF_FFFF) as usize;
        assert(prev & 0x3FFF_FFFF == 0x3FFF_FFFF && st == prev - 0x3FFF_FFFF ==> ((st & 0x8000_0000
            != 0 || st & 0x4000_0000 != 0) == ((prev / 0x4000_0000) % 4 != 0))) by (bit_vector);
    }
    let state = prev - WRITE_LOCKED;
    if state & WRITERS_WAITING != 0 || state & READERS_WAITING != 0 {
        Some(state)
    } else {
        None
    }
}

/// `compare_exchange` of `AtomicUsize` with acquire ordering on success:
/// `Ok` with the old value, which equals `current`, when it stored `new`;
/// otherwise `Err` with the value it found, which differs from `current`.
#[verifier::external_body]
fn atomic_compare_exchange(a: &AtomicUsize, current: usize, new: usize) -> (r: Result<usize, usize>)
    ensures
        r matches Ok(v) ==> v == current,
        r matches Err(v) ==> v != current,
{
    a.compare_exchange(current, new, Ordering::Acquire, Ordering::Relaxed)
}

/// `core::hint::spin_loop`: a hint to the processor, nothing more.
#[verifier::external_body]
fn spin_hint() {
    core::hint::spin_loop()
}

/// The lock's state word.
pub struct AtomicState(AtomicUsize);

impl AtomicState {
    /// Unlocked, nobody waiting.
    pub fn new() -> (r: Self) {
        AtomicState(AtomicUsize::new(0))
    }

    pub fn load(&self) -> usize {
        self.0.load(Ordering::Acquire)
    }

    pub fn store(&self, state: usize) {
        self.0.store(state, Ordering::Release)
    }

    pub fn compare_exchange(&self, current: usize, new: usize) -> (r: Result<usize, usize>)
        ensures
            r matches Ok(v) ==> v == current,
            r matches Err(v) ==> v != current,
    {
        atomic_compare_exchange(&self.0, current, new)
    }

    pub fn fetch_add(&self, val: usize) -> usize {
        self.0.fetch_add(val, Ordering::Release)
    }

    pub fn fetch_sub(&self, val: usize) -> usize {
        self.0.fetch_sub(val, Ordering::Release)
    }

    /// Takes a read lock when the state read allows one and nothing changed
    /// it in between.
    pub fn try_acquire_read(&self) -> bool {
        let state = self.load();
        self.try_acquire_read_from(state)
    }

    /// Takes a read lock given `state`, the word as it was read: only where
    /// a reader that has not slept may join (room for one more reader,
    /// nobody waiting), by moving the word from `state` to one more reader;
    /// false where the state turns the reader away or the word changed in
    /// between.
    pub fn try_acquire_read_from(&self, state: usize) -> (r: bool)
        ensures
            r ==> read_lockable(state),
    {
        match read_contended_step(state, false) {
            ReadStep::Acquire { expected, new } => self.compare_exchange(expected, new).is_ok(),
            _ => false,
        }
    }

    /// Takes the write lock when the state is zero: nobody holds it and
    /// nobody waits.
    pub fn try_acquire_write(&self) -> bool {
        match write_contended_step(0, 0) {
            WriteStep::Acquire { expected, new } => self.compare_exchange(expected, new).is_ok(),
            _ => false,
        }
    }

    /// Gives back a read lock; the state before.
    pub fn release_read(&self) -> usize {
        self.fetch_sub(READ_LOCKED)
    }

    /// Gives back the write lock; the state before.
    pub fn release_write(&self) -> usize {
        self.fetch_sub(WRITE_LOCKED)
    }

    /// Reads the state until `f` accepts it or a hundred further reads are
    /// spent; the last state read, which was handed to `f`: either `f`
    /// accepted it, or it is the last of 101 reads that `f` all turned down.
    pub fn spin_until<F: Fn(usize) -> bool>(&self, f: F) -> (r: usize)
        requires
            forall|s: usize| f.requires((s,)),
        ensures
            f.ensures((r,), true) || exists|reads: Seq<usize>|
                {
                    &&& reads.len() == 101
                    &&& reads.last() == r
                    &&& forall|i: int| 0 <= i < 101 ==> f.ensures((#[trigger] reads[i],), false)
                },
    {
        let mut spin: u32 = 100;
        let ghost mut reads: Seq<usize> = Seq::empty();
        loop
            invariant
                forall|s: usize| f.requires((s,)),
                spin <= 100,
                reads.len() == 100 - spin,
                forall|i: int| 0 <= i < reads.len() ==> f.ensures((#[trigger] reads[i],), false),
            decreases spin,
        {
            let state = self.0.load(Ordering::Relaxed);
            let accepted = f(state);
            if accepted {
                return state;
            }
            proof {
                reads = reads.push(state);
            }
            if spin == 0 {
                assert(reads.last() == state);
                assert(forall|i: int| 0 <= i < 101 ==> f.ensures((#[trigger] reads[i],), false));
                return state;
            }
            spin_hint();
            spin = spin - 1;
        }
    }

    /// Spins until the lock is free or writers wait.
    pub fn spin_write(&self) -> usize {
        self.spin_until(|s: usize| is_unlocked(s) || s & WRITERS_WAITING != 0)
    }

    /// Spins until no writer holds the lock or anybody waits.
    pub fn spin_read(&self) -> usize {
        self.spin_until(
            |s: usize|
                !is_write_locked(s) || s & READERS_WAITING != 0 || s & WRITERS_WAITING != 0,
        )
    }
}

/// A reader that has not slept joins only a lock that no writer holds and
/// that has room for one more reader; a waiting writer or waiting readers
/// turn it away, so it never overtakes them.
pub proof fn law_fresh_reader_admission(state: usize)
    ensures
        read_lockable(state) ==> !write_locked(state) && lock_count(state) < MAX_READERS,
        state & WRITERS_WAITING != 0 ==> !read_lockable(state),
        state & READERS_WAITING != 0 ==> !read_lockable(state),
{
}

/// A reader joins only while no writer holds the lock, and joining adds one
/// to the reader count and keeps the waiting bits, so it never reads as a
/// writer or as a free lock.
pub proof fn law_read_acquire(state: usize)
    requires
        read_lockable(state),
    ensures
        !write_locked(state),
        state + READ_LOCKED <= usize::MAX,
        lock_count((state + READ_LOCKED) as usize) == lock_count(state) + 1,
        waiting_bits((state + READ_LOCKED) as usize) == waiting_bits(state),
        !write_locked((state + READ_LOCKED) as usize),
        !unlocked((state + READ_LOCKED) as usize),
{
    lemma_below_max_readers(state);
    let next = (state + 1) as usize;
    assert(next == state + 1);
    assert(state & 0x3FFF_FFFF < 0x3FFF_FFFE && next == state + 1 ==> {
        &&& state & 0x3FFF_FFFF != 0x3FFF_FFFF
        &&& next & 0x3FFF_FFFF == (state & 0x3FFF_FFFF) + 1
        &&& next & 0xC000_0000 == state & 0xC000_0000
        &&& next & 0x3FFF_FFFF != 0x3FFF_FFFF
        &&& next & 0x3FFF_FFFF != 0
    }) by (bit_vector);
}

/// A writer takes the lock only when it is free; the state it leaves is
/// write-locked and keeps the waiting bits, plus its own when it waited.
pub proof fn law_write_acquire(state: usize, other_waiting: usize)
    requires
        unlocked(state),
        other_waiting == 0 || other_waiting == WRITERS_WAITING,
    ensures
        write_locked(state | WRITE_LOCKED | other_waiting),
        waiting_bits(state | WRITE_LOCKED | other_waiting) == waiting_bits(state) | other_waiting,
{
    assert(state & 0x3FFF_FFFF == 0 && (other_waiting == 0 || other_waiting == 0x8000_0000) ==> {
        &&& (state | 0x3FFF_FFFF | other_waiting) & 0x3FFF_FFFF == 0x3FFF_FFFF
        &&& (state | 0x3FFF_FFFF | other_waiting) & 0xC000_0000 == (state & 0xC000_0000) | other_waiting
    }) by (bit_vector);
}

/// Giving back the write lock frees it and leaves the waiting bits as they
/// were.
pub proof fn law_write_release(state: usize)
    requires
        write_locked(state),
    ensures
        state >= WRITE_LOCKED,
        unlocked((state - WRITE_LOCKED) as usize),
        waiting_bits((state - WRITE_LOCKED) as usize) == waiting_bits(state),
{
    assert(state & 0x3FFF_FFFF == 0x3FFF_FFFF ==> {
        &&& state >= 0x3FFF_FFFF
        &&& ((state - 0x3FFF_FFFF) as usize) & 0x3FFF_FFFF == 0
        &&& ((state - 0x3FFF_FFFF) as usize) & 0xC000_0000 == state & 0xC000_0000
    }) by (bit_vector);
}

/// The last reader to leave hands over only a free lock that writers wait
/// for, and the hand-over wakes a writer and clears the writers-waiting bit.
pub proof fn law_read_release_wakes_writer(prev: usize)
    requires
        prev >= READ_LOCKED,
        unlocked((prev - READ_LOCKED) as usize),
        (prev - READ_LOCKED) as usize & WRITERS_WAITING != 0,
        (prev - READ_LOCKED) as usize & !0xC000_0000usize == 0,
    ensures
        ({
            let state = (prev - READ_LOCKED) as usize;
            state == WRITERS_WAITING || state == READERS_WAITING + WRITERS_WAITING
        }),
{
    let state = (prev - 1) as usize;
    assert(state & 0x3FFF_FFFF == 0 && state & 0x8000_0000 != 0 && state & !0xC000_0000usize == 0
        ==> state == 0x8000_0000 || state == 0x4000_0000 + 0x8000_0000) by (bit_vector);
}


/// The state word's layout, as numbers: the low 30 bits count the readers,
/// with all of them set for a writer; bit 30 says readers wait and bit 31
/// that writers wait. The lock is free when the count is zero, and a reader
/// that has not slept may join when the count is below the reader limit
/// and neither waiting bit is set.
pub proof fn law_state_word_layout(s: usize)
    ensures
        lock_count(s) == s % 0x4000_0000,
        unlocked(s) == (s % 0x4000_0000 == 0),
        write_locked(s) == (s % 0x4000_0000 == 0x3FFF_FFFF),
        (s & READERS_WAITING != 0) == ((s / 0x4000_0000) % 2 == 1),
        (s & WRITERS_WAITING != 0) == ((s / 0x8000_0000) % 2 == 1),
        read_lockable(s) == (s % 0x4000_0000 < 0x3FFF_FFFE && (s / 0x4000_0000) % 4 == 0),
{
    assert({
        &&& s & 0x3FFF_FFFF == s % 0x4000_0000
        &&& (s & 0x4000_0000 != 0) == ((s / 0x4000_0000) % 2 == 1)
        &&& (s & 0x8000_0000 != 0) == ((s / 0x8000_0000) % 2 == 1)
        &&& (s & 0x4000_0000 == 0 && s & 0x8000_0000 == 0) == ((s / 0x4000_0000) % 4 == 0)
    }) by (bit_vector);
}

} // verus!
