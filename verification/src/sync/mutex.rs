//! The state byte of a mutex and the decisions of its contended lock path.
use vstd::prelude::*;
use core::sync::atomic::{AtomicU8, Ordering};

verus! {

#[derive(Debug, Clone, Copy, PartialEq, Eq, Structural)]
pub enum MutexState {
    Unlocked,
    Locked,
    Contended,
}

impl MutexState {
    /// The byte that stands for the state: 0, 1 or 2.
    pub open spec fn spec_byte(self) -> u8 {
        match self {
            MutexState::Unlocked => 0,
            MutexState::Locked => 1,
            MutexState::Contended => 2,
        }
    }

    pub fn to_byte(self) -> (r: u8)
        ensures
            r == self.spec_byte(),
    {
        match self {
            MutexState::Unlocked => 0,
            MutexState::Locked => 1,
            MutexState::Contended => 2,
        }
    }

    /// The state a byte stands for; the lock only ever stores 0, 1 and 2,
    /// and any other byte reads as contended.
    pub fn from_byte(b: u8) -> (r: MutexState)
        ensures
            b == 0 ==> r == MutexState::Unlocked,
            b == 1 ==> r == MutexState::Locked,
            b >= 2 ==> r == MutexState::Contended,
    {
        if b == 0 {
            MutexState::Unlocked
        } else if b == 1 {
            MutexState::Locked
        } else {
            MutexState::Contended
        }
    }
}

/// `compare_exchange` of `AtomicU8` with acquire ordering on success: `Ok`
/// with the old value, which equals `current`, when it stored `new`;
/// otherwise `Err` with the value it found, which differs from `current`.
#[verifier::external_body]
fn atomic_u8_compare_exchange(a: &AtomicU8, current: u8, new: u8) -> (r: Result<u8, u8>)
    ensures
        r matches Ok(v) ==> v == current,
        r matches Err(v) ==> v != current,
{
    a.compare_exchange(current, new, Ordering::Acquire, Ordering::Relaxed)
}

/// Whether the byte a swap gave back, `before`, stands for state `s`.
pub fn was_state(before: u8, s: MutexState) -> (r: bool)
    ensures
        r == (before == s.spec_byte()),
{
    before == s.to_byte()
}

/// The mutex's state byte.
pub struct AtomicMutexState(AtomicU8);

impl AtomicMutexState {
    pub fn new(state: MutexState) -> Self {
        AtomicMutexState(AtomicU8::new(state.to_byte()))
    }

    pub fn load(&self) -> MutexState {
        MutexState::from_byte(self.0.load(Ordering::Acquire))
    }

    /// Takes the lock if it is free.
    pub fn try_acquire(&self) -> bool {
        atomic_u8_compare_exchange(
            &self.0,
            MutexState::Unlocked.to_byte(),
            MutexState::Locked.to_byte(),
        ).is_ok()
    }

    /// Marks the lock contended; true when it was free, and is now taken.
    pub fn mark_contended(&self) -> bool {
        let before = self.0.swap(MutexState::Contended.to_byte(), Ordering::Acquire);
        was_state(before, MutexState::Unlocked)
    }

    /// Frees the lock; true when it was contended, so that a waiter is owed
    /// a wake-up.
    pub fn unlock(&self) -> bool {
        let before = self.0.swap(MutexState::Unlocked.to_byte(), Ordering::Release);
        was_state(before, MutexState::Contended)
    }
}

/// What a thread that found the mutex taken does next.
#[derive(Debug, Clone, Copy, PartialEq, Eq, Structural)]
pub enum LockStep {
    /// The lock looked free: try to take it.
    TryAcquire,
    /// Spinning is over: mark the lock contended, which takes it if it was
    /// free meanwhile.
    MarkContended,
    /// Spin once more.
    Spin,
}

/// The spins a contended lock makes before it marks the lock contended.
pub const LOCK_SPINS: i32 = 100;

/// The decision on a state read, with the spin count left; the spin count
/// for the next round comes with it.
pub fn lock_step(observed: MutexState, spin_count: i32) -> (r: (LockStep, i32))
    requires
        spin_count > i32::MIN,
    ensures
        observed == MutexState::Unlocked ==> r == (LockStep::TryAcquire, spin_count),
        observed == MutexState::Locked && spin_count == 0 ==> r == (
            LockStep::MarkContended,
            -1i32,
        ),
        observed == MutexState::Locked && spin_count != 0 ==> r == (
            LockStep::Spin,
            (spin_count - 1) as i32,
        ),
        observed == MutexState::Contended ==> r == (LockStep::Spin, spin_count),
{
    match observed {
        MutexState::Unlocked => (LockStep::TryAcquire, spin_count),
        MutexState::Locked => {
            if spin_count == 0 {
                (LockStep::MarkContended, spin_count - 1)
            } else {
                (LockStep::Spin, spin_count - 1)
            }
        },
        MutexState::Contended => (LockStep::Spin, spin_count),
    }
}

/// A state survives its byte: reading back what was stored gives the state.
pub proof fn law_state_byte_roundtrip(s: MutexState)
    ensures
        s.spec_byte() == 0 ==> s == MutexState::Unlocked,
        s.spec_byte() == 1 ==> s == MutexState::Locked,
        s.spec_byte() >= 2 ==> s == MutexState::Contended,
{
}

} // verus!
