use sysplay::sync::mutex::{lock_step, AtomicMutexState, LockStep, MutexState};
use sysplay::sync::rwlock::{
    after_read_release, after_write_release, is_read_lockable, is_read_lockable_after_downgrade,
    is_unlocked, is_write_locked, read_contended_step, wake_plan, write_contended_step,
    writer_should_wait, AtomicState, ReadStep, Wake, WakePlan, WriteStep, MASK,
    READERS_WAITING, WRITERS_WAITING, WRITE_LOCKED,
};

#[test]
fn state_predicates() {
    assert!(is_unlocked(0));
    assert!(is_unlocked(READERS_WAITING | WRITERS_WAITING));
    assert!(!is_unlocked(1));
    assert!(is_write_locked(WRITE_LOCKED));
    assert!(!is_write_locked(5));
    assert!(is_read_lockable(5));
    assert!(!is_read_lockable(5 | WRITERS_WAITING));
    assert!(!is_read_lockable(MASK - 1));
    assert!(is_read_lockable_after_downgrade(5 | WRITERS_WAITING));
    assert!(!is_read_lockable_after_downgrade(WRITERS_WAITING));
    assert!(!is_read_lockable_after_downgrade(WRITE_LOCKED));
}

#[test]
fn contended_reader_decisions() {
    assert_eq!(read_contended_step(0, false), ReadStep::Acquire { expected: 0, new: 1 });
    assert_eq!(
        read_contended_step(3 | WRITERS_WAITING, false),
        ReadStep::MarkWaiting { expected: 3 | WRITERS_WAITING, new: 3 | WRITERS_WAITING | READERS_WAITING }
    );
    assert_eq!(
        read_contended_step(3 | WRITERS_WAITING, true),
        ReadStep::Acquire { expected: 3 | WRITERS_WAITING, new: 4 | WRITERS_WAITING }
    );
    assert_eq!(
        read_contended_step(3 | READERS_WAITING | WRITERS_WAITING, true),
        ReadStep::Wait { expected: 3 | READERS_WAITING | WRITERS_WAITING }
    );
    // A writer holds the lock: the count is at its limit for readers.
    assert_eq!(read_contended_step(WRITE_LOCKED, false), ReadStep::TooManyReaders);
}

#[test]
fn contended_writer_decisions() {
    assert_eq!(
        write_contended_step(1, 0),
        WriteStep::MarkWaiting { expected: 1, new: 1 | WRITERS_WAITING }
    );
    assert_eq!(write_contended_step(1 | WRITERS_WAITING, WRITERS_WAITING), WriteStep::Prepare);
    assert_eq!(
        write_contended_step(WRITERS_WAITING, WRITERS_WAITING),
        WriteStep::Acquire { expected: WRITERS_WAITING, new: WRITE_LOCKED | WRITERS_WAITING }
    );
    assert!(writer_should_wait(1 | WRITERS_WAITING));
    assert!(!writer_should_wait(WRITERS_WAITING));
    assert!(!writer_should_wait(1));
}

#[test]
fn unlock_hand_overs() {
    assert_eq!(
        wake_plan(WRITERS_WAITING),
        Some(WakePlan { expected: WRITERS_WAITING, new: 0, target: Wake::Writer })
    );
    assert_eq!(
        wake_plan(READERS_WAITING + WRITERS_WAITING),
        Some(WakePlan { expected: READERS_WAITING + WRITERS_WAITING, new: READERS_WAITING, target: Wake::Writer })
    );
    assert_eq!(
        wake_plan(READERS_WAITING),
        Some(WakePlan { expected: READERS_WAITING, new: 0, target: Wake::Readers })
    );
    assert_eq!(wake_plan(5), None);
    assert_eq!(after_read_release(1 | WRITERS_WAITING), Some(WRITERS_WAITING));
    assert_eq!(after_read_release(2 | WRITERS_WAITING), None);
    assert_eq!(after_read_release(1 | READERS_WAITING), None);
    assert_eq!(after_write_release(WRITE_LOCKED | READERS_WAITING), Some(READERS_WAITING));
    assert_eq!(after_write_release(WRITE_LOCKED), None);
}

#[test]
fn state_word_single_thread() {
    let s = AtomicState::new();
    assert_eq!(s.load(), 0);
    assert!(s.try_acquire_read());
    assert_eq!(s.load(), 1);
    assert!(!s.try_acquire_write());
    assert_eq!(s.release_read(), 1);
    assert!(s.try_acquire_write());
    assert_eq!(s.load(), WRITE_LOCKED);
    assert!(!s.try_acquire_read());
    assert_eq!(s.release_write(), WRITE_LOCKED);
    assert_eq!(s.load(), 0);
    assert_eq!(s.compare_exchange(0, 9), Ok(0));
    assert_eq!(s.compare_exchange(0, 1), Err(9));
    assert_eq!(s.fetch_add(1), 9);
    assert_eq!(s.fetch_sub(10), 10);
    s.store(READERS_WAITING);
    assert_eq!(s.spin_write(), READERS_WAITING);
    assert_eq!(s.spin_read(), READERS_WAITING);
    assert_eq!(s.spin_until(|x| x == 7), READERS_WAITING);
}

#[test]
fn mutex_state_word() {
    assert_eq!(MutexState::Contended.to_byte(), 2);
    assert_eq!(MutexState::from_byte(1), MutexState::Locked);
    let m = AtomicMutexState::new(MutexState::Unlocked);
    assert!(m.try_acquire());
    assert_eq!(m.load(), MutexState::Locked);
    assert!(!m.try_acquire());
    assert!(!m.mark_contended());
    assert_eq!(m.load(), MutexState::Contended);
    assert!(m.unlock());
    assert_eq!(m.load(), MutexState::Unlocked);
    assert!(m.mark_contended());
    assert!(m.unlock());
    assert!(!m.unlock());
}

#[test]
fn contended_lock_decisions() {
    assert_eq!(lock_step(MutexState::Unlocked, 3), (LockStep::TryAcquire, 3));
    assert_eq!(lock_step(MutexState::Locked, 5), (LockStep::Spin, 4));
    assert_eq!(lock_step(MutexState::Locked, 0), (LockStep::MarkContended, -1));
    assert_eq!(lock_step(MutexState::Contended, 3), (LockStep::Spin, 3));
}

#[test]
fn a_reader_joining_keeps_the_waiting_bits() {
    let s = AtomicState::new();
    s.store(5 | WRITERS_WAITING);
    assert_eq!(read_contended_step(5 | WRITERS_WAITING, true), ReadStep::Acquire { expected: 5 | WRITERS_WAITING, new: 6 | WRITERS_WAITING });
    assert!(!is_write_locked(6 | WRITERS_WAITING));
    assert!(is_write_locked(0 | WRITE_LOCKED | WRITERS_WAITING));
    assert!(is_unlocked((WRITE_LOCKED | READERS_WAITING) - WRITE_LOCKED));
}
