use dbtest_harness::lock::{AcquireOutcome, LockState};

#[test]
fn fresh_lock_is_acquired_at_once() {
    let mut lock = LockState::new();
    assert_eq!(lock.try_acquire(1), AcquireOutcome::Acquired);
    assert_eq!(lock.holder, Some(1));
    assert!(!lock.poisoned);
}

#[test]
fn second_caller_waits_until_release() {
    let mut lock = LockState::new();
    assert_eq!(lock.try_acquire(1), AcquireOutcome::Acquired);
    assert_eq!(lock.try_acquire(2), AcquireOutcome::MustWait);
    assert_eq!(lock.holder, Some(1));
    lock.release();
    assert_eq!(lock.holder, None);
    assert_eq!(lock.try_acquire(2), AcquireOutcome::Acquired);
    assert_eq!(lock.holder, Some(2));
}

#[test]
fn abnormal_exit_does_not_block_the_next_caller() {
    let mut lock = LockState::new();
    assert_eq!(lock.try_acquire(1), AcquireOutcome::Acquired);
    lock.abnormal_exit();
    assert!(lock.poisoned);
    assert_eq!(lock.holder, None);
    assert_eq!(lock.try_acquire(2), AcquireOutcome::Acquired);
    assert_eq!(lock.holder, Some(2));
}

#[test]
fn held_lock_rejects_every_other_caller() {
    let mut lock = LockState::new();
    assert_eq!(lock.try_acquire(7), AcquireOutcome::Acquired);
    assert_eq!(lock.try_acquire(8), AcquireOutcome::MustWait);
    assert_eq!(lock.try_acquire(9), AcquireOutcome::MustWait);
    assert_eq!(lock.try_acquire(7), AcquireOutcome::MustWait);
    assert_eq!(lock.holder, Some(7));
}
