//! Model of the process-wide lock that serializes database-touching tests.
//!
//! Every bootstrap caller receives a guard on a single global lock, so two
//! tests never interleave their database mutations. This module states what
//! that lock does: acquisition blocks while another caller holds it, a
//! normal release frees it, and a holder that terminates abnormally leaves
//! it poisoned — which the next acquirer treats as simply available.

use vstd::prelude::*;

verus! {

/// The state of the global serialization lock: who holds it, and whether a
/// previous holder terminated abnormally while holding it.
#[derive(Clone, Copy, Debug, PartialEq, Eq)]
pub struct LockState {
    /// The caller currently holding the lock, if any.
    pub holder: Option<u64>,
    /// True once a holder has terminated abnormally without releasing.
    pub poisoned: bool,
}

/// What a caller observes when it tries to take the lock.
#[derive(Clone, Copy, Debug, PartialEq, Eq)]
pub enum AcquireOutcome {
    /// The caller now holds the lock.
    Acquired,
    /// Another caller holds the lock; this caller must block.
    MustWait,
}

/// One thing that can happen to the lock.
#[derive(Clone, Copy, Debug, PartialEq, Eq)]
pub enum LockEvent {
    /// A caller tries to take the lock.
    Acquire { caller: u64 },
    /// The holder releases the lock normally.
    Release,
    /// The holder terminates abnormally without releasing.
    AbnormalExit,
}

/// What an acquisition attempt does: a free lock — poisoned or not — goes
/// to the caller; a held lock leaves the state unchanged and the caller
/// waiting.
pub open spec fn spec_acquire(s: LockState, caller: u64) -> (LockState, AcquireOutcome) {
    if s.holder is None {
        (LockState { holder: Some(caller), ..s }, AcquireOutcome::Acquired)
    } else {
        (s, AcquireOutcome::MustWait)
    }
}

/// How one event transforms the lock. Poisoning is sticky: only an abnormal
/// exit sets it, and nothing clears it — it never blocks anyone.
pub open spec fn lock_step(s: LockState, e: LockEvent) -> LockState {
    match e {
        LockEvent::Acquire { caller } => spec_acquire(s, caller).0,
        LockEvent::Release => {
            if s.holder is Some {
                LockState { holder: None, ..s }
            } else {
                s
            }
        },
        LockEvent::AbnormalExit => {
            if s.holder is Some {
                LockState { holder: None, poisoned: true }
            } else {
                s
            }
        },
    }
}

/// The lock after a whole sequence of events.
pub open spec fn lock_run(s: LockState, events: Seq<LockEvent>) -> LockState
    decreases events.len(),
{
    if events.len() == 0 {
        s
    } else {
        lock_run(lock_step(s, events[0]), events.drop_first())
    }
}

impl LockState {
    /// A fresh lock: free and not poisoned.
    pub fn new() -> (s: LockState)
        ensures
            s.holder is None,
            !s.poisoned,
    {
        LockState { holder: None, poisoned: false }
    }

    /// One caller's attempt to take the lock.
    pub fn try_acquire(&mut self, caller: u64) -> (r: AcquireOutcome)
        ensures
            (*final(self), r) == spec_acquire(*old(self), caller),
    {
        match self.holder {
            None => {
                self.holder = Some(caller);
                AcquireOutcome::Acquired
            },
            Some(_) => AcquireOutcome::MustWait,
        }
    }

    /// The holder releases the lock normally.
    pub fn release(&mut self)
        requires
            old(self).holder is Some,
        ensures
            *final(self) == lock_step(*old(self), LockEvent::Release),
    {
        self.holder = None;
    }

    /// The holder terminates abnormally while still holding the lock.
    pub fn abnormal_exit(&mut self)
        requires
            old(self).holder is Some,
        ensures
            *final(self) == lock_step(*old(self), LockEvent::AbnormalExit),
    {
        self.holder = None;
        self.poisoned = true;
    }
}

/// A second caller cannot take a held lock: the attempt changes nothing and
/// tells the caller to wait.
pub proof fn lemma_acquire_waits_while_held(s: LockState, other: u64)
    requires
        s.holder is Some,
    ensures
        spec_acquire(s, other) == (s, AcquireOutcome::MustWait),
{
}

/// Mutual exclusion: as long as the current holder neither releases the
/// lock nor terminates abnormally, the lock stays with that holder at every
/// point of the run — so every other caller's acquisition attempt over that
/// whole span must wait.
pub proof fn lemma_lock_serializes_callers(s: LockState, events: Seq<LockEvent>, holder: u64)
    requires
        s.holder == Some(holder),
        forall|i: int| 0 <= i < events.len() ==> !(#[trigger] events[i] is Release) && !(events[i] is AbnormalExit),
    ensures
        forall|k: int| 0 <= k <= events.len() ==> lock_run(s, #[trigger] events.take(k)).holder == Some(holder),
{
    assert forall|k: int| 0 <= k <= events.len() implies lock_run(
        s,
        #[trigger] events.take(k),
    ).holder == Some(holder) by {
        lemma_held_lock_stays_held(s, events.take(k), holder);
    }
}

/// A lock whose previous holder terminated abnormally is taken by the next
/// caller exactly as a clean free lock would be: the attempt succeeds at
/// once instead of blocking or erroring.
pub proof fn lemma_poisoned_lock_is_still_usable(s: LockState, caller: u64)
    requires
        s.holder is None,
        s.poisoned,
    ensures
        spec_acquire(s, caller).1 == AcquireOutcome::Acquired,
        spec_acquire(s, caller).0.holder == Some(caller),
{
}

proof fn lemma_held_lock_stays_held(s: LockState, events: Seq<LockEvent>, holder: u64)
    requires
        s.holder == Some(holder),
        forall|i: int| 0 <= i < events.len() ==> !(#[trigger] events[i] is Release) && !(events[i] is AbnormalExit),
    ensures
        lock_run(s, events).holder == Some(holder),
    decreases events.len(),
{
    if events.len() > 0 {
        let s1 = lock_step(s, events[0]);
        assert(!(events[0] is Release) && !(events[0] is AbnormalExit));
        assert(s1 == s);
        let rest = events.drop_first();
        assert forall|i: int| 0 <= i < rest.len() implies !(#[trigger] rest[i] is Release) && !(rest[i] is AbnormalExit) by {
            assert(rest[i] == events[i + 1]);
        }
        lemma_held_lock_stays_held(s1, rest, holder);
    }
}

} // verus!
