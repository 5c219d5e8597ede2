//! The bootstrap sequence behind the test-harness entry points.
//!
//! Bringing up a test instance of the application is a fixed sequence of
//! steps: take the global serialization lock, optionally clean a list of
//! tables through a direct connection of its own, read the required
//! database url from the environment, build the connection pool, and wrap
//! the application instance — with the caller's routes mounted — in a test
//! client. Every step can fail, and any failure aborts the whole sequence.
//!
//! This module is that sequence as a state machine. `next_action` says what
//! the harness has to do next, the caller performs it against the real
//! environment, database and framework, and `step` records what came back.
//! The machine decides everything; the caller only executes.

use vstd::prelude::*;

verus! {

/// Why a bootstrap aborted.
#[derive(Clone, Copy, Debug, PartialEq, Eq)]
pub enum SetupError {
    /// The required database-url environment variable is not set.
    MissingDatabaseUrl,
    /// The direct connection for the cleaning pass could not be established.
    CleanConnectionFailed,
    /// The delete-all against the table at this position in the caller's
    /// list failed.
    TableCleanFailed { position: usize },
    /// The connection pool could not be created.
    PoolCreationFailed,
    /// The framework's test client could not be created.
    ClientCreationFailed,
}

/// Where a bootstrap currently stands.
#[derive(Clone, Copy, Debug, PartialEq, Eq)]
pub enum Phase {
    /// Waiting to acquire the global serialization lock.
    AcquiringLock,
    /// Reading the database url for the cleaning pass's own connection.
    ReadingCleanUrl,
    /// Opening the direct connection the cleaning pass uses.
    OpeningCleanConnection,
    /// Deleting all rows from the table at this position in the caller's
    /// list.
    Cleaning { position: usize },
    /// Reading the database url the connection pool is built from.
    ReadingPoolUrl,
    /// Building the connection pool.
    BuildingPool,
    /// Building the application instance and wrapping it in a test client.
    BuildingClient,
    /// The client is ready and the caller holds the lock guard.
    Ready,
    /// The bootstrap aborted.
    Failed { error: SetupError },
}

/// What the environment, the database or the framework reported back for
/// the step the machine asked for.
#[derive(Clone, Copy, Debug, PartialEq, Eq)]
pub enum Event {
    /// The global lock was acquired.
    LockAcquired,
    /// The database-url environment variable was read; `present` says
    /// whether it was set.
    UrlRead { present: bool },
    /// Opening the cleaning pass's connection succeeded or failed.
    CleanConnectionOpened { ok: bool },
    /// The delete-all against the current table succeeded or failed.
    TableCleaned { ok: bool },
    /// Building the connection pool succeeded or failed.
    PoolBuilt { ok: bool },
    /// Building the test client succeeded or failed.
    ClientBuilt { ok: bool },
}

/// What the harness has to do next.
#[derive(Clone, Copy, Debug, PartialEq, Eq)]
pub enum Action {
    /// Block until the global serialization lock is acquired.
    AcquireLock,
    /// Read the required database-url environment variable.
    ReadDatabaseUrl,
    /// Open the direct connection the cleaning pass uses.
    OpenCleanConnection,
    /// Delete all rows from the table at this position in the caller's
    /// list.
    DeleteAllRows { position: usize },
    /// Build the connection pool from the url just read.
    BuildPool,
    /// Build the application instance, mount this many routes on it, and
    /// wrap it in a test client.
    BuildClient { routes: usize },
    /// Done: hand the client and the lock guard to the caller.
    Finished,
    /// Abort with this error.
    Aborted { error: SetupError },
}

/// One bootstrap in progress.
#[derive(Clone, Copy, Debug, PartialEq, Eq)]
pub struct Bootstrap {
    /// How many routes will be mounted on the application instance.
    pub routes: usize,
    /// How many tables the cleaning pass covers.
    pub tables: usize,
    /// Whether a cleaning pass runs before the pool is built.
    pub clean_first: bool,
    /// Where the bootstrap currently stands.
    pub phase: Phase,
}

/// How one event moves the bootstrap on. An event that does not answer the
/// pending step leaves the machine as it is; `Ready` and `Failed` are
/// final.
pub open spec fn spec_step(m: Bootstrap, e: Event) -> Bootstrap {
    let next = match (m.phase, e) {
        (Phase::AcquiringLock, Event::LockAcquired) => {
            if m.clean_first {
                Phase::ReadingCleanUrl
            } else {
                Phase::ReadingPoolUrl
            }
        },
        (Phase::ReadingCleanUrl, Event::UrlRead { present }) => {
            if present {
                Phase::OpeningCleanConnection
            } else {
                Phase::Failed { error: SetupError::MissingDatabaseUrl }
            }
        },
        (Phase::OpeningCleanConnection, Event::CleanConnectionOpened { ok }) => {
            if !ok {
                Phase::Failed { error: SetupError::CleanConnectionFailed }
            } else if m.tables == 0 {
                Phase::ReadingPoolUrl
            } else {
                Phase::Cleaning { position: 0 }
            }
        },
        (Phase::Cleaning { position }, Event::TableCleaned { ok }) => {
            if !ok {
                Phase::Failed { error: SetupError::TableCleanFailed { position } }
            } else if m.tables > 0 && position < m.tables - 1 {
                Phase::Cleaning { position: (position + 1) as usize }
            } else {
                Phase::ReadingPoolUrl
            }
        },
        (Phase::ReadingPoolUrl, Event::UrlRead { present }) => {
            if present {
                Phase::BuildingPool
            } else {
                Phase::Failed { error: SetupError::MissingDatabaseUrl }
            }
        },
        (Phase::BuildingPool, Event::PoolBuilt { ok }) => {
            if ok {
                Phase::BuildingClient
            } else {
                Phase::Failed { error: SetupError::PoolCreationFailed }
            }
        },
        (Phase::BuildingClient, Event::ClientBuilt { ok }) => {
            if ok {
                Phase::Ready
            } else {
                Phase::Failed { error: SetupError::ClientCreationFailed }
            }
        },
        _ => m.phase,
    };
    Bootstrap { phase: next, ..m }
}

/// The step the machine expects the harness to perform in each phase.
pub open spec fn spec_next_action(m: Bootstrap) -> Action {
    match m.phase {
        Phase::AcquiringLock => Action::AcquireLock,
        Phase::ReadingCleanUrl => Action::ReadDatabaseUrl,
        Phase::OpeningCleanConnection => Action::OpenCleanConnection,
        Phase::Cleaning { position } => Action::DeleteAllRows { position },
        Phase::ReadingPoolUrl => Action::ReadDatabaseUrl,
        Phase::BuildingPool => Action::BuildPool,
        Phase::BuildingClient => Action::BuildClient { routes: m.routes },
        Phase::Ready => Action::Finished,
        Phase::Failed { error } => Action::Aborted { error },
    }
}

/// The machine after a whole sequence of events.
pub open spec fn run(m: Bootstrap, events: Seq<Event>) -> Bootstrap
    decreases events.len(),
{
    if events.len() == 0 {
        m
    } else {
        run(spec_step(m, events[0]), events.drop_first())
    }
}

/// The bootstrap plan behind `init_rocket`: take the global lock, read the
/// required database url, build the pool, and mount the caller's routes on
/// a fresh application instance wrapped in a test client. No cleaning pass
/// runs.
pub fn init_rocket(routes: usize) -> (m: Bootstrap)
    ensures
        m == (Bootstrap { routes, tables: 0, clean_first: false, phase: Phase::AcquiringLock }),
{
    Bootstrap { routes, tables: 0, clean_first: false, phase: Phase::AcquiringLock }
}

/// The bootstrap plan behind `init_rocket_and_clean_tables`: as
/// `init_rocket`, but a cleaning pass over `tables` tables runs first,
/// through a direct connection of its own.
pub fn init_rocket_and_clean_tables(routes: usize, tables: usize) -> (m: Bootstrap)
    ensures
        m == (Bootstrap { routes, tables, clean_first: true, phase: Phase::AcquiringLock }),
{
    Bootstrap { routes, tables, clean_first: true, phase: Phase::AcquiringLock }
}

impl Bootstrap {
    /// Records what the environment, the database or the framework reported
    /// for the pending step.
    pub fn step(&mut self, event: Event)
        ensures
            *final(self) == spec_step(*old(self), event),
    {
        let next = match (self.phase, event) {
            (Phase::AcquiringLock, Event::LockAcquired) => {
                if self.clean_first {
                    Phase::ReadingCleanUrl
                } else {
                    Phase::ReadingPoolUrl
                }
            },
            (Phase::ReadingCleanUrl, Event::UrlRead { present }) => {
                if present {
                    Phase::OpeningCleanConnection
                } else {
                    Phase::Failed { error: SetupError::MissingDatabaseUrl }
                }
            },
            (Phase::OpeningCleanConnection, Event::CleanConnectionOpened { ok }) => {
                if !ok {
                    Phase::Failed { error: SetupError::CleanConnectionFailed }
                } else if self.tables == 0 {
                    Phase::ReadingPoolUrl
                } else {
                    Phase::Cleaning { position: 0 }
                }
            },
            (Phase::Cleaning { position }, Event::TableCleaned { ok }) => {
                if !ok {
                    Phase::Failed { error: SetupError::TableCleanFailed { position } }
                } else if self.tables > 0 && position < self.tables - 1 {
                    Phase::Cleaning { position: position + 1 }
                } else {
                    Phase::ReadingPoolUrl
                }
            },
            (Phase::ReadingPoolUrl, Event::UrlRead { present }) => {
                if present {
                    Phase::BuildingPool
                } else {
                    Phase::Failed { error: SetupError::MissingDatabaseUrl }
                }
            },
            (Phase::BuildingPool, Event::PoolBuilt { ok }) => {
                if ok {
                    Phase::BuildingClient
                } else {
                    Phase::Failed { error: SetupError::PoolCreationFailed }
                }
            },
            (Phase::BuildingClient, Event::ClientBuilt { ok }) => {
                if ok {
                    Phase::Ready
                } else {
                    Phase::Failed { error: SetupError::ClientCreationFailed }
                }
            },
            (phase, _) => phase,
        };
        self.phase = next;
    }

    /// The step the harness has to perform next.
    pub fn next_action(&self) -> (a: Action)
        ensures
            a == spec_next_action(*self),
    {
        match self.phase {
            Phase::AcquiringLock => Action::AcquireLock,
            Phase::ReadingCleanUrl => Action::ReadDatabaseUrl,
            Phase::OpeningCleanConnection => Action::OpenCleanConnection,
            Phase::Cleaning { position } => Action::DeleteAllRows { position },
            Phase::ReadingPoolUrl => Action::ReadDatabaseUrl,
            Phase::BuildingPool => Action::BuildPool,
            Phase::BuildingClient => Action::BuildClient { routes: self.routes },
            Phase::Ready => Action::Finished,
            Phase::Failed { error } => Action::Aborted { error },
        }
    }
}

/// The check on the required environment variable: a value that is set
/// comes through as it is; a missing one is the fatal `MissingDatabaseUrl`
/// error.
pub fn require_database_url(value: Option<String>) -> (r: Result<String, SetupError>)
    ensures
        value matches Some(url) ==> (r matches Ok(u) && u@ == url@),
        value is None ==> (r matches Err(e) && e == SetupError::MissingDatabaseUrl),
{
    match value {
        Some(url) => Ok(url),
        None => Err(SetupError::MissingDatabaseUrl),
    }
}

/// The phases in which the harness talks to the database or to the
/// framework: everything from opening the cleaning pass's connection to
/// holding a ready client.
pub open spec fn interacts_with_database_or_framework(p: Phase) -> bool {
    ||| p is OpeningCleanConnection
    ||| p is Cleaning
    ||| p is BuildingPool
    ||| p is BuildingClient
    ||| p is Ready
}

/// An event reporting that the database-url variable was found set.
pub open spec fn reports_url_present(e: Event) -> bool {
    e matches Event::UrlRead { present } && present
}

/// A missing database url aborts the bootstrap before anything touches the
/// database or the framework: as long as no read of the environment finds
/// the variable set, no point of the run opens a connection, cleans a
/// table, builds the pool or builds the client.
pub proof fn lemma_missing_url_aborts_before_any_interaction(m: Bootstrap, events: Seq<Event>)
    requires
        m.phase is AcquiringLock,
        forall|i: int| 0 <= i < events.len() ==> !reports_url_present(#[trigger] events[i]),
    ensures
        forall|k: int|
            0 <= k <= events.len() ==> !interacts_with_database_or_framework(
                run(m, #[trigger] events.take(k)).phase,
            ),
{
    assert forall|k: int|
        0 <= k <= events.len() implies !interacts_with_database_or_framework(
        run(m, #[trigger] events.take(k)).phase,
    ) by {
        lemma_url_gate_is_preserved(m, events.take(k));
    }
}

/// The mounted route set never gates progress: two bootstraps that differ
/// only in how many routes they mount move through exactly the same phases
/// on the same events. In particular, mounting zero routes reaches a ready
/// client on exactly the runs on which any other route set does.
pub proof fn lemma_route_count_does_not_gate_progress(
    r1: usize,
    r2: usize,
    tables: usize,
    clean_first: bool,
    events: Seq<Event>,
)
    ensures
        run(Bootstrap { routes: r1, tables, clean_first, phase: Phase::AcquiringLock }, events).phase
            == run(
            Bootstrap { routes: r2, tables, clean_first, phase: Phase::AcquiringLock },
            events,
        ).phase,
{
    lemma_phase_ignores_routes(
        Bootstrap { routes: r1, tables, clean_first, phase: Phase::AcquiringLock },
        Bootstrap { routes: r2, tables, clean_first, phase: Phase::AcquiringLock },
        events,
    );
}

/// Nothing happens before the lock: until an acquisition event arrives, the
/// bootstrap is still waiting on the global lock — so no client is produced
/// while another test holds it.
pub proof fn lemma_nothing_happens_before_the_lock(m: Bootstrap, events: Seq<Event>)
    requires
        m.phase is AcquiringLock,
        forall|i: int| 0 <= i < events.len() ==> !(#[trigger] events[i] is LockAcquired),
    ensures
        run(m, events).phase is AcquiringLock,
    decreases events.len(),
{
    if events.len() > 0 {
        let m1 = spec_step(m, events[0]);
        assert(!(events[0] is LockAcquired));
        assert(m1.phase is AcquiringLock);
        let rest = events.drop_first();
        assert forall|i: int| 0 <= i < rest.len() implies !(#[trigger] rest[i] is LockAcquired) by {
            assert(rest[i] == events[i + 1]);
        }
        lemma_nothing_happens_before_the_lock(m1, rest);
    }
}

proof fn lemma_url_gate_is_preserved(m: Bootstrap, events: Seq<Event>)
    requires
        !interacts_with_database_or_framework(m.phase),
        forall|i: int| 0 <= i < events.len() ==> !reports_url_present(#[trigger] events[i]),
    ensures
        !interacts_with_database_or_framework(run(m, events).phase),
    decreases events.len(),
{
    if events.len() > 0 {
        let m1 = spec_step(m, events[0]);
        assert(!reports_url_present(events[0]));
        assert(!interacts_with_database_or_framework(m1.phase));
        let rest = events.drop_first();
        assert forall|i: int| 0 <= i < rest.len() implies !reports_url_present(
            #[trigger] rest[i],
        ) by {
            assert(rest[i] == events[i + 1]);
        }
        lemma_url_gate_is_preserved(m1, rest);
    }
}

proof fn lemma_phase_ignores_routes(m1: Bootstrap, m2: Bootstrap, events: Seq<Event>)
    requires
        m1.phase == m2.phase,
        m1.tables == m2.tables,
        m1.clean_first == m2.clean_first,
    ensures
        run(m1, events).phase == run(m2, events).phase,
    decreases events.len(),
{
    if events.len() > 0 {
        lemma_phase_ignores_routes(spec_step(m1, events[0]), spec_step(m2, events[0]), events.drop_first());
    }
}

} // verus!
