//! Support for integration tests of database-backed web applications.
//!
//! The library models the three guarantees a test harness gives its
//! callers: a test-only transaction whose writes never persist, a
//! table-cleaning pass with no atomicity across tables, and a bootstrap
//! sequence gated by a required database url and by a process-wide lock
//! that serializes database-touching tests.

pub mod bootstrap;
pub mod database;
pub mod lock;
