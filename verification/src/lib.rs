//! An in-memory persistence core for event-sourced aggregates.
//!
//! The crate offers an append-only event journal with optimistic concurrency
//! control and a snapshot cache holding the latest materialized state of each
//! entity. Every operation carries a contract over a mathematical model of the
//! store, and the laws that tie the operations together are proved as public
//! proof functions.

pub mod version;
pub mod event;
pub mod stream;
pub mod index;
pub mod table;
pub mod journal;
pub mod snapshot;
pub mod backend;
pub mod diagnostics;
