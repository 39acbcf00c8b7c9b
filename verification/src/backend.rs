//! The choice of storage behind a store.

use vstd::prelude::*;

verus! {

/// Which storage a store is built on, decided when the store is constructed.
#[derive(Debug, PartialEq, Eq)]
pub enum BackendChoice {
    /// Keep everything in this process.
    Memory,
    /// Keep nothing: writes are accepted and dropped.
    Null,
    /// Keep everything in the remote store reached by this connection string.
    Redis(String),
}

} // verus!
