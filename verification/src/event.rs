//! Values that pair a payload with its place in an entity's history.

use vstd::prelude::*;
use crate::version::{EventNumber, Version};

verus! {

/// An event together with the number it was given when it was appended.
#[derive(Debug, PartialEq, Eq, Hash)]
pub struct VersionedEvent<E> {
    /// The position of the event in its stream.
    pub sequence: EventNumber,
    /// The event itself.
    pub event: E,
}

impl<E: Clone> VersionedEvent<E> {
    /// A copy that carries the same number and a clone of the payload.
    pub fn duplicate(&self) -> (copy: VersionedEvent<E>)
        ensures
            copy.sequence == self.sequence,
            cloned(self.event, copy.event),
    {
        VersionedEvent { sequence: self.sequence, event: self.event.clone() }
    }
}

/// A materialized entity state together with the version it reflects.
#[derive(Debug, PartialEq, Eq, Hash)]
pub struct VersionedAggregate<A> {
    /// The number of events folded into the state.
    pub version: Version,
    /// The state.
    pub payload: A,
}

impl<A: Clone> VersionedAggregate<A> {
    /// A copy that carries the same version and a clone of the state.
    pub fn duplicate(&self) -> (copy: VersionedAggregate<A>)
        ensures
            copy.version == self.version,
            cloned(self.payload, copy.payload),
    {
        VersionedAggregate { version: self.version, payload: self.payload.clone() }
    }
}

/// A borrowed materialized state together with the version it reflects.
#[derive(Debug)]
pub struct VersionedAggregateView<'a, A> {
    /// The number of events folded into the state.
    pub version: Version,
    /// The state.
    pub payload: &'a A,
}

impl<'a, A: Clone> VersionedAggregateView<'a, A> {
    /// An owned aggregate with the same version and a clone of the state.
    pub fn to_aggregate(&self) -> (owned: VersionedAggregate<A>)
        ensures
            owned.version == self.version,
            cloned(*self.payload, owned.payload),
    {
        VersionedAggregate { version: self.version, payload: self.payload.clone() }
    }
}

} // verus!
