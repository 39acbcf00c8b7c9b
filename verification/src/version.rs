//! Sequencing values: event numbers, stream versions, read cursors and
//! write-time preconditions.

use vstd::prelude::*;

verus! {

/// The zero-based position of an event within the stream of one entity.
#[derive(Clone, Copy, Debug, PartialEq, Eq, Structural, PartialOrd, Ord, Hash)]
pub struct EventNumber(pub u64);

impl View for EventNumber {
    type V = nat;

    open spec fn view(&self) -> nat {
        self.0 as nat
    }
}

impl EventNumber {
    /// The number carried by the first event of every stream.
    pub fn min_value() -> (r: EventNumber)
        ensures
            r@ == 0,
    {
        EventNumber(0)
    }

    /// Wraps a raw position.
    pub fn new(number: u64) -> (r: EventNumber)
        ensures
            r@ == number,
    {
        EventNumber(number)
    }

    /// The raw position.
    pub fn get(self) -> (r: u64)
        ensures
            r == self@,
    {
        self.0
    }

    /// The number that follows this one.
    pub fn incr(self) -> (r: EventNumber)
        requires
            self@ < u64::MAX,
        ensures
            r@ == self@ + 1,
    {
        EventNumber(self.0 + 1)
    }
}

/// The count of events in a stream, which is one past the highest event
/// number assigned so far. Version zero denotes an empty stream.
#[derive(Clone, Copy, Debug, PartialEq, Eq, Structural, PartialOrd, Ord, Hash)]
pub struct Version(pub u64);

impl View for Version {
    type V = nat;

    open spec fn view(&self) -> nat {
        self.0 as nat
    }
}

impl Version {
    /// The version of a stream holding `count` events.
    pub fn new(count: u64) -> (r: Version)
        ensures
            r@ == count,
    {
        Version(count)
    }

    /// The number of events the version stands for.
    pub fn get(self) -> (r: u64)
        ensures
            r == self@,
    {
        self.0
    }

    /// The event number that the next appended event receives.
    pub fn next_event(self) -> (r: EventNumber)
        ensures
            r@ == self@,
    {
        EventNumber(self.0)
    }
}

/// A read cursor: where in a stream a read begins.
#[derive(Clone, Copy, Debug, PartialEq, Eq, Structural, Hash)]
pub enum Since {
    /// Read from the first event.
    BeginningOfStream,
    /// Read the events strictly after the given event number.
    Event(EventNumber),
}

impl Since {
    /// The position of the first event that the cursor lets through.
    pub open spec fn first_index(self) -> nat {
        match self {
            Since::BeginningOfStream => 0,
            Since::Event(number) => number@ + 1,
        }
    }
}

/// The event count behind an optional version.
pub open spec fn count_of(current: Option<Version>) -> Option<nat> {
    match current {
        None => None,
        Some(version) => Some(version@),
    }
}

/// A caller's belief about a stream, checked atomically with an append.
#[derive(Clone, Copy, Debug, PartialEq, Eq, Structural, Hash)]
pub enum Precondition {
    /// The stream must not exist yet.
    New,
    /// The stream must exist and stand at exactly this version.
    ExpectedVersion(Version),
}

impl Precondition {
    /// Whether the precondition is met by a stream that holds `current`
    /// events, where `None` stands for a stream that does not exist.
    pub open spec fn holds(self, current: Option<nat>) -> bool {
        match (self, current) {
            (Precondition::New, None) => true,
            (Precondition::ExpectedVersion(expected), Some(actual)) => expected@ == actual,
            _ => false,
        }
    }

    /// Checks the precondition against the current state of a stream and
    /// hands the violated precondition back on failure.
    pub fn verify(self, current: Option<Version>) -> (r: Result<(), Precondition>)
        ensures
            self.holds(count_of(current)) ==> r == Ok::<(), Precondition>(()),
            !self.holds(count_of(current)) ==> r == Err::<(), Precondition>(self),
    {
        match (self, current) {
            (Precondition::New, None) => Ok(()),
            (Precondition::ExpectedVersion(expected), Some(actual)) => {
                if expected.0 == actual.0 {
                    Ok(())
                } else {
                    Err(self)
                }
            },
            _ => Err(self),
        }
    }
}

/// Whether an append guarded by `precondition` may proceed on a stream that
/// holds `current` events, where `None` stands for a stream that does not
/// exist. An append without a precondition always may.
pub open spec fn admits(precondition: Option<Precondition>, current: Option<nat>) -> bool {
    match precondition {
        None => true,
        Some(p) => p.holds(current),
    }
}

/// The reason an append was rejected: the precondition that did not hold.
#[derive(Clone, Copy, Debug, PartialEq, Eq, Structural)]
pub struct PreconditionFailed(pub Precondition);

/// Decides an append to a stream whose current version is `current`, where
/// `None` stands for a stream that does not exist. Where `precondition`
/// admits the stream, the result is the number that the first appended event
/// receives: the current version, or zero for a new stream. Otherwise it is
/// the violated precondition.
pub fn decide(precondition: Option<Precondition>, current: Option<Version>) -> (outcome: Result<
    EventNumber,
    PreconditionFailed,
>)
    ensures
        admits(precondition, count_of(current)) ==> outcome == Ok::<EventNumber, PreconditionFailed>(
            match current {
                Some(version) => EventNumber(version.0),
                None => EventNumber(0),
            },
        ),
        !admits(precondition, count_of(current)) ==> {
            &&& precondition.is_some()
            &&& outcome == Err::<EventNumber, PreconditionFailed>(PreconditionFailed(precondition.unwrap()))
        },
{
    if let Some(p) = precondition {
        if let Err(violated) = p.verify(current) {
            return Err(PreconditionFailed(violated));
        }
    }
    match current {
        Some(version) => Ok(version.next_event()),
        None => Ok(EventNumber::min_value()),
    }
}

impl From<Precondition> for PreconditionFailed {
    fn from(p: Precondition) -> (r: PreconditionFailed) {
        PreconditionFailed(p)
    }
}

impl vstd::std_specs::convert::FromSpecImpl<Precondition> for PreconditionFailed {
    open spec fn obeys_from_spec() -> bool {
        true
    }

    open spec fn from_spec(p: Precondition) -> PreconditionFailed {
        PreconditionFailed(p)
    }
}

} // verus!
