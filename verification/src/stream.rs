//! The event stream of one entity: an append-only sequence in which the
//! event at position `k` carries event number `k`.

use vstd::prelude::*;
use crate::event::VersionedEvent;
use crate::version::{admits, decide, EventNumber, Precondition, PreconditionFailed, Since, Version};

verus! {

/// Every event carries its own position as its number, so the numbers start
/// at zero and rise by one without gap or repetition.
pub open spec fn numbered<E>(stream: Seq<VersionedEvent<E>>) -> bool {
    forall|k: int| 0 <= k < stream.len() ==> (#[trigger] stream[k]).sequence@ == k
}

/// `after` is `before` followed by one stamped clone of each event of
/// `batch`, in order: the old events are untouched, and the event at each new
/// position carries that position as its number.
pub open spec fn extended_by<E: Clone>(
    before: Seq<VersionedEvent<E>>,
    batch: Seq<E>,
    after: Seq<VersionedEvent<E>>,
) -> bool {
    &&& after.len() == before.len() + batch.len()
    &&& forall|k: int| 0 <= k < before.len() ==> #[trigger] after[k] == before[k]
    &&& forall|k: int|
        before.len() <= k < after.len() ==> {
            &&& (#[trigger] after[k]).sequence@ == k
            &&& cloned(batch[k - before.len()], after[k].event)
        }
}

/// The position at which a read with cursor `since` starts in a stream of
/// `len` events. A cursor past the end starts at the end.
pub open spec fn window_start(len: nat, since: Since) -> nat {
    if since.first_index() < len {
        since.first_index()
    } else {
        len
    }
}

/// The number of events that a read returns from a stream of `len` events:
/// all that follow the start, cut down to `max_count` where one is given.
pub open spec fn window_len(len: nat, since: Since, max_count: Option<u64>) -> nat {
    let available = (len - window_start(len, since)) as nat;
    match max_count {
        None => available,
        Some(limit) => if limit < available {
            limit as nat
        } else {
            available
        },
    }
}

/// The part of `stream` that a read with the given cursor and limit covers.
pub open spec fn window<E>(stream: Seq<VersionedEvent<E>>, since: Since, max_count: Option<u64>) -> Seq<
    VersionedEvent<E>,
> {
    let start = window_start(stream.len(), since) as int;
    stream.subrange(start, start + window_len(stream.len(), since, max_count))
}

/// `copy` repeats `source` event by event: the same numbers in the same
/// order, each payload a clone of the one it repeats.
pub open spec fn copy_of<E: Clone>(source: Seq<VersionedEvent<E>>, copy: Seq<VersionedEvent<E>>) -> bool {
    &&& copy.len() == source.len()
    &&& forall|k: int|
        0 <= k < source.len() ==> {
            &&& (#[trigger] copy[k]).sequence == source[k].sequence
            &&& cloned(source[k].event, copy[k].event)
        }
}

/// Appending to a numbered stream gives a numbered stream: the new events
/// continue the numbering without gap, repetition or reordering.
pub proof fn lemma_extension_is_numbered<E: Clone>(
    before: Seq<VersionedEvent<E>>,
    batch: Seq<E>,
    after: Seq<VersionedEvent<E>>,
)
    requires
        numbered(before),
        extended_by(before, batch, after),
    ensures
        numbered(after),
{
    assert forall|k: int| 0 <= k < after.len() implies (#[trigger] after[k]).sequence@ == k by {
        if k < before.len() {
            assert(after[k] == before[k]);
        }
    }
}

/// A read without limit after event number `n` returns exactly the events
/// whose number is greater than `n`, in ascending order of number: the event
/// at position `j` of the result is a copy of the one numbered `n + 1 + j`,
/// and every event of the stream numbered above `n` has its place in the
/// result. Where `n` is at or past the end of the stream, the result is
/// empty.
pub proof fn lemma_read_since<E: Clone>(
    stream: Seq<VersionedEvent<E>>,
    n: EventNumber,
    events: Seq<VersionedEvent<E>>,
)
    requires
        numbered(stream),
        copy_of(window(stream, Since::Event(n), None), events),
    ensures
        n@ + 1 >= stream.len() ==> events.len() == 0,
        n@ + 1 < stream.len() ==> events.len() == stream.len() - (n@ + 1),
        forall|j: int|
            0 <= j < events.len() ==> {
                &&& (#[trigger] events[j]).sequence@ == n@ + 1 + j
                &&& events[j].sequence@ > n@
                &&& cloned(stream[n@ + 1 + j].event, events[j].event)
            },
        forall|k: int|
            0 <= k < stream.len() && (#[trigger] stream[k]).sequence@ > n@ ==> {
                &&& 0 <= k - (n@ + 1) < events.len()
                &&& events[k - (n@ + 1)].sequence == stream[k].sequence
            },
{
    let source = window(stream, Since::Event(n), None);
    assert forall|j: int| 0 <= j < events.len() implies {
        &&& (#[trigger] events[j]).sequence@ == n@ + 1 + j
        &&& events[j].sequence@ > n@
        &&& cloned(stream[n@ + 1 + j].event, events[j].event)
    } by {
        assert(source[j] == stream[n@ + 1 + j]);
    }
    assert forall|k: int| 0 <= k < stream.len() && (#[trigger] stream[k]).sequence@ > n@ implies {
        &&& 0 <= k - (n@ + 1) < events.len()
        &&& events[k - (n@ + 1)].sequence == stream[k].sequence
    } by {
        assert(source[k - (n@ + 1)] == stream[k]);
    }
}

/// A read from the beginning with limit `k` returns copies of the first
/// `min(k, version)` events.
pub proof fn lemma_read_first<E: Clone>(stream: Seq<VersionedEvent<E>>, k: u64, events: Seq<VersionedEvent<E>>)
    requires
        copy_of(window(stream, Since::BeginningOfStream, Some(k)), events),
    ensures
        events.len() == if k < stream.len() {
            k as nat
        } else {
            stream.len()
        },
        copy_of(stream.take(events.len() as int), events),
{
    assert(window(stream, Since::BeginningOfStream, Some(k)) == stream.take(events.len() as int));
}

/// The events recorded for one entity.
pub struct EventStream<E> {
    events: Vec<VersionedEvent<E>>,
}

impl<E> View for EventStream<E> {
    type V = Seq<VersionedEvent<E>>;

    closed spec fn view(&self) -> Seq<VersionedEvent<E>> {
        self.events@
    }
}

impl<E: Clone> EventStream<E> {
    /// The invariant of a stream: its events are numbered by position, and
    /// their count fits the machine's index type.
    pub closed spec fn wf(&self) -> bool {
        &&& numbered(self@)
        &&& self@.len() <= usize::MAX
    }

    /// What `wf` says, for use outside this module.
    pub proof fn lemma_wf(&self)
        requires
            self.wf(),
        ensures
            numbered(self@),
            self@.len() <= usize::MAX,
    {
    }

    /// A stream without events.
    pub fn new() -> (stream: EventStream<E>)
        ensures
            stream.wf(),
            stream@.len() == 0,
    {
        EventStream { events: Vec::new() }
    }

    /// The number of events in the stream.
    pub fn version(&self) -> (v: Version)
        ensures
            v@ == self@.len(),
    {
        Version(self.events.len() as u64)
    }

    /// Returns clones of the events strictly after `since`, in ascending
    /// order of event number, at most `max_count` of them where a limit is
    /// given. A cursor at or past the end of the stream yields no events.
    pub fn read(&self, since: Since, max_count: Option<u64>) -> (events: Vec<VersionedEvent<E>>)
        ensures
            copy_of(window(self@, since, max_count), events@),
    {
        let len: usize = self.events.len();
        let start: usize = match since {
            Since::BeginningOfStream => 0,
            Since::Event(number) => if number.0 < len as u64 {
                number.0 as usize + 1
            } else {
                len
            },
        };
        let available: usize = len - start;
        let count: usize = match max_count {
            None => available,
            Some(limit) => if limit < available as u64 {
                limit as usize
            } else {
                available
            },
        };
        let ghost source = window(self@, since, max_count);
        let mut events: Vec<VersionedEvent<E>> = Vec::with_capacity(count);
        let mut taken: usize = 0;
        while taken < count
            invariant
                taken <= count,
                start + count <= len,
                len == self.events@.len(),
                source == self@.subrange(start as int, start + count),
                copy_of(source.subrange(0, taken as int), events@),
            decreases count - taken,
        {
            events.push(self.events[start + taken].duplicate());
            taken += 1;
        }
        assert(source.subrange(0, count as int) == source);
        events
    }

    /// Appends one stamped clone of each event of `events`, in order, if
    /// `precondition` holds of the stream as it stands, and returns the number
    /// given to the first of them, which is the version before the append.
    /// Otherwise the stream is left as it was and the violated precondition is
    /// returned.
    pub fn append(&mut self, events: &[E], precondition: Option<Precondition>) -> (outcome: Result<
        EventNumber,
        PreconditionFailed,
    >)
        requires
            old(self).wf(),
        ensures
            final(self).wf(),
            admits(precondition, Some(old(self)@.len())) ==> {
                &&& outcome == Ok::<EventNumber, PreconditionFailed>(EventNumber(old(self)@.len() as u64))
                &&& old(self)@.len() <= u64::MAX
                &&& extended_by(old(self)@, events@, final(self)@)
            },
            !admits(precondition, Some(old(self)@.len())) ==> {
                &&& precondition.is_some()
                &&& outcome == Err::<EventNumber, PreconditionFailed>(PreconditionFailed(precondition.unwrap()))
                &&& final(self)@ == old(self)@
            },
    {
        let outcome = decide(precondition, Some(self.version()));
        if outcome.is_ok() {
            self.extend(events);
        }
        outcome
    }

    /// Appends one stamped clone of each event of `events`, in order.
    pub fn extend(&mut self, events: &[E])
        requires
            old(self).wf(),
        ensures
            final(self).wf(),
            extended_by(old(self)@, events@, final(self)@),
    {
        let ghost before = self@;
        let mut done: usize = 0;
        while done < events.len()
            invariant
                done <= events.len(),
                extended_by(before, events@.subrange(0, done as int), self@),
            decreases events.len() - done,
        {
            let number = EventNumber(self.events.len() as u64);
            self.events.push(VersionedEvent { sequence: number, event: events[done].clone() });
            done += 1;
        }
        assert(events@.subrange(0, done as int) == events@);
        assert(self.events@.len() == self.events.len());
    }
}

} // verus!
