//! The event journal: one append-only stream per entity, with appends gated
//! by optimistic-concurrency preconditions and windowed reads.

use vstd::prelude::*;
use crate::event::VersionedEvent;
use crate::stream::{copy_of, extended_by, lemma_extension_is_numbered, numbered, window, EventStream};
use crate::table::Table;
use crate::version::{admits, decide, EventNumber, Precondition, PreconditionFailed, Since, Version};

verus! {

/// The number of events recorded for `id`, or `None` where `id` has no
/// stream.
pub open spec fn current_version<E>(journal: Map<Seq<char>, Seq<VersionedEvent<E>>>, id: Seq<char>) -> Option<
    nat,
> {
    if journal.contains_key(id) {
        Some(journal[id].len())
    } else {
        None
    }
}

/// The events recorded for `id`; none where `id` has no stream.
pub open spec fn stream_of<E>(journal: Map<Seq<char>, Seq<VersionedEvent<E>>>, id: Seq<char>) -> Seq<
    VersionedEvent<E>,
> {
    if journal.contains_key(id) {
        journal[id]
    } else {
        Seq::empty()
    }
}

/// What one call of `append_events` does to a journal.
///
/// Where the precondition admits the stream as it stands, the outcome is the
/// number of events recorded so far, the stream of `id` afterwards is the
/// old one extended by the batch, and no other stream changes. Otherwise the
/// outcome is the violated precondition and the journal is unchanged.
pub open spec fn appended<E: Clone>(
    before: Map<Seq<char>, Seq<VersionedEvent<E>>>,
    id: Seq<char>,
    batch: Seq<E>,
    precondition: Option<Precondition>,
    after: Map<Seq<char>, Seq<VersionedEvent<E>>>,
    outcome: Result<EventNumber, PreconditionFailed>,
) -> bool {
    if admits(precondition, current_version(before, id)) {
        &&& stream_of(before, id).len() <= u64::MAX
        &&& outcome == Ok::<EventNumber, PreconditionFailed>(EventNumber(stream_of(before, id).len() as u64))
        &&& after == before.insert(id, after[id])
        &&& extended_by(stream_of(before, id), batch, after[id])
    } else {
        &&& precondition.is_some()
        &&& outcome == Err::<EventNumber, PreconditionFailed>(PreconditionFailed(precondition.unwrap()))
        &&& after == before
    }
}

/// What one call of `read_events` returns from a journal: nothing where `id`
/// has no stream, else a copy of the window that the cursor and the limit
/// select from its stream.
pub open spec fn read_from<E: Clone>(
    journal: Map<Seq<char>, Seq<VersionedEvent<E>>>,
    id: Seq<char>,
    since: Since,
    max_count: Option<u64>,
    found: Option<Vec<VersionedEvent<E>>>,
) -> bool {
    match found {
        None => !journal.contains_key(id),
        Some(events) => journal.contains_key(id) && copy_of(window(journal[id], since, max_count), events@),
    }
}

/// An append to an entity without a stream succeeds under `New`, creating
/// the stream and returning event number zero, and fails under
/// `ExpectedVersion(v)` for every `v`, changing nothing.
pub proof fn lemma_append_to_absent<E: Clone>(
    before: Map<Seq<char>, Seq<VersionedEvent<E>>>,
    id: Seq<char>,
    batch: Seq<E>,
    precondition: Precondition,
    after: Map<Seq<char>, Seq<VersionedEvent<E>>>,
    outcome: Result<EventNumber, PreconditionFailed>,
)
    requires
        !before.contains_key(id),
        appended(before, id, batch, Some(precondition), after, outcome),
    ensures
        precondition == Precondition::New ==> {
            &&& outcome == Ok::<EventNumber, PreconditionFailed>(EventNumber(0))
            &&& after.contains_key(id)
            &&& after[id].len() == batch.len()
        },
        precondition != Precondition::New ==> {
            &&& outcome == Err::<EventNumber, PreconditionFailed>(PreconditionFailed(precondition))
            &&& after == before
        },
{
}

/// An append to a stream at version `v` succeeds under `ExpectedVersion(v)`,
/// returning `v` and raising the version by the length of the batch, and
/// fails under every other expected version, leaving the journal, and with it
/// the result of every read, as it was.
pub proof fn lemma_append_to_existing<E: Clone>(
    before: Map<Seq<char>, Seq<VersionedEvent<E>>>,
    id: Seq<char>,
    batch: Seq<E>,
    expected: Version,
    after: Map<Seq<char>, Seq<VersionedEvent<E>>>,
    outcome: Result<EventNumber, PreconditionFailed>,
)
    requires
        before.contains_key(id),
        appended(before, id, batch, Some(Precondition::ExpectedVersion(expected)), after, outcome),
    ensures
        expected@ == before[id].len() ==> {
            &&& outcome == Ok::<EventNumber, PreconditionFailed>(EventNumber(expected.0))
            &&& after.contains_key(id)
            &&& after[id].len() == before[id].len() + batch.len()
        },
        expected@ != before[id].len() ==> {
            &&& outcome == Err::<EventNumber, PreconditionFailed>(
                PreconditionFailed(Precondition::ExpectedVersion(expected)),
            )
            &&& after == before
        },
{
}

/// A successful append returns the version before it, and that number plus
/// the length of the batch is the version after it. The stream exists from
/// then on, whether or not it did before.
pub proof fn lemma_append_advances_version<E: Clone>(
    before: Map<Seq<char>, Seq<VersionedEvent<E>>>,
    id: Seq<char>,
    batch: Seq<E>,
    precondition: Option<Precondition>,
    after: Map<Seq<char>, Seq<VersionedEvent<E>>>,
    first: EventNumber,
)
    requires
        appended(before, id, batch, precondition, after, Ok(first)),
    ensures
        first@ == stream_of(before, id).len(),
        current_version(after, id) == Some(first@ + batch.len()),
{
}

/// A rejected append changes nothing, and what it returns is the
/// precondition it was given.
pub proof fn lemma_rejected_append_changes_nothing<E: Clone>(
    before: Map<Seq<char>, Seq<VersionedEvent<E>>>,
    id: Seq<char>,
    batch: Seq<E>,
    precondition: Option<Precondition>,
    after: Map<Seq<char>, Seq<VersionedEvent<E>>>,
    failed: PreconditionFailed,
)
    requires
        appended(before, id, batch, precondition, after, Err(failed)),
    ensures
        after == before,
        precondition == Some(failed.0),
        !failed.0.holds(current_version(before, id)),
{
}

/// An append without a precondition always succeeds.
pub proof fn lemma_unguarded_append_succeeds<E: Clone>(
    before: Map<Seq<char>, Seq<VersionedEvent<E>>>,
    id: Seq<char>,
    batch: Seq<E>,
    after: Map<Seq<char>, Seq<VersionedEvent<E>>>,
    outcome: Result<EventNumber, PreconditionFailed>,
)
    requires
        appended(before, id, batch, None, after, outcome),
    ensures
        outcome.is_ok(),
{
}

/// An admitted append of an empty batch to an existing stream changes
/// nothing and reports the current version.
pub proof fn lemma_empty_batch_changes_nothing<E: Clone>(
    before: Map<Seq<char>, Seq<VersionedEvent<E>>>,
    id: Seq<char>,
    batch: Seq<E>,
    precondition: Option<Precondition>,
    after: Map<Seq<char>, Seq<VersionedEvent<E>>>,
    first: EventNumber,
)
    requires
        before.contains_key(id),
        batch.len() == 0,
        appended(before, id, batch, precondition, after, Ok(first)),
    ensures
        after == before,
        first@ == before[id].len(),
{
    assert(after[id] =~= before[id]);
    assert(after =~= before);
}

/// An append keeps the numbering of the stream it is made to: where the
/// events of `id` were numbered by position before, they are so afterwards.
pub proof fn lemma_append_keeps_numbering<E: Clone>(
    before: Map<Seq<char>, Seq<VersionedEvent<E>>>,
    id: Seq<char>,
    batch: Seq<E>,
    precondition: Option<Precondition>,
    after: Map<Seq<char>, Seq<VersionedEvent<E>>>,
    outcome: Result<EventNumber, PreconditionFailed>,
)
    requires
        numbered(stream_of(before, id)),
        appended(before, id, batch, precondition, after, outcome),
    ensures
        numbered(stream_of(after, id)),
{
    if admits(precondition, current_version(before, id)) {
        lemma_extension_is_numbered(stream_of(before, id), batch, after[id]);
    }
}

/// An append to one entity leaves the stream of every other entity, and its
/// existence, as it was, and removes no stream.
pub proof fn lemma_append_leaves_others<E: Clone>(
    before: Map<Seq<char>, Seq<VersionedEvent<E>>>,
    id: Seq<char>,
    batch: Seq<E>,
    precondition: Option<Precondition>,
    after: Map<Seq<char>, Seq<VersionedEvent<E>>>,
    outcome: Result<EventNumber, PreconditionFailed>,
    other: Seq<char>,
)
    requires
        appended(before, id, batch, precondition, after, outcome),
        other != id,
    ensures
        after.contains_key(other) == before.contains_key(other),
        before.contains_key(other) ==> after[other] == before[other],
        before.contains_key(id) ==> after.contains_key(id),
{
}

/// The number of events in the first `upto` batches.
pub open spec fn total_len<E>(batches: Seq<Seq<E>>, upto: nat) -> nat
    decreases upto,
{
    if upto == 0 {
        0
    } else {
        total_len(batches, (upto - 1) as nat) + batches[upto - 1].len()
    }
}

/// Whether event number `k` lies in the piece of one of the appends: at or
/// after its first event number, and before that number plus its length.
pub open spec fn covered<E>(firsts: Seq<EventNumber>, batches: Seq<Seq<E>>, k: nat) -> bool {
    exists|i: int| 0 <= i < firsts.len() && (#[trigger] firsts[i])@ <= k < firsts[i]@ + batches[i].len()
}

proof fn lemma_total_len_monotone<E>(batches: Seq<Seq<E>>, i: nat, j: nat)
    requires
        i <= j,
    ensures
        total_len(batches, i) <= total_len(batches, j),
    decreases j,
{
    if i < j {
        lemma_total_len_monotone(batches, i, (j - 1) as nat);
    }
}

proof fn lemma_total_len_cover<E>(batches: Seq<Seq<E>>, n: nat, k: nat) -> (i: nat)
    requires
        k < total_len(batches, n),
    ensures
        i < n,
        total_len(batches, i) <= k < total_len(batches, i) + batches[i as int].len(),
    decreases n,
{
    if k < total_len(batches, (n - 1) as nat) {
        lemma_total_len_cover(batches, (n - 1) as nat, k)
    } else {
        (n - 1) as nat
    }
}

proof fn lemma_versions_along_appends<E: Clone>(
    states: Seq<Map<Seq<char>, Seq<VersionedEvent<E>>>>,
    id: Seq<char>,
    batches: Seq<Seq<E>>,
    preconditions: Seq<Option<Precondition>>,
    firsts: Seq<EventNumber>,
    i: nat,
)
    requires
        states.len() == batches.len() + 1,
        preconditions.len() == batches.len(),
        firsts.len() == batches.len(),
        stream_of(states[0], id).len() == 0,
        forall|i: int|
            0 <= i < batches.len() ==> appended(
                states[i],
                id,
                #[trigger] batches[i],
                preconditions[i],
                states[i + 1],
                Ok(firsts[i]),
            ),
        i <= batches.len(),
    ensures
        stream_of(states[i as int], id).len() == total_len(batches, i),
    decreases i,
{
    if i > 0 {
        lemma_versions_along_appends(states, id, batches, preconditions, firsts, (i - 1) as nat);
        assert(appended(
            states[i - 1],
            id,
            batches[i - 1],
            preconditions[i - 1],
            states[i - 1 + 1],
            Ok(firsts[i - 1]),
        ));
    }
}

/// Over any run of successful appends to one entity, starting from an empty
/// history, the returned first event numbers and the batch lengths cut
/// `[0, final version)` into consecutive pieces: each append returns the
/// number of events appended before it, the last piece ends at the final
/// version, no two pieces overlap, and every event number below the final
/// version lies in one of them.
pub proof fn lemma_appends_partition<E: Clone>(
    states: Seq<Map<Seq<char>, Seq<VersionedEvent<E>>>>,
    id: Seq<char>,
    batches: Seq<Seq<E>>,
    preconditions: Seq<Option<Precondition>>,
    firsts: Seq<EventNumber>,
)
    requires
        states.len() == batches.len() + 1,
        preconditions.len() == batches.len(),
        firsts.len() == batches.len(),
        stream_of(states[0], id).len() == 0,
        forall|i: int|
            0 <= i < batches.len() ==> appended(
                states[i],
                id,
                #[trigger] batches[i],
                preconditions[i],
                states[i + 1],
                Ok(firsts[i]),
            ),
    ensures
        stream_of(states.last(), id).len() == total_len(batches, batches.len()),
        forall|i: int| 0 <= i < firsts.len() ==> (#[trigger] firsts[i])@ == total_len(batches, i as nat),
        forall|i: int|
            0 <= i < firsts.len() ==> (#[trigger] firsts[i])@ + batches[i].len() == total_len(
                batches,
                (i + 1) as nat,
            ),
        forall|i: int, j: int|
            0 <= i < j < firsts.len() ==> (#[trigger] firsts[i])@ + batches[i].len() <= (#[trigger] firsts[j])@,
        forall|k: nat| k < total_len(batches, batches.len()) ==> #[trigger] covered(firsts, batches, k),
{
    lemma_versions_along_appends(states, id, batches, preconditions, firsts, batches.len());
    assert forall|i: int| 0 <= i < firsts.len() implies (#[trigger] firsts[i])@ == total_len(
        batches,
        i as nat,
    ) by {
        lemma_versions_along_appends(states, id, batches, preconditions, firsts, i as nat);
        assert(appended(states[i], id, batches[i], preconditions[i], states[i + 1], Ok(firsts[i])));
    }
    assert forall|i: int, j: int| 0 <= i < j < firsts.len() implies (#[trigger] firsts[i])@ + batches[i].len() <= (
    #[trigger] firsts[j])@ by {
        lemma_total_len_monotone(batches, (i + 1) as nat, j as nat);
    }
    assert forall|k: nat| k < total_len(batches, batches.len()) implies #[trigger] covered(
        firsts,
        batches,
        k,
    ) by {
        let i = lemma_total_len_cover(batches, batches.len(), k);
        assert(firsts[i as int]@ <= k < firsts[i as int]@ + batches[i as int].len());
    }
}

proof fn lemma_rejected_after_first<E: Clone>(
    states: Seq<Map<Seq<char>, Seq<VersionedEvent<E>>>>,
    id: Seq<char>,
    batches: Seq<Seq<E>>,
    expected: Version,
    outcomes: Seq<Result<EventNumber, PreconditionFailed>>,
    i: nat,
)
    requires
        states.len() == batches.len() + 1,
        outcomes.len() == batches.len(),
        states[0].contains_key(id),
        states[0][id].len() == expected@,
        forall|i: int|
            0 <= i < batches.len() ==> (#[trigger] batches[i]).len() > 0 && appended(
                states[i],
                id,
                batches[i],
                Some(Precondition::ExpectedVersion(expected)),
                states[i + 1],
                outcomes[i],
            ),
        1 <= i <= batches.len(),
    ensures
        states[i as int] == states[1],
        outcomes[0] == Ok::<EventNumber, PreconditionFailed>(EventNumber(expected.0)),
        states[1].contains_key(id),
        states[1][id].len() == expected@ + batches[0].len(),
        i > 1 ==> outcomes[i - 1] == Err::<EventNumber, PreconditionFailed>(
            PreconditionFailed(Precondition::ExpectedVersion(expected)),
        ),
    decreases i,
{
    let guard = Some(Precondition::ExpectedVersion(expected));
    assert(appended(states[0], id, batches[0], guard, states[1], outcomes[0]));
    if i > 1 {
        lemma_rejected_after_first(states, id, batches, expected, outcomes, (i - 1) as nat);
        assert(appended(states[i - 1], id, batches[i - 1], guard, states[i - 1 + 1], outcomes[i - 1]));
    }
}

/// Of any number of appends of non-empty batches that all expect the same
/// version `v` of one stream standing at `v`, taken in whatever order they
/// reach the stream, exactly the first succeeds: it returns `v`, every later
/// one is rejected with its precondition, and the stream ends at `v` plus the
/// length of the first batch, as if the others had never been made.
pub proof fn lemma_competing_appends<E: Clone>(
    states: Seq<Map<Seq<char>, Seq<VersionedEvent<E>>>>,
    id: Seq<char>,
    batches: Seq<Seq<E>>,
    expected: Version,
    outcomes: Seq<Result<EventNumber, PreconditionFailed>>,
)
    requires
        states.len() == batches.len() + 1,
        outcomes.len() == batches.len(),
        batches.len() >= 1,
        states[0].contains_key(id),
        states[0][id].len() == expected@,
        forall|i: int|
            0 <= i < batches.len() ==> (#[trigger] batches[i]).len() > 0 && appended(
                states[i],
                id,
                batches[i],
                Some(Precondition::ExpectedVersion(expected)),
                states[i + 1],
                outcomes[i],
            ),
    ensures
        outcomes[0] == Ok::<EventNumber, PreconditionFailed>(EventNumber(expected.0)),
        forall|i: int|
            1 <= i < outcomes.len() ==> #[trigger] outcomes[i] == Err::<EventNumber, PreconditionFailed>(
                PreconditionFailed(Precondition::ExpectedVersion(expected)),
            ),
        states.last() == states[1],
        states.last().contains_key(id),
        states.last()[id].len() == expected@ + batches[0].len(),
{
    lemma_rejected_after_first(states, id, batches, expected, outcomes, batches.len());
    assert forall|i: int| 1 <= i < outcomes.len() implies #[trigger] outcomes[i] == Err::<
        EventNumber,
        PreconditionFailed,
    >(PreconditionFailed(Precondition::ExpectedVersion(expected))) by {
        lemma_rejected_after_first(states, id, batches, expected, outcomes, (i + 1) as nat);
    }
}

/// An in-memory event journal for events of type `E`.
pub struct EventStore<E> {
    table: Table<EventStream<E>>,
}

impl<E> View for EventStore<E> {
    type V = Map<Seq<char>, Seq<VersionedEvent<E>>>;

    closed spec fn view(&self) -> Map<Seq<char>, Seq<VersionedEvent<E>>> {
        Map::new(|id: Seq<char>| self.table@.contains_key(id), |id: Seq<char>| self.table@[id]@)
    }
}

impl<E: Clone> Default for EventStore<E> {
    /// A journal without streams.
    fn default() -> (store: EventStore<E>)
        ensures
            store.wf(),
            store@ == Map::<Seq<char>, Seq<VersionedEvent<E>>>::empty(),
    {
        let store = EventStore { table: Table::new() };
        assert(store@ =~= Map::<Seq<char>, Seq<VersionedEvent<E>>>::empty());
        store
    }
}

impl<E: Clone> EventStore<E> {
    /// The invariant of a journal: its table is coherent and every stream in
    /// it is well formed.
    pub closed spec fn wf(&self) -> bool {
        &&& self.table.wf()
        &&& forall|id: Seq<char>| #[trigger] self.table@.contains_key(id) ==> self.table@[id].wf()
    }

    /// In every stream of a well-formed journal the event at position `k`
    /// carries event number `k`: the numbers of one entity start at zero and
    /// rise by one, without gap, repetition or reordering.
    pub proof fn lemma_streams_numbered(&self, id: Seq<char>)
        requires
            self.wf(),
            self@.contains_key(id),
        ensures
            numbered(self@[id]),
            self@[id].len() <= usize::MAX,
    {
        assert(self.table@.contains_key(id));
        self.table@[id].lemma_wf();
    }

    /// A journal without streams whose index hashes identifiers with
    /// `hasher`.
    pub fn with_hasher(hasher: hashbrown::hash_map::DefaultHashBuilder) -> (store: EventStore<E>)
        ensures
            store.wf(),
            store@ == Map::<Seq<char>, Seq<VersionedEvent<E>>>::empty(),
    {
        let store = EventStore { table: Table::with_hasher(hasher) };
        assert(store@ =~= Map::<Seq<char>, Seq<VersionedEvent<E>>>::empty());
        store
    }

    /// Reads the events of `id` strictly after `since`, in ascending order
    /// of event number, at most `max_count` of them where a limit is given.
    /// Returns `None` exactly when `id` has no stream; a cursor at or past
    /// the end of an existing stream yields an empty sequence.
    pub fn read_events(&self, id: &str, since: Since, max_count: Option<u64>) -> (found: Option<
        Vec<VersionedEvent<E>>,
    >)
        requires
            self.wf(),
        ensures
            read_from(self@, id@, since, max_count, found),
    {
        match self.table.get(id) {
            Some(stream) => Some(stream.read(since, max_count)),
            None => None,
        }
    }

    /// Appends `events` to the stream of `id` if `precondition` holds of it,
    /// creating the stream where `id` has none, and returns the number given
    /// to the first event of the batch. Otherwise returns the violated
    /// precondition and changes nothing.
    pub fn append_events(&mut self, id: &str, events: &[E], precondition: Option<Precondition>) -> (outcome:
        Result<EventNumber, PreconditionFailed>)
        requires
            old(self).wf(),
        ensures
            final(self).wf(),
            appended(old(self)@, id@, events@, precondition, final(self)@, outcome),
    {
        if self.table.contains(id) {
            let stream = self.table.entry_mut(id);
            let outcome = stream.append(events, precondition);
            proof {
                if outcome.is_ok() {
                    assert(self@ =~= old(self)@.insert(id@, self@[id@]));
                } else {
                    assert(self@ =~= old(self)@);
                }
            }
            outcome
        } else {
            let outcome = decide(precondition, None);
            if outcome.is_ok() {
                let mut stream = EventStream::new();
                stream.extend(events);
                self.table.insert_new(id, stream);
                assert(self@ =~= old(self)@.insert(id@, self@[id@]));
            }
            outcome
        }
    }
}

} // verus!
