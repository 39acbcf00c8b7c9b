//! The snapshot cache: for each entity the most recently persisted state and
//! the version it reflects. A write replaces the stored pair wholesale; the
//! cache is never checked against the journal.

use vstd::prelude::*;
use crate::event::{VersionedAggregate, VersionedAggregateView};
use crate::table::Table;
use crate::version::Version;

verus! {

/// What one call of `persist_snapshot` does to a cache: afterwards `id` holds
/// the given version with a clone of the given state, and no other entry has
/// changed.
pub open spec fn persisted<A: Clone>(
    before: Map<Seq<char>, VersionedAggregate<A>>,
    id: Seq<char>,
    version: Version,
    payload: A,
    after: Map<Seq<char>, VersionedAggregate<A>>,
) -> bool {
    &&& after == before.insert(id, after[id])
    &&& after[id].version == version
    &&& cloned(payload, after[id].payload)
}

/// What one call of `get_snapshot` returns from a cache: nothing where `id`
/// has no snapshot, else the stored version with a clone of the stored state.
pub open spec fn fetched<A: Clone>(
    cache: Map<Seq<char>, VersionedAggregate<A>>,
    id: Seq<char>,
    found: Option<VersionedAggregate<A>>,
) -> bool {
    match found {
        None => !cache.contains_key(id),
        Some(snapshot) => {
            &&& cache.contains_key(id)
            &&& snapshot.version == cache[id].version
            &&& cloned(cache[id].payload, snapshot.payload)
        },
    }
}

/// A snapshot read back after it was persisted carries the version that was
/// given, and its state is a clone of the stored clone of the state that was
/// given.
pub proof fn lemma_persist_then_get<A: Clone>(
    before: Map<Seq<char>, VersionedAggregate<A>>,
    id: Seq<char>,
    version: Version,
    payload: A,
    after: Map<Seq<char>, VersionedAggregate<A>>,
    found: Option<VersionedAggregate<A>>,
)
    requires
        persisted(before, id, version, payload, after),
        fetched(after, id, found),
    ensures
        found.is_some(),
        found.unwrap().version == version,
        cloned(payload, after[id].payload),
        cloned(after[id].payload, found.unwrap().payload),
{
    assert(after.contains_key(id));
}

/// Persisting twice for one entity leaves what persisting only the second
/// pair would have left: the first pair is replaced, not merged.
pub proof fn lemma_persist_overwrites<A: Clone>(
    before: Map<Seq<char>, VersionedAggregate<A>>,
    id: Seq<char>,
    first_version: Version,
    first_payload: A,
    between: Map<Seq<char>, VersionedAggregate<A>>,
    second_version: Version,
    second_payload: A,
    after: Map<Seq<char>, VersionedAggregate<A>>,
)
    requires
        persisted(before, id, first_version, first_payload, between),
        persisted(between, id, second_version, second_payload, after),
    ensures
        persisted(before, id, second_version, second_payload, after),
{
    assert(after =~= before.insert(id, after[id]));
}

/// Persisting a snapshot for one entity leaves the snapshot of every other
/// entity, and its existence, as it was.
pub proof fn lemma_persist_leaves_others<A: Clone>(
    before: Map<Seq<char>, VersionedAggregate<A>>,
    id: Seq<char>,
    version: Version,
    payload: A,
    after: Map<Seq<char>, VersionedAggregate<A>>,
    other: Seq<char>,
)
    requires
        persisted(before, id, version, payload, after),
        other != id,
    ensures
        after.contains_key(other) == before.contains_key(other),
        before.contains_key(other) ==> after[other] == before[other],
{
}

/// An in-memory snapshot cache for states of type `A`.
pub struct StateStore<A> {
    table: Table<VersionedAggregate<A>>,
}

impl<A> View for StateStore<A> {
    type V = Map<Seq<char>, VersionedAggregate<A>>;

    closed spec fn view(&self) -> Map<Seq<char>, VersionedAggregate<A>> {
        self.table@
    }
}

impl<A: Clone> Default for StateStore<A> {
    /// A cache without snapshots.
    fn default() -> (store: StateStore<A>)
        ensures
            store.wf(),
            store@ == Map::<Seq<char>, VersionedAggregate<A>>::empty(),
    {
        StateStore { table: Table::new() }
    }
}

impl<A: Clone> StateStore<A> {
    /// The invariant of a cache: its table is coherent.
    pub closed spec fn wf(&self) -> bool {
        self.table.wf()
    }

    /// A cache without snapshots whose index hashes identifiers with
    /// `hasher`.
    pub fn with_hasher(hasher: hashbrown::hash_map::DefaultHashBuilder) -> (store: StateStore<A>)
        ensures
            store.wf(),
            store@ == Map::<Seq<char>, VersionedAggregate<A>>::empty(),
    {
        StateStore { table: Table::with_hasher(hasher) }
    }

    /// Returns a copy of the snapshot most recently persisted for `id`, or
    /// `None` if none was ever stored.
    pub fn get_snapshot(&self, id: &str) -> (found: Option<VersionedAggregate<A>>)
        requires
            self.wf(),
        ensures
            fetched(self@, id@, found),
    {
        match self.table.get(id) {
            Some(snapshot) => Some(snapshot.duplicate()),
            None => None,
        }
    }

    /// Stores the given state and version as the snapshot of `id`, replacing
    /// whatever was stored for `id` before.
    pub fn persist_snapshot(&mut self, id: &str, view: VersionedAggregateView<'_, A>)
        requires
            old(self).wf(),
        ensures
            final(self).wf(),
            persisted(old(self)@, id@, view.version, *view.payload, final(self)@),
    {
        let snapshot = view.to_aggregate();
        if self.table.contains(id) {
            let entry = self.table.entry_mut(id);
            *entry = snapshot;
        } else {
            self.table.insert_new(id, snapshot);
        }
    }
}

} // verus!
