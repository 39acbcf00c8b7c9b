//! A table from entity identifiers to per-entity resources.
//!
//! The resources live in a vector; a hash index maps each identifier to the
//! position of its resource. An entry is created by the first write for its
//! identifier and is never removed.

use vstd::prelude::*;
use crate::index::{index_default, index_get, index_insert, index_with_hasher, slots};

verus! {

/// Every identifier of the index points at an existing entry, and no two
/// identifiers point at the same one.
pub open spec fn coherent(index: Map<Seq<char>, usize>, len: nat) -> bool {
    &&& forall|id: Seq<char>| #[trigger] index.contains_key(id) ==> index[id] < len
    &&& forall|a: Seq<char>, b: Seq<char>|
        #![trigger index[a], index[b]]
        index.contains_key(a) && index.contains_key(b) && index[a] == index[b] ==> a == b
}

/// The association from identifiers to resources that an index and a
/// sequence of entries stand for.
pub open spec fn resolve<T>(index: Map<Seq<char>, usize>, entries: Seq<T>) -> Map<Seq<char>, T> {
    Map::new(|id: Seq<char>| index.contains_key(id), |id: Seq<char>| entries[index[id] as int])
}

/// Replacing the entry that an identifier points at changes what that
/// identifier is associated with, and nothing else.
pub proof fn lemma_resolve_update<T>(index: Map<Seq<char>, usize>, entries: Seq<T>, id: Seq<char>, value: T)
    requires
        coherent(index, entries.len()),
        index.contains_key(id),
    ensures
        resolve(index, entries.update(index[id] as int, value)) == resolve(index, entries).insert(id, value),
{
    let left = resolve(index, entries.update(index[id] as int, value));
    let right = resolve(index, entries).insert(id, value);
    assert forall|other: Seq<char>| left.contains_key(other) implies left[other] == right[other] by {
        if other != id {
            assert(index[other] != index[id]);
        }
    }
    assert(left =~= right);
}

/// Adding an entry at the end, and pointing a new identifier at it, adds that
/// one association and keeps the table coherent.
pub proof fn lemma_resolve_push<T>(index: Map<Seq<char>, usize>, entries: Seq<T>, id: Seq<char>, value: T)
    requires
        coherent(index, entries.len()),
        !index.contains_key(id),
        entries.len() <= usize::MAX,
    ensures
        coherent(index.insert(id, entries.len() as usize), entries.len() + 1),
        resolve(index.insert(id, entries.len() as usize), entries.push(value)) == resolve(index, entries).insert(
            id,
            value,
        ),
{
    let grown = index.insert(id, entries.len() as usize);
    let left = resolve(grown, entries.push(value));
    let right = resolve(index, entries).insert(id, value);
    assert forall|a: Seq<char>, b: Seq<char>|
        grown.contains_key(a) && grown.contains_key(b) && grown[a] == grown[b] implies a == b by {
        if a != id && b != id {
            assert(index.contains_key(a) && index.contains_key(b));
            assert(index[a] == index[b]);
        } else if a != id {
            assert(index.contains_key(a));
        } else if b != id {
            assert(index.contains_key(b));
        }
    }
    assert forall|other: Seq<char>| grown.contains_key(other) implies #[trigger] grown[other] < entries.len() + 1 by {
        if other != id {
            assert(index.contains_key(other));
        }
    }
    assert forall|other: Seq<char>| left.contains_key(other) implies left[other] == right[other] by {
        if other != id {
            assert(index.contains_key(other));
        }
    }
    assert(left =~= right);
}

/// A table of resources of type `T`, one per entity identifier.
pub struct Table<T> {
    index: hashbrown::HashMap<String, usize>,
    entries: Vec<T>,
}

impl<T> View for Table<T> {
    type V = Map<Seq<char>, T>;

    closed spec fn view(&self) -> Map<Seq<char>, T> {
        resolve(slots(self.index), self.entries@)
    }
}

impl<T> Table<T> {
    /// The invariant of a table: its index and its entries are coherent.
    pub closed spec fn wf(&self) -> bool {
        coherent(slots(self.index), self.entries@.len())
    }

    /// A table without entries.
    pub fn new() -> (table: Table<T>)
        ensures
            table.wf(),
            table@ == Map::<Seq<char>, T>::empty(),
    {
        let table = Table { index: index_default(), entries: Vec::new() };
        assert(table@ =~= Map::<Seq<char>, T>::empty());
        table
    }

    /// A table without entries whose index hashes identifiers with `hasher`.
    pub fn with_hasher(hasher: hashbrown::hash_map::DefaultHashBuilder) -> (table: Table<T>)
        ensures
            table.wf(),
            table@ == Map::<Seq<char>, T>::empty(),
    {
        let table = Table { index: index_with_hasher(hasher), entries: Vec::new() };
        assert(table@ =~= Map::<Seq<char>, T>::empty());
        table
    }

    /// Whether the table holds a resource for `id`.
    pub fn contains(&self, id: &str) -> (found: bool)
        ensures
            found == self@.contains_key(id@),
    {
        index_get(&self.index, id).is_some()
    }

    /// The resource held for `id`, if there is one.
    pub fn get(&self, id: &str) -> (found: Option<&T>)
        requires
            self.wf(),
        ensures
            self@.contains_key(id@) ==> found == Some(&self@[id@]),
            !self@.contains_key(id@) ==> found.is_none(),
    {
        match index_get(&self.index, id) {
            Some(slot) => Some(&self.entries[slot]),
            None => None,
        }
    }

    /// Exclusive access to the resource held for `id`. Whatever the caller
    /// leaves there becomes the resource of `id`; no other entry changes.
    pub fn entry_mut(&mut self, id: &str) -> (entry: &mut T)
        requires
            old(self).wf(),
            old(self)@.contains_key(id@),
        ensures
            *entry == old(self)@[id@],
            final(self).wf(),
            final(self)@ == old(self)@.insert(id@, *final(entry)),
    {
        let found = index_get(&self.index, id);
        let slot = found.unwrap();
        proof {
            let index = slots(self.index);
            let entries = self.entries@;
            assert forall|value: T|
                #[trigger] resolve(index, entries.update(slot as int, value)) == resolve(
                    index,
                    entries,
                ).insert(id@, value) by {
                lemma_resolve_update(index, entries, id@, value);
            }
        }
        &mut self.entries[slot]
    }

    /// Creates the entry for an identifier that has none yet.
    pub fn insert_new(&mut self, id: &str, value: T)
        requires
            old(self).wf(),
            !old(self)@.contains_key(id@),
        ensures
            final(self).wf(),
            final(self)@ == old(self)@.insert(id@, value),
    {
        let slot = self.entries.len();
        proof {
            lemma_resolve_push(slots(self.index), self.entries@, id@, value);
        }
        self.entries.push(value);
        index_insert(&mut self.index, id, slot);
    }
}

} // verus!
