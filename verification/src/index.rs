//! The identifier index: a hash table from entity identifiers to slot numbers.
//!
//! The table itself is `hashbrown::HashMap`. Its behaviour is not proved here;
//! this module states, over the map [`slots`], what the calls made by the
//! stores return and change, and everything else in the crate is proved
//! against those statements.

use vstd::prelude::*;

verus! {

/// Makes `hashbrown::HashMap` known as an opaque type: nothing is assumed of
/// a value of it but what the functions below state.
#[verifier::external_type_specification]
#[verifier::external_body]
#[verifier::reject_recursive_types(K)]
#[verifier::reject_recursive_types(V)]
#[verifier::reject_recursive_types(S)]
pub struct ExHashMap<K, V, S>(hashbrown::HashMap<K, V, S>);

/// Makes the hash builder that `hashbrown` uses by default known as an opaque
/// type, so that a caller can hand in one of its own seeding.
#[verifier::external_type_specification]
#[verifier::external_body]
pub struct ExDefaultHashBuilder(hashbrown::hash_map::DefaultHashBuilder);

/// The association held by an index: each identifier present, as a sequence
/// of characters, with the slot number stored under it.
pub uninterp spec fn slots(index: hashbrown::HashMap<String, usize>) -> Map<Seq<char>, usize>;

/// Calls `hashbrown::HashMap::default`. Trusted: the fresh table holds no
/// identifier.
#[verifier::external_body]
pub(crate) fn index_default() -> (fresh: hashbrown::HashMap<String, usize>)
    ensures
        slots(fresh).dom() == Set::<Seq<char>>::empty(),
{
    hashbrown::HashMap::default()
}

/// Calls `hashbrown::HashMap::with_hasher`. Trusted: the fresh table holds no
/// identifier, whatever the hash builder.
#[verifier::external_body]
pub(crate) fn index_with_hasher(hasher: hashbrown::hash_map::DefaultHashBuilder) -> (fresh: hashbrown::HashMap<
    String,
    usize,
>)
    ensures
        slots(fresh).dom() == Set::<Seq<char>>::empty(),
{
    hashbrown::HashMap::with_hasher(hasher)
}

/// Calls `hashbrown::HashMap::get`. Trusted: the result is the slot number
/// stored under `id`, and `None` exactly when `id` is absent.
#[verifier::external_body]
pub(crate) fn index_get(index: &hashbrown::HashMap<String, usize>, id: &str) -> (slot: Option<usize>)
    ensures
        slots(*index).contains_key(id@) ==> slot == Some(slots(*index)[id@]),
        !slots(*index).contains_key(id@) ==> slot.is_none(),
{
    index.get(id).copied()
}

/// Calls `hashbrown::HashMap::insert`. Trusted: afterwards `id` is associated
/// with `slot`, whether or not it was present before, and every other
/// identifier keeps its association.
#[verifier::external_body]
pub(crate) fn index_insert(index: &mut hashbrown::HashMap<String, usize>, id: &str, slot: usize)
    ensures
        slots(*final(index)) == slots(*old(index)).insert(id@, slot),
{
    index.insert(id.into(), slot);
}

} // verus!
