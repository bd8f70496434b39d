//! The hash collections of the `ahash` crate, as the search uses them: a map
//! from a vertex to its parent and a set of vertices for a frontier.
//!
//! Verus does not look inside these collections. Each is described by what
//! it holds, and each function below states, without proof, what the
//! method it calls does to that.

use vstd::prelude::*;
use ahash::AHashMap;
use ahash::AHashSet;

verus! {

/// `ahash::AHashMap`, carried as it is: nothing is known of what is inside.
#[verifier::external_type_specification]
#[verifier::external_body]
#[verifier::reject_recursive_types(K)]
#[verifier::reject_recursive_types(V)]
#[verifier::reject_recursive_types(S)]
pub struct ExAHashMap<K, V, S>(AHashMap<K, V, S>);

/// `ahash::AHashSet`, carried as it is: nothing is known of what is inside.
#[verifier::external_type_specification]
#[verifier::external_body]
#[verifier::reject_recursive_types(T)]
#[verifier::reject_recursive_types(S)]
pub struct ExAHashSet<T, S>(AHashSet<T, S>);

/// `ahash::RandomState`, the hasher that the two collections are made with.
#[verifier::external_type_specification]
#[verifier::external_body]
pub struct ExRandomState(ahash::RandomState);

/// The key-value pairs that a map holds.
pub uninterp spec fn map_entries(m: AHashMap<usize, usize>) -> Map<usize, usize>;

/// The items that a set holds.
pub uninterp spec fn set_members(s: AHashSet<usize>) -> Set<usize>;

/// `AHashMap::default`: a map that holds nothing. The keys of its hasher
/// come from the random source of the operating system, which the first
/// call in a process asks; the contents of a map do not depend on them.
#[verifier::external_body]
pub(crate) fn map_new() -> (m: AHashMap<usize, usize>)
    ensures
        map_entries(m) =~= Map::empty(),
{
    AHashMap::default()
}

/// `AHashMap::insert`: afterwards `k` maps to `v`, whether or not it was a
/// key before, and every other key is as it was.
#[verifier::external_body]
pub(crate) fn map_insert(m: &mut AHashMap<usize, usize>, k: usize, v: usize)
    ensures
        map_entries(*final(m)) == map_entries(*old(m)).insert(k, v),
{
    m.insert(k, v);
}

/// `HashMap::contains_key`, reached through the map's `Deref`: whether `k`
/// is a key.
#[verifier::external_body]
pub(crate) fn map_contains_key(m: &AHashMap<usize, usize>, k: usize) -> (present: bool)
    ensures
        present == map_entries(*m).contains_key(k),
{
    m.contains_key(&k)
}

/// `AHashMap::index`: the value of a key that is present. The call panics
/// on a key that is absent, so such a key is not admitted.
#[verifier::external_body]
pub(crate) fn map_index(m: &AHashMap<usize, usize>, k: usize) -> (v: usize)
    requires
        map_entries(*m).contains_key(k),
    ensures
        v == map_entries(*m)[k],
{
    m[&k]
}

/// `AHashSet::default`: a set that holds nothing. Its hasher is made as
/// that of a map is.
#[verifier::external_body]
pub(crate) fn set_new() -> (s: AHashSet<usize>)
    ensures
        set_members(s) =~= Set::empty(),
{
    AHashSet::default()
}

/// `HashSet::insert`, reached through the set's `Deref`: afterwards `v` is a
/// member, and every other item is as it was.
#[verifier::external_body]
pub(crate) fn set_insert(s: &mut AHashSet<usize>, v: usize)
    ensures
        set_members(*final(s)) == set_members(*old(s)).insert(v),
{
    s.insert(v);
}

/// `HashSet::contains`, reached through the set's `Deref`: whether `v` is a
/// member.
#[verifier::external_body]
pub(crate) fn set_contains(s: &AHashSet<usize>, v: usize) -> (present: bool)
    ensures
        present == set_members(*s).contains(v),
{
    s.contains(&v)
}

/// `HashSet::is_empty`, reached through the set's `Deref`: whether the set
/// has no member.
#[verifier::external_body]
pub(crate) fn set_is_empty(s: &AHashSet<usize>) -> (empty: bool)
    ensures
        empty == (forall|v: usize| !set_members(*s).contains(v)),
{
    s.is_empty()
}

/// `HashSet::iter`, reached through the set's `Deref`: the members, each
/// handed out, in an order that nothing is said about.
#[verifier::external_body]
pub(crate) fn set_items(s: &AHashSet<usize>) -> (items: Vec<usize>)
    ensures
        forall|v: usize| items@.contains(v) <==> set_members(*s).contains(v),
{
    s.iter().copied().collect()
}

} // verus!
