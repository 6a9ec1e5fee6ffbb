use vstd::prelude::*;

use bevy_platform::collections::{HashMap, HashSet};

use crate::hierarchy::seq_has;

verus! {

#[verifier::external_type_specification]
#[verifier::external_body]
#[verifier::reject_recursive_types(K)]
#[verifier::reject_recursive_types(V)]
#[verifier::reject_recursive_types(S)]
pub struct ExHashMap<K, V, S>(bevy_platform::collections::HashMap<K, V, S>);

#[verifier::external_type_specification]
#[verifier::external_body]
pub struct ExFixedHasher(bevy_platform::hash::FixedHasher);

/// What a registry map holds: each instance identifier (a 128-bit Iid) and
/// the ECS entity (its 64-bit id) that carries it.
pub uninterp spec fn registry_entries(m: HashMap<u128, u64>) -> Map<u128, u64>;

/// Calls `bevy_platform::collections::HashMap::new`. Trusted: the new map is empty.
#[verifier::external_body]
pub(crate) fn map_new() -> (r: HashMap<u128, u64>)
    ensures
        registry_entries(r) == empty_registry(),
{
    HashMap::new()
}

/// Calls `bevy_platform::collections::HashMap::insert`. Trusted: afterwards the
/// key maps to the value and every other entry is unchanged; the old value of
/// the key, if any, is returned.
#[verifier::external_body]
pub(crate) fn map_insert(m: &mut HashMap<u128, u64>, k: u128, v: u64) -> (r: Option<u64>)
    ensures
        registry_entries(*final(m)) == registry_entries(*old(m)).insert(k, v),
        r == (if registry_entries(*old(m)).contains_key(k) {
            Some(registry_entries(*old(m))[k])
        } else {
            None
        }),
{
    m.insert(k, v)
}

/// Calls `bevy_platform::collections::HashMap::get` and copies the value out.
/// Trusted: `Some` of the value exactly when the key is present.
#[verifier::external_body]
pub(crate) fn map_get(m: &HashMap<u128, u64>, k: u128) -> (r: Option<u64>)
    ensures
        r == (if registry_entries(*m).contains_key(k) {
            Some(registry_entries(*m)[k])
        } else {
            None
        }),
{
    m.get(&k).copied()
}

/// Whether an entry that maps to `entity` survives the removal of `removed`.
pub fn entry_kept(entity: u64, removed: u64) -> (r: bool)
    ensures
        r == (entity != removed),
{
    entity != removed
}

/// Calls `bevy_platform::collections::HashMap::retain` with a predicate that
/// keeps the entries whose entity is not `removed`. Trusted: exactly those
/// entries stay, unchanged.
#[verifier::external_body]
pub(crate) fn map_retain_without(m: &mut HashMap<u128, u64>, removed: u64)
    ensures
        registry_entries(*final(m)) == without_entity(registry_entries(*old(m)), removed),
{
    m.retain(|_, entity| entry_kept(*entity, removed))
}

/// The registry with no entries.
pub open spec fn empty_registry() -> Map<u128, u64> {
    Map::empty()
}

/// The entries of `m` that do not map to `entity`.
pub open spec fn without_entity(m: Map<u128, u64>, entity: u64) -> Map<u128, u64> {
    m.restrict(m.dom().filter(|k: u128| m[k] != entity))
}


#[verifier::external_type_specification]
#[verifier::external_body]
#[verifier::reject_recursive_types(T)]
#[verifier::reject_recursive_types(S)]
pub struct ExHashSet<T, S>(bevy_platform::collections::HashSet<T, S>);

/// What a set of ECS entities (by their 64-bit ids) holds.
pub uninterp spec fn set_members(s: HashSet<u64>) -> Set<u64>;

/// The set with no members.
pub open spec fn no_entities() -> Set<u64> {
    Set::empty()
}

/// Calls `bevy_platform::collections::HashSet::new`. Trusted: the new set is empty.
#[verifier::external_body]
pub(crate) fn set_new() -> (r: HashSet<u64>)
    ensures
        set_members(r) == no_entities(),
{
    HashSet::new()
}

/// Calls `bevy_platform::collections::HashSet::insert`. Trusted: the value is
/// then a member and nothing else changes; `true` exactly when it was not a
/// member before.
#[verifier::external_body]
pub(crate) fn set_insert(s: &mut HashSet<u64>, x: u64) -> (r: bool)
    ensures
        set_members(*final(s)) == set_members(*old(s)).insert(x),
        r == !set_members(*old(s)).contains(x),
{
    s.insert(x)
}

/// Calls `bevy_platform::collections::HashSet::contains`. Trusted: membership.
#[verifier::external_body]
pub(crate) fn set_contains(s: &HashSet<u64>, x: u64) -> (r: bool)
    ensures
        r == set_members(*s).contains(x),
{
    s.contains(&x)
}

/// Calls `bevy_platform::collections::HashSet::iter` and collects the members.
/// Trusted: each member comes out exactly once; the order is the set's own.
#[verifier::external_body]
pub(crate) fn set_to_vec(s: &HashSet<u64>) -> (r: Vec<u64>)
    ensures
        r@.to_set() == set_members(*s),
        r@.no_duplicates(),
{
    s.iter().copied().collect()
}

/// Whether a member survives when the entities of `ready` leave the set.
pub fn member_kept(x: u64, ready: &[u64]) -> (r: bool)
    ensures
        r == !ready@.contains(x),
{
    !seq_has(ready, x)
}

/// Calls `bevy_platform::collections::HashSet::retain` with a predicate that
/// keeps the members not listed in `ready`. Trusted: exactly those stay.
#[verifier::external_body]
pub(crate) fn set_retain_not_in(s: &mut HashSet<u64>, ready: &[u64])
    ensures
        set_members(*final(s)) == set_members(*old(s)).filter(|x: u64| !ready@.contains(x)),
{
    s.retain(|x| member_kept(*x, ready))
}

} // verus!
