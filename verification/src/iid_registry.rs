use vstd::prelude::*;

use bevy_platform::collections::HashMap;

use crate::collections::{
    empty_registry, map_get, map_insert, map_new, map_retain_without, registry_entries,
    without_entity,
};

verus! {

/// Maps each instance identifier in use to the ECS entity that carries it.
pub struct IidRegistry {
    registry: HashMap<u128, u64>,
}

impl View for IidRegistry {
    type V = Map<u128, u64>;

    closed spec fn view(&self) -> Map<u128, u64> {
        registry_entries(self.registry)
    }
}

impl IidRegistry {
    /// An empty registry.
    pub fn new() -> (r: Self)
        ensures
            r@ == empty_registry(),
    {
        IidRegistry { registry: map_new() }
    }

    /// Records that `entity` carries `iid`; a previous entity for that iid is forgotten.
    pub fn register(&mut self, iid: u128, entity: u64)
        ensures
            final(self)@ == old(self)@.insert(iid, entity),
    {
        let _ = map_insert(&mut self.registry, iid, entity);
    }

    /// Forgets every iid carried by `entity`.
    pub fn unregister_entity(&mut self, entity: u64)
        ensures
            final(self)@ == without_entity(old(self)@, entity),
    {
        map_retain_without(&mut self.registry, entity);
    }

    /// The entity that carries `iid`, if any.
    pub fn get(&self, iid: u128) -> (r: Option<u64>)
        ensures
            r == (if self@.contains_key(iid) { Some(self@[iid]) } else { None }),
    {
        map_get(&self.registry, iid)
    }

    /// Records every newly added (entity, iid) pair, in order.
    pub fn iid_added(&mut self, added: &[(u64, u128)])
        ensures
            final(self)@ == register_all(old(self)@, added@),
    {
        let mut i: usize = 0;
        while i < added.len()
            invariant
                i <= added@.len(),
                self@ == register_all(old(self)@, added@.take(i as int)),
            decreases added@.len() - i,
        {
            let (entity, iid) = added[i];
            self.register(iid, entity);
            proof {
                assert(added@.take(i + 1).drop_last() =~= added@.take(i as int));
            }
            i = i + 1;
        }
        assert(added@.take(added@.len() as int) =~= added@);
    }

    /// Forgets the iids of every entity whose iid component was removed.
    pub fn iid_removed(&mut self, removed: &[u64])
        ensures
            final(self)@ == unregister_all(old(self)@, removed@),
    {
        let mut i: usize = 0;
        while i < removed.len()
            invariant
                i <= removed@.len(),
                self@ == unregister_all(old(self)@, removed@.take(i as int)),
            decreases removed@.len() - i,
        {
            self.unregister_entity(removed[i]);
            proof {
                assert(removed@.take(i + 1).drop_last() =~= removed@.take(i as int));
            }
            i = i + 1;
        }
        assert(removed@.take(removed@.len() as int) =~= removed@);
    }
}

/// The registry after recording each (entity, iid) pair of `added` in order.
pub open spec fn register_all(m: Map<u128, u64>, added: Seq<(u64, u128)>) -> Map<u128, u64>
    decreases added.len(),
{
    if added.len() == 0 {
        m
    } else {
        register_all(m, added.drop_last()).insert(added.last().1, added.last().0)
    }
}

/// The registry after forgetting each entity of `removed` in order.
pub open spec fn unregister_all(m: Map<u128, u64>, removed: Seq<u64>) -> Map<u128, u64>
    decreases removed.len(),
{
    if removed.len() == 0 {
        m
    } else {
        without_entity(unregister_all(m, removed.drop_last()), removed.last())
    }
}

/// After an entity is registered for an iid, looking the iid up gives that entity.
pub proof fn law_lookup_after_register(m: Map<u128, u64>, iid: u128, entity: u64)
    ensures
        m.insert(iid, entity).contains_key(iid),
        m.insert(iid, entity)[iid] == entity,
{
}

/// Once an entity is forgotten, no iid maps to it, and every entry for another
/// entity is kept as it was.
pub proof fn law_unregister_forgets_only_that_entity(m: Map<u128, u64>, entity: u64)
    ensures
        forall|k: u128| #[trigger] without_entity(m, entity).contains_key(k)
            ==> without_entity(m, entity)[k] != entity,
        forall|k: u128| m.contains_key(k) && m[k] != entity
            ==> #[trigger] without_entity(m, entity).contains_key(k)
                && without_entity(m, entity)[k] == m[k],
{
}

/// Registering a fresh iid for an entity that carries no iid, then forgetting
/// that entity, gives back the registry as it was.
pub proof fn law_unregister_undoes_register(m: Map<u128, u64>, iid: u128, entity: u64)
    requires
        !m.contains_key(iid),
        forall|k: u128| m.contains_key(k) ==> m[k] != entity,
    ensures
        without_entity(m.insert(iid, entity), entity) == m,
{
    assert(without_entity(m.insert(iid, entity), entity) =~= m);
}

} // verus!

verus! {

/// Registering a list of (entity, iid) pairs leaves each iid mapped to the
/// entity of the last pair that names it, whatever the registry held before:
/// a newer entity replaces an older one for the same iid.
pub proof fn law_last_registration_wins(m: Map<u128, u64>, added: Seq<(u64, u128)>, k: int)
    requires
        0 <= k < added.len(),
        forall|j: int| k < j < added.len() ==> (#[trigger] added[j]).1 != added[k].1,
    ensures
        register_all(m, added).contains_key(added[k].1),
        register_all(m, added)[added[k].1] == added[k].0,
    decreases added.len(),
{
    if k < added.len() - 1 {
        let rest = added.drop_last();
        assert forall|j: int| k < j < rest.len() implies (#[trigger] rest[j]).1 != rest[k].1 by {
            assert(rest[j] == added[j]);
        }
        assert(rest[k] == added[k]);
        law_last_registration_wins(m, rest, k);
        assert(added.last() == added[added.len() - 1]);
    }
}

} // verus!
