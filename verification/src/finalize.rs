use vstd::prelude::*;

use bevy_platform::collections::HashSet;

use crate::collections::{
    no_entities, set_insert, set_members, set_new, set_retain_not_in, set_to_vec,
};
use crate::hierarchy::seq_has;
use crate::seqs::lemma_take_one_more_contains;

verus! {

/// The kind of an asset event.
#[derive(Clone, Copy, Debug, PartialEq, Eq)]
pub enum AssetEventKind {
    Added,
    Modified,
    Removed,
    Unused,
    LoadedWithDependencies,
}

/// Whether some event of `events` (kind, asset key) is a modification of `id`.
pub open spec fn modified_in(events: Seq<(AssetEventKind, u64)>, id: u64) -> bool {
    exists|i: int| 0 <= i < events.len() && #[trigger] events[i] == (AssetEventKind::Modified, id)
}

/// Whether an entity must be finalized again: its asset or its configuration
/// was modified, or its component changed. `components` lists each entity with
/// its asset key and configuration key.
pub open spec fn needs_finalize(
    entity: u64,
    asset_events: Seq<(AssetEventKind, u64)>,
    config_events: Seq<(AssetEventKind, u64)>,
    components: Seq<(u64, u64, u64)>,
    changed: Seq<u64>,
) -> bool {
    ||| exists|i: int| 0 <= i < components.len() && (#[trigger] components[i]).0 == entity
        && modified_in(asset_events, components[i].1)
    ||| exists|i: int| 0 <= i < components.len() && (#[trigger] components[i]).0 == entity
        && modified_in(config_events, components[i].2)
    ||| changed.contains(entity)
}

/// The entities waiting until their asset is loaded to be finalized.
pub struct AwaitingFinalize {
    map: HashSet<u64>,
}

impl View for AwaitingFinalize {
    type V = Set<u64>;

    closed spec fn view(&self) -> Set<u64> {
        set_members(self.map)
    }
}

/// Whether an event list holds a modification of `id`.
pub fn has_modified(events: &[(AssetEventKind, u64)], id: u64) -> (r: bool)
    ensures
        r == modified_in(events@, id),
{
    let mut i: usize = 0;
    while i < events.len()
        invariant
            i <= events@.len(),
            forall|j: int| 0 <= j < i ==> events@[j] != (AssetEventKind::Modified, id),
        decreases events@.len() - i,
    {
        let (kind, key) = events[i];
        match kind {
            AssetEventKind::Modified => {
                if key == id {
                    assert(events@[i as int] == (AssetEventKind::Modified, id));
                    return true;
                }
            },
            _ => {},
        }
        i = i + 1;
    }
    false
}

impl Default for AwaitingFinalize {
    /// Nothing is waiting.
    fn default() -> (r: Self)
        ensures
            r@ == no_entities(),
    {
        AwaitingFinalize { map: set_new() }
    }
}

impl AwaitingFinalize {
    /// Whether `entity` is waiting.
    pub fn contains(&self, entity: u64) -> (r: bool)
        ensures
            r == self@.contains(entity),
    {
        crate::collections::set_contains(&self.map, entity)
    }

    /// The waiting entities, each once, in the set's order.
    pub fn members(&self) -> (r: Vec<u64>)
        ensures
            r@.to_set() == self@,
            r@.no_duplicates(),
    {
        set_to_vec(&self.map)
    }

    /// Queues `entity`.
    pub fn insert(&mut self, entity: u64)
        ensures
            final(self)@ == old(self)@.insert(entity),
    {
        let _ = set_insert(&mut self.map, entity);
    }

    /// Queues every entity whose asset or configuration was modified (by a
    /// `Modified` event) or whose component changed.
    pub fn handle_ldtk_component_added(
        &mut self,
        asset_events: &[(AssetEventKind, u64)],
        config_events: &[(AssetEventKind, u64)],
        components: &[(u64, u64, u64)],
        changed: &[u64],
    )
        ensures
            forall|e: u64| #[trigger] final(self)@.contains(e) <==> (old(self)@.contains(e)
                || needs_finalize(e, asset_events@, config_events@, components@, changed@)),
    {
        let mut i: usize = 0;
        while i < components.len()
            invariant
                i <= components@.len(),
                forall|e: u64| #[trigger] self@.contains(e) <==> (old(self)@.contains(e)
                    || exists|j: int| 0 <= j < i && (#[trigger] components@[j]).0 == e
                        && (modified_in(asset_events@, components@[j].1)
                            || modified_in(config_events@, components@[j].2))),
            decreases components@.len() - i,
        {
            let (entity, asset, config) = components[i];
            if has_modified(asset_events, asset) || has_modified(config_events, config) {
                self.insert(entity);
            }
            proof {
                assert forall|e: u64| #[trigger] self@.contains(e) <==> (old(self)@.contains(e)
                    || exists|j: int| 0 <= j < i + 1 && (#[trigger] components@[j]).0 == e
                        && (modified_in(asset_events@, components@[j].1)
                            || modified_in(config_events@, components@[j].2))) by {
                    if exists|j: int| 0 <= j < i + 1 && (#[trigger] components@[j]).0 == e
                        && (modified_in(asset_events@, components@[j].1)
                            || modified_in(config_events@, components@[j].2)) {
                        let j = choose|j: int| 0 <= j < i + 1 && (#[trigger] components@[j]).0 == e
                            && (modified_in(asset_events@, components@[j].1)
                                || modified_in(config_events@, components@[j].2));
                        if j < i {
                            assert(exists|k: int| 0 <= k < i && (#[trigger] components@[k]).0 == e
                                && (modified_in(asset_events@, components@[k].1)
                                    || modified_in(config_events@, components@[k].2)));
                        }
                    }
                }
            }
            i = i + 1;
        }
        let mut k: usize = 0;
        while k < changed.len()
            invariant
                k <= changed@.len(),
                i == components@.len(),
                forall|e: u64| #[trigger] self@.contains(e) <==> (old(self)@.contains(e)
                    || (exists|j: int| 0 <= j < i && (#[trigger] components@[j]).0 == e
                        && (modified_in(asset_events@, components@[j].1)
                            || modified_in(config_events@, components@[j].2)))
                    || changed@.take(k as int).contains(e)),
            decreases changed@.len() - k,
        {
            let entity = changed[k];
            let ghost before = self@;
            self.insert(entity);
            proof {
                assert forall|e: u64| #[trigger] self@.contains(e) <==> (old(self)@.contains(e)
                    || (exists|j: int| 0 <= j < i && (#[trigger] components@[j]).0 == e
                        && (modified_in(asset_events@, components@[j].1)
                            || modified_in(config_events@, components@[j].2)))
                    || changed@.take(k + 1).contains(e)) by {
                    lemma_take_one_more_contains(changed@, k as int, e);
                    assert(self@.contains(e) <==> (before.contains(e) || e == entity));
                }
            }
            k = k + 1;
        }
        assert(changed@.take(changed@.len() as int) =~= changed@);
        assert forall|e: u64| #[trigger] self@.contains(e) <==> (old(self)@.contains(e)
            || needs_finalize(e, asset_events@, config_events@, components@, changed@)) by {
            if exists|j: int| 0 <= j < components@.len() && (#[trigger] components@[j]).0 == e
                && modified_in(asset_events@, components@[j].1) {
                let j = choose|j: int| 0 <= j < components@.len() && (#[trigger] components@[j]).0 == e
                    && modified_in(asset_events@, components@[j].1);
                assert(components@[j].0 == e);
            }
            if exists|j: int| 0 <= j < components@.len() && (#[trigger] components@[j]).0 == e
                && modified_in(config_events@, components@[j].2) {
                let j = choose|j: int| 0 <= j < components@.len() && (#[trigger] components@[j]).0 == e
                    && modified_in(config_events@, components@[j].2);
                assert(components@[j].0 == e);
            }
        }
    }

    /// Sends the finalize message for every waiting entity that is present and
    /// whose asset is loaded (the entities of `ready`), and stops waiting for
    /// them. Returns the entities messaged, each once.
    pub fn send_finalize_if_ready(&mut self, ready: &[u64]) -> (sent: Vec<u64>)
        ensures
            sent@.to_set() == old(self)@.filter(|e: u64| ready@.contains(e)),
            sent@.no_duplicates(),
            final(self)@ == old(self)@.filter(|e: u64| !ready@.contains(e)),
    {
        let members = self.members();
        let mut sent: Vec<u64> = Vec::new();
        let mut i: usize = 0;
        while i < members.len()
            invariant
                i <= members@.len(),
                members@.no_duplicates(),
                sent@.no_duplicates(),
                forall|e: u64| #[trigger] sent@.contains(e) <==> (members@.take(i as int).contains(e)
                    && ready@.contains(e)),
            decreases members@.len() - i,
        {
            let e = members[i];
            proof {
                assert forall|x: u64| members@.take(i + 1).contains(x) <==> (members@.take(i as int).contains(x)
                    || x == e) by {
                    lemma_take_one_more_contains(members@, i as int, x);
                }
                assert(!members@.take(i as int).contains(e)) by {
                    if members@.take(i as int).contains(e) {
                        let j = choose|j: int| 0 <= j < i && #[trigger] members@.take(i as int)[j] == e;
                        assert(members@[j] == members@[i as int]);
                    }
                }
            }
            let ghost before = sent@;
            if seq_has(ready, e) {
                proof {
                    assert(!sent@.contains(e));
                    assert forall|a: int, b: int| 0 <= a < b < sent@.push(e).len() implies
                        sent@.push(e)[a] != sent@.push(e)[b] by {
                        if b == sent@.len() {
                            assert(sent@.contains(sent@[a]));
                        }
                    }
                }
                sent.push(e);
            }
            proof {
                assert forall|x: u64| #[trigger] sent@.contains(x) <==> (members@.take(i + 1).contains(x)
                    && ready@.contains(x)) by {
                    lemma_take_one_more_contains(members@, i as int, x);
                    if ready@.contains(e) {
                        assert(sent@ == before.push(e));
                        if sent@.contains(x) && x != e {
                            let j = choose|j: int| 0 <= j < sent@.len() && sent@[j] == x;
                            assert(before[j] == x);
                        }
                        if before.contains(x) {
                            let j = choose|j: int| 0 <= j < before.len() && before[j] == x;
                            assert(sent@[j] == x);
                        }
                        if x == e {
                            assert(sent@[before.len() as int] == x);
                        }
                    }
                }
            }
            i = i + 1;
        }
        assert(members@.take(members@.len() as int) =~= members@);
        assert(sent@.to_set() =~= old(self)@.filter(|e: u64| ready@.contains(e))) by {
            assert forall|x: u64| sent@.to_set().contains(x) <==> old(self)@.filter(|e: u64| ready@.contains(e)).contains(x) by {
                assert(members@.to_set().contains(x) <==> members@.contains(x));
            }
        }
        set_retain_not_in(&mut self.map, ready);
        sent
    }
}

/// Whether an item carries the finalized marker, and whether it was finalized
/// in this frame.
#[derive(Clone, Copy, Debug, PartialEq, Eq)]
pub struct ShieldtankComponentFinalized {
    pub just_finalized: bool,
}

/// The items, among (entity, finalized marker, asset loaded) triples, that
/// become finalized now: those not yet finalized whose asset has loaded. Each
/// gets the marker with `just_finalized` set.
pub fn find_and_mark_loaded_components(items: &[(u64, Option<ShieldtankComponentFinalized>, bool)]) -> (r: Vec<u64>)
    ensures
        r@ == items@.filter(|t: (u64, Option<ShieldtankComponentFinalized>, bool)| t.1 is None && t.2).map_values(
            |t: (u64, Option<ShieldtankComponentFinalized>, bool)| t.0,
        ),
{
    let mut out: Vec<u64> = Vec::new();
    let mut i: usize = 0;
    while i < items.len()
        invariant
            i <= items@.len(),
            out@ == items@.take(i as int).filter(|t: (u64, Option<ShieldtankComponentFinalized>, bool)| t.1 is None && t.2).map_values(
                |t: (u64, Option<ShieldtankComponentFinalized>, bool)| t.0,
            ),
        decreases items@.len() - i,
    {
        let (entity, marker, loaded) = items[i];
        proof {
            let f = |t: (u64, Option<ShieldtankComponentFinalized>, bool)| t.1 is None && t.2;
            assert(items@.take(i + 1).drop_last() =~= items@.take(i as int));
            reveal(Seq::filter);
            assert(items@.take(i + 1).filter(f) == {
                let rest = items@.take(i as int).filter(f);
                if f(items@[i as int]) { rest.push(items@[i as int]) } else { rest }
            });
        }
        if marker.is_none() && loaded {
            out.push(entity);
            proof {
                let f = |t: (u64, Option<ShieldtankComponentFinalized>, bool)| t.1 is None && t.2;
                let g = |t: (u64, Option<ShieldtankComponentFinalized>, bool)| t.0;
                assert(items@.take(i as int).filter(f).push(items@[i as int]).map_values(g)
                    =~= items@.take(i as int).filter(f).map_values(g).push(entity));
            }
        }
        i = i + 1;
    }
    assert(items@.take(items@.len() as int) =~= items@);
    out
}

/// The items whose marker says they were just finalized; their marker is reset.
pub fn find_and_unmark_just_loaded_components(items: &[(u64, Option<ShieldtankComponentFinalized>)]) -> (r: Vec<u64>)
    ensures
        r@ == just_finalized(items@),
{
    let mut out: Vec<u64> = Vec::new();
    let mut i: usize = 0;
    while i < items.len()
        invariant
            i <= items@.len(),
            out@ == just_finalized(items@.take(i as int)),
        decreases items@.len() - i,
    {
        let (entity, marker) = items[i];
        proof {
            assert(items@.take(i + 1).drop_last() =~= items@.take(i as int));
        }
        match marker {
            Some(m) => {
                if m.just_finalized {
                    out.push(entity);
                }
            },
            None => {},
        }
        i = i + 1;
    }
    assert(items@.take(items@.len() as int) =~= items@);
    out
}

/// The entities, in order, whose marker says they were just finalized.
pub open spec fn just_finalized(items: Seq<(u64, Option<ShieldtankComponentFinalized>)>) -> Seq<u64>
    decreases items.len(),
{
    if items.len() == 0 {
        seq![]
    } else {
        let rest = just_finalized(items.drop_last());
        match items.last().1 {
            Some(m) => if m.just_finalized { rest.push(items.last().0) } else { rest },
            None => rest,
        }
    }
}

/// Whether a project asset event makes the project's items be collected and
/// its orphans despawned: only once the project and everything it depends
/// on has loaded.
pub fn asset_event_triggers_collect(kind: AssetEventKind) -> (r: bool)
    ensures
        r == (kind == AssetEventKind::LoadedWithDependencies),
{
    match kind {
        AssetEventKind::LoadedWithDependencies => true,
        _ => false,
    }
}

/// Sending finalize messages splits the waiting entities: each is either
/// messaged or keeps waiting, never both, and no other entity appears.
pub proof fn law_finalize_splits_the_waiting(waiting: Set<u64>, ready: Seq<u64>)
    ensures
        waiting.filter(|e: u64| ready.contains(e)) + waiting.filter(|e: u64| !ready.contains(e)) == waiting,
        waiting.filter(|e: u64| ready.contains(e)).disjoint(waiting.filter(|e: u64| !ready.contains(e))),
{
    assert(waiting.filter(|e: u64| ready.contains(e)) + waiting.filter(|e: u64| !ready.contains(e)) =~= waiting);
}

} // verus!
