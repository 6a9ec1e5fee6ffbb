use vstd::prelude::*;

verus! {

// Assets are named by 64-bit keys (their asset ids), ECS entities by their
// 64-bit ids, and LDtk instances by their 128-bit iids.

/// The items of `wanted`, in order, that do not occur in `present`.
pub open spec fn absent_from(wanted: Seq<u64>, present: Seq<u64>) -> Seq<u64>
    decreases wanted.len(),
{
    if wanted.len() == 0 {
        seq![]
    } else {
        let rest = absent_from(wanted.drop_last(), present);
        if present.contains(wanted.last()) {
            rest
        } else {
            rest.push(wanted.last())
        }
    }
}

/// The keys of `items`, in order, whose flag is set.
pub open spec fn flagged(items: Seq<(u64, bool)>) -> Seq<u64>
    decreases items.len(),
{
    if items.len() == 0 {
        seq![]
    } else {
        let rest = flagged(items.drop_last());
        if items.last().1 {
            rest.push(items.last().0)
        } else {
            rest
        }
    }
}

/// Whether `x` occurs in `s` (a loop-friendly test).
pub fn seq_has(s: &[u64], x: u64) -> (r: bool)
    ensures
        r == s@.contains(x),
{
    let mut i: usize = 0;
    while i < s.len()
        invariant
            i <= s@.len(),
            forall|j: int| 0 <= j < i ==> s@[j] != x,
        decreases s@.len() - i,
    {
        if s[i] == x {
            assert(s@[i as int] == x);
            return true;
        }
        i = i + 1;
    }
    false
}

/// The asset keys of `wanted` that have no counterpart in `present`, in
/// order. A parent spawns a child component for each of them.
pub fn absent_children(wanted: &[u64], present: &[u64]) -> (r: Vec<u64>)
    ensures
        r@ == absent_from(wanted@, present@),
{
    let mut out: Vec<u64> = Vec::new();
    let mut i: usize = 0;
    while i < wanted.len()
        invariant
            i <= wanted@.len(),
            out@ == absent_from(wanted@.take(i as int), present@),
        decreases wanted@.len() - i,
    {
        let w = wanted[i];
        proof {
            assert(wanted@.take(i + 1).drop_last() =~= wanted@.take(i as int));
            assert(wanted@.take(i + 1).last() == w);
        }
        if !seq_has(present, w) {
            out.push(w);
        }
        i = i + 1;
    }
    assert(wanted@.take(wanted@.len() as int) =~= wanted@);
    out
}

/// The keys of `items`, in order, whose flag is set.
pub fn flagged_keys(items: &[(u64, bool)]) -> (r: Vec<u64>)
    ensures
        r@ == flagged(items@),
{
    let mut out: Vec<u64> = Vec::new();
    let mut i: usize = 0;
    while i < items.len()
        invariant
            i <= items@.len(),
            out@ == flagged(items@.take(i as int)),
        decreases items@.len() - i,
    {
        let (k, f) = items[i];
        proof {
            assert(items@.take(i + 1).drop_last() =~= items@.take(i as int));
            assert(items@.take(i + 1).last() == (k, f));
        }
        if f {
            out.push(k);
        }
        i = i + 1;
    }
    assert(items@.take(items@.len() as int) =~= items@);
    out
}

/// The children a changed parent spawns: every child asset whose key is not
/// among the assets of the child components it already has.
pub fn child_spawn_system(children: &[u64], spawned_children: &[u64]) -> (r: Vec<u64>)
    ensures
        r@ == absent_from(children@, spawned_children@),
{
    absent_children(children, spawned_children)
}

/// The children a freshly loaded parent spawns: every child asset such that
/// no existing child component whose handle passes the load pattern (the
/// flag) holds it.
pub fn load_children_to_spawn(children: &[u64], existing: &[(u64, bool)]) -> (r: Vec<u64>)
    ensures
        r@ == absent_from(children@, flagged(existing@)),
{
    let present = flagged_keys(existing);
    absent_children(children, present.as_slice())
}

/// The children a just finalized parent spawns: every child asset that passes
/// the load pattern (the flag) and that no existing item of the child kind holds.
pub fn finalized_children_to_spawn(children: &[(u64, bool)], existing: &[u64]) -> (r: Vec<u64>)
    ensures
        r@ == absent_from(flagged(children@), existing@),
{
    let wanted = flagged_keys(children);
    absent_children(wanted.as_slice(), existing)
}

/// An item is in `absent_from(wanted, present)` exactly when it is wanted and
/// not present.
pub proof fn lemma_absent_from_membership(wanted: Seq<u64>, present: Seq<u64>, x: u64)
    ensures
        absent_from(wanted, present).contains(x) <==> (wanted.contains(x) && !present.contains(x)),
    decreases wanted.len(),
{
    if wanted.len() > 0 {
        let w = wanted.drop_last();
        lemma_absent_from_membership(w, present, x);
        assert(wanted =~= w.push(wanted.last()));
        if wanted.contains(x) && x != wanted.last() {
            let j = choose|j: int| 0 <= j < wanted.len() && wanted[j] == x;
            assert(w[j] == x);
        }
        if w.contains(x) {
            let j = choose|j: int| 0 <= j < w.len() && w[j] == x;
            assert(wanted[j] == x);
        }
        let rest = absent_from(w, present);
        if !present.contains(wanted.last()) {
            assert(rest.push(wanted.last()).last() == wanted.last());
            if rest.contains(x) {
                let j = choose|j: int| 0 <= j < rest.len() && rest[j] == x;
                assert(rest.push(wanted.last())[j] == x);
            }
            if rest.push(wanted.last()).contains(x) && x != wanted.last() {
                let j = choose|j: int| 0 <= j < rest.len() + 1 && rest.push(wanted.last())[j] == x;
                assert(rest[j] == x);
            }
        }
    }
}

/// When everything wanted is present, nothing is absent.
pub proof fn lemma_absent_from_covered(wanted: Seq<u64>, present: Seq<u64>)
    requires
        forall|x: u64| wanted.contains(x) ==> present.contains(x),
    ensures
        absent_from(wanted, present) == Seq::<u64>::empty(),
    decreases wanted.len(),
{
    if wanted.len() > 0 {
        let w = wanted.drop_last();
        assert forall|x: u64| w.contains(x) implies present.contains(x) by {
            let j = choose|j: int| 0 <= j < w.len() && w[j] == x;
            assert(wanted[j] == x);
        }
        lemma_absent_from_covered(w, present);
        assert(wanted.contains(wanted.last())) by {
            assert(wanted[wanted.len() - 1] == wanted.last());
        }
    }
}

/// Spawning the missing children settles a parent: once the spawned
/// children join the present ones, no child is missing any more.
pub proof fn law_spawning_missing_children_settles(wanted: Seq<u64>, present: Seq<u64>)
    ensures
        absent_from(wanted, present + absent_from(wanted, present)) == Seq::<u64>::empty(),
{
    let spawned = absent_from(wanted, present);
    assert forall|x: u64| wanted.contains(x) implies (present + spawned).contains(x) by {
        lemma_absent_from_membership(wanted, present, x);
        if present.contains(x) {
            let j = choose|j: int| 0 <= j < present.len() && present[j] == x;
            assert((present + spawned)[j] == x);
        } else {
            let j = choose|j: int| 0 <= j < spawned.len() && spawned[j] == x;
            assert((present + spawned)[present.len() + j] == x);
        }
    }
    lemma_absent_from_covered(wanted, present + spawned);
}

/// A child is spawned exactly when it is wanted and has no counterpart.
pub proof fn law_spawned_children_are_exactly_the_missing(
    wanted: Seq<u64>,
    present: Seq<u64>,
    x: u64,
)
    ensures
        absent_from(wanted, present).contains(x) <==> (wanted.contains(x) && !present.contains(x)),
{
    lemma_absent_from_membership(wanted, present, x);
}


/// What a finalized parent does for one of its children.
#[derive(Clone, Copy, Debug, PartialEq, Eq)]
pub enum ChildAction {
    /// Spawn a new child component for this asset key under the parent.
    Spawn(u64),
    /// Queue this existing child entity to be finalized again.
    AwaitFinalize(u64),
}

/// The entities among `existing` (entity, asset key) pairs that hold `handle`, in order.
pub open spec fn entities_holding(existing: Seq<(u64, u64)>, handle: u64) -> Seq<u64>
    decreases existing.len(),
{
    if existing.len() == 0 {
        seq![]
    } else {
        let rest = entities_holding(existing.drop_last(), handle);
        if existing.last().1 == handle {
            rest.push(existing.last().0)
        } else {
            rest
        }
    }
}

/// What a finalized parent does for the child asset `child`: spawn it when no
/// existing child holds it, otherwise queue every child that holds it.
pub open spec fn actions_for_child(child: u64, existing: Seq<(u64, u64)>) -> Seq<ChildAction> {
    let held = entities_holding(existing, child);
    if held.len() == 0 {
        seq![ChildAction::Spawn(child)]
    } else {
        held.map_values(|e: u64| ChildAction::AwaitFinalize(e))
    }
}

/// The actions for each child asset of `children`, in order.
pub open spec fn child_actions(children: Seq<u64>, existing: Seq<(u64, u64)>) -> Seq<ChildAction>
    decreases children.len(),
{
    if children.len() == 0 {
        seq![]
    } else {
        child_actions(children.drop_last(), existing) + actions_for_child(children.last(), existing)
    }
}

/// The entities among `existing` that hold `handle`, in order.
pub fn entities_with_handle(existing: &[(u64, u64)], handle: u64) -> (r: Vec<u64>)
    ensures
        r@ == entities_holding(existing@, handle),
{
    let mut out: Vec<u64> = Vec::new();
    let mut i: usize = 0;
    while i < existing.len()
        invariant
            i <= existing@.len(),
            out@ == entities_holding(existing@.take(i as int), handle),
        decreases existing@.len() - i,
    {
        let (e, h) = existing[i];
        proof {
            assert(existing@.take(i + 1).drop_last() =~= existing@.take(i as int));
            assert(existing@.take(i + 1).last() == (e, h));
        }
        if h == handle {
            out.push(e);
        }
        i = i + 1;
    }
    assert(existing@.take(existing@.len() as int) =~= existing@);
    out
}

/// What a finalized parent does for each of its child assets, given its
/// existing children as (entity, asset key) pairs: a child asset that no
/// existing child holds is spawned; otherwise each child holding it is queued
/// to be finalized again.
pub fn handle_spawn_children(children: &[u64], existing: &[(u64, u64)]) -> (r: Vec<ChildAction>)
    ensures
        r@ == child_actions(children@, existing@),
{
    let mut out: Vec<ChildAction> = Vec::new();
    let mut i: usize = 0;
    while i < children.len()
        invariant
            i <= children@.len(),
            out@ == child_actions(children@.take(i as int), existing@),
        decreases children@.len() - i,
    {
        let child = children[i];
        proof {
            assert(children@.take(i + 1).drop_last() =~= children@.take(i as int));
            assert(children@.take(i + 1).last() == child);
        }
        let held = entities_with_handle(existing, child);
        let ghost before = out@;
        if held.len() == 0 {
            out.push(ChildAction::Spawn(child));
            assert(out@ =~= before + actions_for_child(child, existing@));
        } else {
            let mut j: usize = 0;
            while j < held.len()
                invariant
                    j <= held@.len(),
                    held@ == entities_holding(existing@, child),
                    out@ == before + held@.take(j as int).map_values(|e: u64| ChildAction::AwaitFinalize(e)),
                decreases held@.len() - j,
            {
                out.push(ChildAction::AwaitFinalize(held[j]));
                assert(held@.take(j + 1).map_values(|e: u64| ChildAction::AwaitFinalize(e))
                    =~= held@.take(j as int).map_values(|e: u64| ChildAction::AwaitFinalize(e))
                        .push(ChildAction::AwaitFinalize(held@[j as int])));
                j = j + 1;
            }
            assert(held@.take(held@.len() as int) =~= held@);
        }
        i = i + 1;
    }
    assert(children@.take(children@.len() as int) =~= children@);
    out
}

/// The asset key that `project` lists first for `iid`, if any.
pub open spec fn lookup_handle(project: Seq<(u128, u64)>, iid: u128) -> Option<u64>
    decreases project.len(),
{
    if project.len() == 0 {
        None
    } else if project[0].0 == iid {
        Some(project[0].1)
    } else {
        lookup_handle(project.drop_first(), iid)
    }
}

/// The first entity among `existing` (entity, asset key) pairs that holds `handle`, if any.
pub open spec fn first_entity_with(existing: Seq<(u64, u64)>, handle: u64) -> Option<u64>
    decreases existing.len(),
{
    if existing.len() == 0 {
        None
    } else if existing[0].1 == handle {
        Some(existing[0].0)
    } else {
        first_entity_with(existing.drop_first(), handle)
    }
}

/// The asset key that `project` lists first for `iid`, if any.
pub fn find_handle(project: &[(u128, u64)], iid: u128) -> (r: Option<u64>)
    ensures
        r == lookup_handle(project@, iid),
{
    let mut i: usize = 0;
    assert(project@.skip(0) =~= project@);
    while i < project.len()
        invariant
            i <= project@.len(),
            lookup_handle(project@, iid) == lookup_handle(project@.skip(i as int), iid),
        decreases project@.len() - i,
    {
        proof {
            assert(project@.skip(i as int).drop_first() =~= project@.skip(i + 1));
        }
        if project[i].0 == iid {
            return Some(project[i].1);
        }
        i = i + 1;
    }
    None
}

/// The first entity among `existing` that holds `handle`, if any.
pub fn find_entity(existing: &[(u64, u64)], handle: u64) -> (r: Option<u64>)
    ensures
        r == first_entity_with(existing@, handle),
{
    let mut i: usize = 0;
    assert(existing@.skip(0) =~= existing@);
    while i < existing.len()
        invariant
            i <= existing@.len(),
            first_entity_with(existing@, handle) == first_entity_with(existing@.skip(i as int), handle),
        decreases existing@.len() - i,
    {
        proof {
            assert(existing@.skip(i as int).drop_first() =~= existing@.skip(i + 1));
        }
        if existing[i].1 == handle {
            return Some(existing[i].0);
        }
        i = i + 1;
    }
    None
}

/// How an instance of the project is brought into the ECS world.
#[derive(Clone, Copy, Debug, PartialEq, Eq)]
pub enum Collected {
    /// The entity already holds the asset and is kept.
    Existing { entity: u64, handle: u64 },
    /// A new entity is spawned for the asset.
    Spawn { handle: u64 },
}

/// The outcome of collecting entities for a set of iids: what is done for
/// each iid before the first that the project does not know, and that iid.
pub struct CollectPlan {
    pub actions: Vec<Collected>,
    pub bad_project_iid: Option<u128>,
}

/// What is done for `iids`, in order, until one is not in `project`.
pub open spec fn collect_plan(
    iids: Seq<u128>,
    project: Seq<(u128, u64)>,
    existing: Seq<(u64, u64)>,
) -> (Seq<Collected>, Option<u128>)
    decreases iids.len(),
{
    if iids.len() == 0 {
        (seq![], None)
    } else {
        match lookup_handle(project, iids[0]) {
            None => (seq![], Some(iids[0])),
            Some(handle) => {
                let action = match first_entity_with(existing, handle) {
                    Some(entity) => Collected::Existing { entity, handle },
                    None => Collected::Spawn { handle },
                };
                let rest = collect_plan(iids.drop_first(), project, existing);
                (seq![action] + rest.0, rest.1)
            },
        }
    }
}

/// Brings the instances `iids` of a project into the ECS world: each iid is
/// looked up among the project's (iid, asset key) pairs; an entity that
/// already holds the asset is kept, otherwise one is spawned. Stops at the
/// first iid the project does not know, reporting it.
pub fn collect_entities(
    iids: &[u128],
    project: &[(u128, u64)],
    existing: &[(u64, u64)],
) -> (r: CollectPlan)
    ensures
        (r.actions@, r.bad_project_iid) == collect_plan(iids@, project@, existing@),
{
    let mut actions: Vec<Collected> = Vec::new();
    let mut i: usize = 0;
    assert(iids@.skip(0) =~= iids@);
    assert(actions@ + collect_plan(iids@, project@, existing@).0 =~= collect_plan(iids@, project@, existing@).0);
    while i < iids.len()
        invariant
            i <= iids@.len(),
            collect_plan(iids@, project@, existing@) == (
                actions@ + collect_plan(iids@.skip(i as int), project@, existing@).0,
                collect_plan(iids@.skip(i as int), project@, existing@).1,
            ),
        decreases iids@.len() - i,
    {
        let iid = iids[i];
        proof {
            assert(iids@.skip(i as int).drop_first() =~= iids@.skip(i + 1));
            assert(iids@.skip(i as int)[0] == iid);
        }
        match find_handle(project, iid) {
            None => {
                assert(actions@ + Seq::<Collected>::empty() =~= actions@);
                return CollectPlan { actions, bad_project_iid: Some(iid) };
            },
            Some(handle) => {
                let action = match find_entity(existing, handle) {
                    Some(entity) => Collected::Existing { entity, handle },
                    None => Collected::Spawn { handle },
                };
                let ghost rest = collect_plan(iids@.skip(i + 1), project@, existing@);
                assert(actions@ + (seq![action] + rest.0) =~= actions@.push(action) + rest.0);
                actions.push(action);
            },
        }
        i = i + 1;
    }
    assert(actions@ + Seq::<Collected>::empty() =~= actions@);
    CollectPlan { actions, bad_project_iid: None }
}

/// Whether `x` occurs in `s`.
pub fn iid_listed(s: &[u128], x: u128) -> (r: bool)
    ensures
        r == s@.contains(x),
{
    let mut i: usize = 0;
    while i < s.len()
        invariant
            i <= s@.len(),
            forall|j: int| 0 <= j < i ==> s@[j] != x,
        decreases s@.len() - i,
    {
        if s[i] == x {
            assert(s@[i as int] == x);
            return true;
        }
        i = i + 1;
    }
    false
}

/// The outcome of despawning orphans: the entities despawned before the
/// first entity whose asset is missing, and that entity's asset key.
pub struct DespawnPlan {
    pub despawn: Vec<u64>,
    pub bad_handle: Option<u64>,
}

/// The entities among (entity, asset key, iid of the loaded asset) triples
/// that are despawned, in order, until one whose asset is not loaded.
pub open spec fn despawn_plan(entities: Seq<(u64, u64, Option<u128>)>, keep: Seq<u128>) -> (
    Seq<u64>,
    Option<u64>,
)
    decreases entities.len(),
{
    if entities.len() == 0 {
        (seq![], None)
    } else {
        let (entity, handle, iid) = entities[0];
        match iid {
            None => (seq![], Some(handle)),
            Some(iid) => {
                let rest = despawn_plan(entities.drop_first(), keep);
                if keep.contains(iid) {
                    rest
                } else {
                    (seq![entity] + rest.0, rest.1)
                }
            },
        }
    }
}

/// Despawns the entities whose asset's iid the project no longer lists.
/// Each entity is given with its asset key and the iid of its asset when the
/// asset is loaded; the first entity whose asset is not loaded stops the walk
/// and is reported by its asset key.
pub fn despawn_orphaned_entities(
    entities: &[(u64, u64, Option<u128>)],
    keep: &[u128],
) -> (r: DespawnPlan)
    ensures
        (r.despawn@, r.bad_handle) == despawn_plan(entities@, keep@),
{
    let mut despawn: Vec<u64> = Vec::new();
    let mut i: usize = 0;
    assert(entities@.skip(0) =~= entities@);
    assert(despawn@ + despawn_plan(entities@, keep@).0 =~= despawn_plan(entities@, keep@).0);
    while i < entities.len()
        invariant
            i <= entities@.len(),
            despawn_plan(entities@, keep@) == (
                despawn@ + despawn_plan(entities@.skip(i as int), keep@).0,
                despawn_plan(entities@.skip(i as int), keep@).1,
            ),
        decreases entities@.len() - i,
    {
        let (entity, handle, iid) = entities[i];
        proof {
            assert(entities@.skip(i as int).drop_first() =~= entities@.skip(i + 1));
            assert(entities@.skip(i as int)[0] == (entity, handle, iid));
        }
        match iid {
            None => {
                assert(despawn@ + Seq::<u64>::empty() =~= despawn@);
                return DespawnPlan { despawn, bad_handle: Some(handle) };
            },
            Some(iid) => {
                if !iid_listed(keep, iid) {
                    let ghost rest = despawn_plan(entities@.skip(i + 1), keep@);
                    assert(despawn@ + (seq![entity] + rest.0) =~= despawn@.push(entity) + rest.0);
                    despawn.push(entity);
                }
            },
        }
        i = i + 1;
    }
    assert(despawn@ + Seq::<u64>::empty() =~= despawn@);
    DespawnPlan { despawn, bad_handle: None }
}

/// The first holder of a handle in two lists is the first in the first
/// list, or else the first in the second.
pub proof fn lemma_first_entity_with_append(a: Seq<(u64, u64)>, b: Seq<(u64, u64)>, handle: u64)
    ensures
        first_entity_with(a + b, handle) == (match first_entity_with(a, handle) {
            Some(e) => Some(e),
            None => first_entity_with(b, handle),
        }),
    decreases a.len(),
{
    if a.len() == 0 {
        assert(a + b =~= b);
    } else {
        assert((a + b).drop_first() =~= a.drop_first() + b);
        assert((a + b)[0] == a[0]);
        lemma_first_entity_with_append(a.drop_first(), b, handle);
    }
}

/// A handle that some pair holds has a first holder.
pub proof fn lemma_first_entity_with_found(b: Seq<(u64, u64)>, k: int, handle: u64)
    requires
        0 <= k < b.len(),
        b[k].1 == handle,
    ensures
        first_entity_with(b, handle) is Some,
    decreases b.len(),
{
    if b[0].1 != handle {
        assert(b.drop_first()[k - 1] == b[k]);
        lemma_first_entity_with_found(b.drop_first(), k - 1, handle);
    }
}

/// Whether `new_entities` holds, for each spawn of `actions`, an entity
/// holding the spawned asset.
pub open spec fn spawns_carried_out(actions: Seq<Collected>, new_entities: Seq<(u64, u64)>) -> bool {
    forall|j: int| 0 <= j < actions.len() && (#[trigger] actions[j]) is Spawn ==> exists|k: int|
        0 <= k < new_entities.len() && #[trigger] new_entities[k].1 == actions[j]->Spawn_handle
}

/// Collecting settles: once the entities spawned by a collection exist,
/// collecting the same iids again spawns nothing more and stops at the same
/// iid, if any.
pub proof fn law_collect_settles(
    iids: Seq<u128>,
    project: Seq<(u128, u64)>,
    existing: Seq<(u64, u64)>,
    new_entities: Seq<(u64, u64)>,
)
    requires
        spawns_carried_out(collect_plan(iids, project, existing).0, new_entities),
    ensures
        forall|j: int| 0 <= j < collect_plan(iids, project, existing + new_entities).0.len()
            ==> (#[trigger] collect_plan(iids, project, existing + new_entities).0[j]) is Existing,
        collect_plan(iids, project, existing + new_entities).0.len() == collect_plan(iids, project, existing).0.len(),
        collect_plan(iids, project, existing + new_entities).1 == collect_plan(iids, project, existing).1,
    decreases iids.len(),
{
    if iids.len() > 0 {
        let rest = iids.drop_first();
        let before = collect_plan(iids, project, existing);
        let after = collect_plan(iids, project, existing + new_entities);
        match lookup_handle(project, iids[0]) {
            None => {},
            Some(handle) => {
                let r_before = collect_plan(rest, project, existing);
                let r_after = collect_plan(rest, project, existing + new_entities);
                assert forall|j: int| 0 <= j < r_before.0.len() && (#[trigger] r_before.0[j]) is Spawn implies exists|k: int|
                    0 <= k < new_entities.len() && #[trigger] new_entities[k].1 == r_before.0[j]->Spawn_handle by {
                    assert(before.0[j + 1] == r_before.0[j]);
                }
                law_collect_settles(rest, project, existing, new_entities);
                lemma_first_entity_with_append(existing, new_entities, handle);
                if first_entity_with(existing, handle) is None {
                    assert(before.0[0] is Spawn);
                    let k = choose|k: int| 0 <= k < new_entities.len() && #[trigger] new_entities[k].1 == before.0[0]->Spawn_handle;
                    lemma_first_entity_with_found(new_entities, k, handle);
                }
                assert(after.0[0] is Existing);
                assert forall|j: int| 0 <= j < after.0.len() implies (#[trigger] after.0[j]) is Existing by {
                    if j > 0 {
                        assert(after.0[j] == r_after.0[j - 1]);
                    }
                }
            },
        }
    }
}

/// When every entity's asset is loaded, despawning orphans reports no
/// error and despawns exactly the entities whose asset's iid is not kept.
pub proof fn law_despawn_removes_exactly_the_orphans(
    entities: Seq<(u64, u64, Option<u128>)>,
    keep: Seq<u128>,
)
    requires
        forall|k: int| 0 <= k < entities.len() ==> (#[trigger] entities[k]).2 is Some,
    ensures
        despawn_plan(entities, keep).1 is None,
        forall|k: int| 0 <= k < entities.len() && !keep.contains((#[trigger] entities[k]).2->0)
            ==> despawn_plan(entities, keep).0.contains(entities[k].0),
        forall|x: u64| #[trigger] despawn_plan(entities, keep).0.contains(x) ==> exists|k: int|
            0 <= k < entities.len() && (#[trigger] entities[k]).0 == x && !keep.contains(entities[k].2->0),
    decreases entities.len(),
{
    if entities.len() > 0 {
        let rest = entities.drop_first();
        assert forall|k: int| 0 <= k < rest.len() implies (#[trigger] rest[k]).2 is Some by {
            assert(rest[k] == entities[k + 1]);
        }
        law_despawn_removes_exactly_the_orphans(rest, keep);
        let r = despawn_plan(rest, keep);
        let all = despawn_plan(entities, keep);
        assert(entities[0].2 is Some);
        let first_kept = keep.contains(entities[0].2->0);
        if !first_kept {
            assert(all.0 == seq![entities[0].0] + r.0);
        } else {
            assert(all.0 == r.0);
        }
        assert forall|k: int| 0 <= k < entities.len() && !keep.contains((#[trigger] entities[k]).2->0)
            implies all.0.contains(entities[k].0) by {
            if k == 0 {
                assert(all.0[0] == entities[0].0);
            } else {
                assert(entities[k] == rest[k - 1]);
                assert(r.0.contains(rest[k - 1].0));
                let j = choose|j: int| 0 <= j < r.0.len() && r.0[j] == rest[k - 1].0;
                if !first_kept {
                    assert(all.0[j + 1] == r.0[j]);
                }
            }
        }
        assert forall|x: u64| #[trigger] all.0.contains(x) implies exists|k: int|
            0 <= k < entities.len() && (#[trigger] entities[k]).0 == x && !keep.contains(entities[k].2->0) by {
            let j = choose|j: int| 0 <= j < all.0.len() && all.0[j] == x;
            if !first_kept && j == 0 {
                assert(entities[0].0 == x);
            } else {
                let jj = if !first_kept { j - 1 } else { j };
                assert(r.0[jj] == x);
                assert(r.0.contains(x));
                let k = choose|k: int| 0 <= k < rest.len() && (#[trigger] rest[k]).0 == x && !keep.contains(rest[k].2->0);
                assert(entities[k + 1] == rest[k]);
            }
        }
    }
}

/// A finalized parent spawns a child asset exactly when it wants it and no
/// existing child holds it; it queues an existing child exactly when that
/// child holds one of the wanted assets.
pub proof fn law_finalized_parent_spawns_only_missing_children(
    children: Seq<u64>,
    existing: Seq<(u64, u64)>,
    c: u64,
    e: u64,
)
    ensures
        child_actions(children, existing).contains(ChildAction::Spawn(c)) <==> (children.contains(c)
            && entities_holding(existing, c).len() == 0),
        child_actions(children, existing).contains(ChildAction::AwaitFinalize(e)) <==> exists|k: int|
            0 <= k < children.len() && #[trigger] entities_holding(existing, children[k]).contains(e),
    decreases children.len(),
{
    if children.len() > 0 {
        let w = children.drop_last();
        let last = children.last();
        law_finalized_parent_spawns_only_missing_children(w, existing, c, e);
        let before = child_actions(w, existing);
        let tail = actions_for_child(last, existing);
        let all = child_actions(children, existing);
        assert(all == before + tail);
        lemma_concat_contains(before, tail, ChildAction::Spawn(c));
        lemma_concat_contains(before, tail, ChildAction::AwaitFinalize(e));
        let held = entities_holding(existing, last);
        if held.len() == 0 {
            assert(tail == seq![ChildAction::Spawn(last)]);
            assert(tail.contains(ChildAction::Spawn(c)) <==> c == last) by {
                if c == last {
                    assert(tail[0] == ChildAction::Spawn(c));
                }
            }
            assert(!tail.contains(ChildAction::AwaitFinalize(e)));
        } else {
            assert(!tail.contains(ChildAction::Spawn(c)));
            assert(tail.contains(ChildAction::AwaitFinalize(e)) <==> held.contains(e)) by {
                if held.contains(e) {
                    let j = choose|j: int| 0 <= j < held.len() && held[j] == e;
                    assert(tail[j] == ChildAction::AwaitFinalize(e));
                }
                if tail.contains(ChildAction::AwaitFinalize(e)) {
                    let j = choose|j: int| 0 <= j < tail.len() && tail[j] == ChildAction::AwaitFinalize(e);
                    assert(held[j] == e);
                }
            }
        }
        assert(children.contains(c) <==> (w.contains(c) || c == last)) by {
            assert(children =~= w.push(last));
            crate::seqs::lemma_take_one_more_contains(children, children.len() - 1, c);
            assert(children.take(children.len() - 1) =~= w);
            assert(children.take(children.len() as int) =~= children);
        }
        assert((exists|k: int| 0 <= k < children.len() && #[trigger] entities_holding(existing, children[k]).contains(e))
            <==> ((exists|k: int| 0 <= k < w.len() && #[trigger] entities_holding(existing, w[k]).contains(e))
                || held.contains(e))) by {
            if exists|k: int| 0 <= k < children.len() && #[trigger] entities_holding(existing, children[k]).contains(e) {
                let k = choose|k: int| 0 <= k < children.len() && #[trigger] entities_holding(existing, children[k]).contains(e);
                if k < w.len() {
                    assert(w[k] == children[k]);
                }
            }
            if exists|k: int| 0 <= k < w.len() && #[trigger] entities_holding(existing, w[k]).contains(e) {
                let k = choose|k: int| 0 <= k < w.len() && #[trigger] entities_holding(existing, w[k]).contains(e);
                assert(w[k] == children[k]);
            }
            if held.contains(e) {
                assert(children[children.len() - 1] == last);
            }
        }
    }
}

/// Membership in a concatenation is membership in one of its parts.
pub proof fn lemma_concat_contains(a: Seq<ChildAction>, b: Seq<ChildAction>, x: ChildAction)
    ensures
        (a + b).contains(x) <==> (a.contains(x) || b.contains(x)),
{
    if (a + b).contains(x) {
        let j = choose|j: int| 0 <= j < (a + b).len() && (a + b)[j] == x;
        if j < a.len() {
            assert(a[j] == x);
        } else {
            assert(b[j - a.len()] == x);
        }
    }
    if a.contains(x) {
        let j = choose|j: int| 0 <= j < a.len() && a[j] == x;
        assert((a + b)[j] == x);
    }
    if b.contains(x) {
        let j = choose|j: int| 0 <= j < b.len() && b[j] == x;
        assert((a + b)[a.len() + j] == x);
    }
}

} // verus!

verus! {

/// A parent entity that can spawn children: its asset key and its existing
/// children, as (entity, asset key) pairs.
#[derive(Debug)]
pub struct SpawnParent {
    pub entity: u64,
    pub handle: u64,
    pub children: Vec<(u64, u64)>,
}

/// Why a finalized parent could not spawn its children.
#[derive(Clone, Copy, Debug, PartialEq, Eq)]
pub enum SpawnChildrenError {
    /// The ECS entity is not a parent of this kind.
    BadEcsEntity(u64),
    /// The parent's asset (by key) is not loaded.
    BadHandle(u64),
}

/// The first parent that is this entity, if any.
pub open spec fn parent_at(parents: Seq<SpawnParent>, entity: u64) -> Option<SpawnParent>
    decreases parents.len(),
{
    if parents.len() == 0 {
        None
    } else if parents[0].entity == entity {
        Some(parents[0])
    } else {
        parent_at(parents.drop_first(), entity)
    }
}

/// The child asset keys of the first loaded asset with this key, if any.
pub open spec fn asset_children(assets: Seq<(u64, Vec<u64>)>, key: u64) -> Option<Seq<u64>>
    decreases assets.len(),
{
    if assets.len() == 0 {
        None
    } else if assets[0].0 == key {
        Some(assets[0].1@)
    } else {
        asset_children(assets.drop_first(), key)
    }
}

/// What one finalize event of `entity` does, as (parent, action) pairs, or its
/// error: the entity must be a parent and its asset loaded; then each child
/// asset is acted on as `child_actions` says.
pub open spec fn spawn_event(
    entity: u64,
    parents: Seq<SpawnParent>,
    assets: Seq<(u64, Vec<u64>)>,
) -> Result<Seq<(u64, ChildAction)>, SpawnChildrenError> {
    match parent_at(parents, entity) {
        None => Err(SpawnChildrenError::BadEcsEntity(entity)),
        Some(p) => match asset_children(assets, p.handle) {
            None => Err(SpawnChildrenError::BadHandle(p.handle)),
            Some(kids) => Ok(child_actions(kids, p.children@).map_values(|a: ChildAction| (entity, a))),
        },
    }
}

/// The actions of the finalize events in order, up to the first that fails,
/// and its error.
pub open spec fn spawn_events(
    events: Seq<u64>,
    parents: Seq<SpawnParent>,
    assets: Seq<(u64, Vec<u64>)>,
) -> (Seq<(u64, ChildAction)>, Option<SpawnChildrenError>)
    decreases events.len(),
{
    if events.len() == 0 {
        (seq![], None)
    } else {
        match spawn_event(events[0], parents, assets) {
            Err(e) => (seq![], Some(e)),
            Ok(acts) => {
                let rest = spawn_events(events.drop_first(), parents, assets);
                (acts + rest.0, rest.1)
            },
        }
    }
}

/// What spawning children did for a list of finalize events.
#[derive(Debug)]
pub struct SpawnChildrenOutcome {
    pub actions: Vec<(u64, ChildAction)>,
    pub error: Option<SpawnChildrenError>,
}

fn find_parent(parents: &[SpawnParent], entity: u64) -> (r: Option<&SpawnParent>)
    ensures
        match parent_at(parents@, entity) {
            Some(p) => r == Some(&p),
            None => r is None,
        },
{
    let mut i: usize = 0;
    assert(parents@.skip(0) =~= parents@);
    while i < parents.len()
        invariant
            i <= parents@.len(),
            parent_at(parents@, entity) == parent_at(parents@.skip(i as int), entity),
        decreases parents@.len() - i,
    {
        proof {
            assert(parents@.skip(i as int).drop_first() =~= parents@.skip(i + 1));
        }
        if parents[i].entity == entity {
            return Some(&parents[i]);
        }
        i = i + 1;
    }
    None
}

fn find_asset_children(assets: &[(u64, Vec<u64>)], key: u64) -> (r: Option<&Vec<u64>>)
    ensures
        match asset_children(assets@, key) {
            Some(kids) => r matches Some(v) && v@ == kids,
            None => r is None,
        },
{
    let mut i: usize = 0;
    assert(assets@.skip(0) =~= assets@);
    while i < assets.len()
        invariant
            i <= assets@.len(),
            asset_children(assets@, key) == asset_children(assets@.skip(i as int), key),
        decreases assets@.len() - i,
    {
        proof {
            assert(assets@.skip(i as int).drop_first() =~= assets@.skip(i + 1));
        }
        if assets[i].0 == key {
            return Some(&assets[i].1);
        }
        i = i + 1;
    }
    None
}

/// Spawns the children of finalized parents, one finalize event (the parent's
/// ECS entity) at a time, in order: an entity that is not a parent of this
/// kind, checked first, or a parent whose asset is not loaded ends the
/// handling with its error; the events before it are handled in full and the
/// events after it not at all.
pub fn spawn_children_for_events(
    events: &[u64],
    parents: &[SpawnParent],
    assets: &[(u64, Vec<u64>)],
) -> (r: SpawnChildrenOutcome)
    ensures
        (r.actions@, r.error) == spawn_events(events@, parents@, assets@),
{
    let mut actions: Vec<(u64, ChildAction)> = Vec::new();
    let mut i: usize = 0;
    assert(events@.skip(0) =~= events@);
    while i < events.len()
        invariant
            i <= events@.len(),
            spawn_events(events@, parents@, assets@) == (
                actions@ + spawn_events(events@.skip(i as int), parents@, assets@).0,
                spawn_events(events@.skip(i as int), parents@, assets@).1,
            ),
        decreases events@.len() - i,
    {
        let entity = events[i];
        proof {
            assert(events@.skip(i as int).drop_first() =~= events@.skip(i + 1));
            assert(events@.skip(i as int)[0] == entity);
        }
        let parent = match find_parent(parents, entity) {
            None => {
                assert(actions@ + Seq::<(u64, ChildAction)>::empty() =~= actions@);
                return SpawnChildrenOutcome { actions, error: Some(SpawnChildrenError::BadEcsEntity(entity)) };
            },
            Some(p) => p,
        };
        let kids = match find_asset_children(assets, parent.handle) {
            None => {
                assert(actions@ + Seq::<(u64, ChildAction)>::empty() =~= actions@);
                return SpawnChildrenOutcome { actions, error: Some(SpawnChildrenError::BadHandle(parent.handle)) };
            },
            Some(k) => k,
        };
        let acts = handle_spawn_children(kids.as_slice(), parent.children.as_slice());
        let ghost before = actions@;
        let mut j: usize = 0;
        while j < acts.len()
            invariant
                j <= acts@.len(),
                actions@ == before + acts@.take(j as int).map_values(|a: ChildAction| (entity, a)),
            decreases acts@.len() - j,
        {
            actions.push((entity, acts[j]));
            j = j + 1;
            assert(actions@ =~= before + acts@.take(j as int).map_values(|a: ChildAction| (entity, a)));
        }
        proof {
            assert(acts@.take(acts@.len() as int) =~= acts@);
            let rest = spawn_events(events@.skip(i + 1), parents@, assets@);
            assert(before + (acts@.map_values(|a: ChildAction| (entity, a)) + rest.0) =~= actions@ + rest.0);
        }
        i = i + 1;
    }
    assert(actions@ + Seq::<(u64, ChildAction)>::empty() =~= actions@);
    SpawnChildrenOutcome { actions, error: None }
}

} // verus!

verus! {

/// What is done for one iid the project knows: the first entity holding its
/// asset is kept, or else one is spawned for it.
pub open spec fn collected_for(iid: u128, project: Seq<(u128, u64)>, existing: Seq<(u64, u64)>) -> Collected {
    let handle = lookup_handle(project, iid)->0;
    match first_entity_with(existing, handle) {
        Some(entity) => Collected::Existing { entity, handle },
        None => Collected::Spawn { handle },
    }
}

/// Collecting `iids` acts on each iid in order: the actions are, position by
/// position, what is done for the iids before the first one the project does
/// not know, and that iid is reported; when the project knows them all, each
/// iid gets its action and none is reported.
pub proof fn law_collect_acts_on_each_iid_in_order(
    iids: Seq<u128>,
    project: Seq<(u128, u64)>,
    existing: Seq<(u64, u64)>,
)
    ensures
        ({
            let plan = collect_plan(iids, project, existing);
            &&& forall|i: int| 0 <= i < plan.0.len() ==> lookup_handle(project, iids[i]) is Some
                && #[trigger] plan.0[i] == collected_for(iids[i], project, existing)
            &&& match plan.1 {
                Some(bad) => plan.0.len() < iids.len() && iids[plan.0.len() as int] == bad
                    && lookup_handle(project, bad) is None,
                None => plan.0.len() == iids.len(),
            }
        }),
    decreases iids.len(),
{
    if iids.len() > 0 {
        let rest = iids.drop_first();
        law_collect_acts_on_each_iid_in_order(rest, project, existing);
        let plan = collect_plan(iids, project, existing);
        let rp = collect_plan(rest, project, existing);
        if lookup_handle(project, iids[0]) is Some {
            assert forall|i: int| 0 <= i < plan.0.len() implies lookup_handle(project, iids[i]) is Some
                && #[trigger] plan.0[i] == collected_for(iids[i], project, existing) by {
                if i > 0 {
                    assert(plan.0[i] == rp.0[i - 1]);
                    assert(iids[i] == rest[i - 1]);
                }
            }
            if let Some(bad) = plan.1 {
                assert(iids[plan.0.len() as int] == rest[rp.0.len() as int]);
            }
        }
    }
}

} // verus!

verus! {

/// Spawning children for a list of finalize events stops at the first event
/// that fails and reports its error; without an error, every event was one
/// of a parent of this kind whose asset is loaded, and each event's actions
/// appear, in order, in the outcome.
pub proof fn law_spawn_events_stop_at_the_first_failure(
    events: Seq<u64>,
    parents: Seq<SpawnParent>,
    assets: Seq<(u64, Vec<u64>)>,
)
    ensures
        match spawn_events(events, parents, assets).1 {
            Some(err) => exists|k: int|
                0 <= k < events.len() && spawn_event(#[trigger] events[k], parents, assets) == Err::<
                    Seq<(u64, ChildAction)>,
                    SpawnChildrenError,
                >(err) && forall|m: int| 0 <= m < k ==> spawn_event(#[trigger] events[m], parents, assets) is Ok,
            None => forall|k: int| 0 <= k < events.len() ==> spawn_event(#[trigger] events[k], parents, assets) is Ok,
        },
        spawn_events(events, parents, assets).1 is None && events.len() > 0 ==> spawn_events(events, parents, assets).0
            == spawn_event(events[0], parents, assets)->Ok_0 + spawn_events(events.drop_first(), parents, assets).0,
    decreases events.len(),
{
    if events.len() > 0 {
        let rest = events.drop_first();
        law_spawn_events_stop_at_the_first_failure(rest, parents, assets);
        match spawn_event(events[0], parents, assets) {
            Err(err) => {
                assert(spawn_event(events[0], parents, assets) == Err::<Seq<(u64, ChildAction)>, SpawnChildrenError>(err));
            },
            Ok(_) => {
                match spawn_events(rest, parents, assets).1 {
                    Some(err) => {
                        let k = choose|k: int|
                            0 <= k < rest.len() && spawn_event(#[trigger] rest[k], parents, assets) == Err::<
                                Seq<(u64, ChildAction)>,
                                SpawnChildrenError,
                            >(err) && forall|m: int| 0 <= m < k ==> spawn_event(#[trigger] rest[m], parents, assets) is Ok;
                        assert(events[k + 1] == rest[k]);
                        assert forall|m: int| 0 <= m < k + 1 implies spawn_event(#[trigger] events[m], parents, assets) is Ok by {
                            if m > 0 {
                                assert(events[m] == rest[m - 1]);
                            }
                        }
                    },
                    None => {
                        assert forall|k: int| 0 <= k < events.len() implies spawn_event(#[trigger] events[k], parents, assets) is Ok by {
                            if k > 0 {
                                assert(events[k] == rest[k - 1]);
                            }
                        }
                    },
                }
            },
        }
    }
}

} // verus!
