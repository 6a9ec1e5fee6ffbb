use vstd::prelude::*;

use crate::finalize::{asset_event_triggers_collect, AssetEventKind};
use crate::hierarchy::{collect_entities, collect_plan, find_entity, first_entity_with, Collected};

verus! {

// The hierarchy of a loaded project: worlds under the project's entity,
// levels under their world, layers under their level and entities under
// their layer. Kinds are numbered by depth: 0 worlds, 1 levels, 2 layers,
// 3 entities.

/// The kind of an item of a project.
#[derive(Clone, Copy, Debug, PartialEq, Eq)]
pub enum ItemKind {
    World,
    Level,
    Layer,
    Entity,
}

/// The kind of the items at depth `d`.
pub open spec fn kind_at(d: int) -> ItemKind {
    if d == 0 {
        ItemKind::World
    } else if d == 1 {
        ItemKind::Level
    } else if d == 2 {
        ItemKind::Layer
    } else {
        ItemKind::Entity
    }
}

/// The depth of the items of a kind.
pub open spec fn depth_of(k: ItemKind) -> int {
    match k {
        ItemKind::World => 0,
        ItemKind::Level => 1,
        ItemKind::Layer => 2,
        ItemKind::Entity => 3,
    }
}

/// The (iid, asset key) pairs of each kind that a project holds.
#[derive(Debug)]
pub struct ProjectIndex {
    pub worlds: Vec<(u128, u64)>,
    pub levels: Vec<(u128, u64)>,
    pub layers: Vec<(u128, u64)>,
    pub entities: Vec<(u128, u64)>,
}

/// The child iids of each loaded world, level and layer asset, by asset key.
#[derive(Debug)]
pub struct ChildTables {
    pub world_children: Vec<(u64, Vec<u128>)>,
    pub level_children: Vec<(u64, Vec<u128>)>,
    pub layer_children: Vec<(u64, Vec<u128>)>,
}

/// The ECS entities that hold a project, world, level, layer or entity
/// asset, as (entity, asset key) pairs.
#[derive(Debug)]
pub struct ExistingItems {
    pub projects: Vec<(u64, u64)>,
    pub worlds: Vec<(u64, u64)>,
    pub levels: Vec<(u64, u64)>,
    pub layers: Vec<(u64, u64)>,
    pub entities: Vec<(u64, u64)>,
}

/// Why a loaded project's hierarchy could not be completed.
#[derive(Clone, Copy, Debug, PartialEq, Eq)]
pub enum HierarchyError {
    /// No entity holds the project, or its asset is not loaded.
    BadProjectHandle,
    /// The project does not know this iid of this kind.
    BadProjectIid(ItemKind, u128),
    /// The asset of this world, level or layer is not loaded.
    BadWorldHandle(u64),
    BadLevelHandle(u64),
    BadLayerHandle(u64),
    /// An existing item of this kind holds an asset (by key) that is not loaded.
    BadAssetHandle(ItemKind, u64),
}

/// One item of the hierarchy: kept or spawned for its asset; when `linked`,
/// made a child of its parent (the project's entity when `parent` is `None`,
/// else the item at that position) and sent one modification event.
#[derive(Clone, Copy, Debug, PartialEq, Eq)]
pub struct PlannedItem {
    pub kind: ItemKind,
    pub parent: Option<usize>,
    pub item: Collected,
    pub linked: bool,
}

/// What is done for a loaded project, in order, up to the first error.
#[derive(Debug)]
pub struct HierarchyPlan {
    pub project_entity: Option<u64>,
    /// The existing items despawned because the project no longer lists them.
    pub despawn: Vec<u64>,
    /// The name the project's entity is given, once its asset is found.
    pub project_name: Option<String>,
    pub items: Vec<PlannedItem>,
    pub error: Option<HierarchyError>,
}

pub open spec fn project_table(t: ProjectIndex, d: int) -> Seq<(u128, u64)> {
    if d == 0 {
        t.worlds@
    } else if d == 1 {
        t.levels@
    } else if d == 2 {
        t.layers@
    } else {
        t.entities@
    }
}

pub open spec fn existing_table(e: ExistingItems, d: int) -> Seq<(u64, u64)> {
    if d == 0 {
        e.worlds@
    } else if d == 1 {
        e.levels@
    } else if d == 2 {
        e.layers@
    } else {
        e.entities@
    }
}

pub open spec fn children_table(c: ChildTables, d: int) -> Seq<(u64, Vec<u128>)> {
    if d == 0 {
        c.world_children@
    } else if d == 1 {
        c.level_children@
    } else {
        c.layer_children@
    }
}

/// The child iids the first entry for `handle` lists, if any.
pub open spec fn children_of(table: Seq<(u64, Vec<u128>)>, handle: u64) -> Option<Seq<u128>>
    decreases table.len(),
{
    if table.len() == 0 {
        None
    } else if table[0].0 == handle {
        Some(table[0].1@)
    } else {
        children_of(table.drop_first(), handle)
    }
}

/// The asset key an item holds.
pub open spec fn collected_handle(c: Collected) -> u64 {
    match c {
        Collected::Existing { handle, .. } => handle,
        Collected::Spawn { handle } => handle,
    }
}

/// The error of an asset of depth `d` (a world, level or layer) that is not loaded.
pub open spec fn bad_handle(d: int, handle: u64) -> HierarchyError {
    if d == 0 {
        HierarchyError::BadWorldHandle(handle)
    } else if d == 1 {
        HierarchyError::BadLevelHandle(handle)
    } else {
        HierarchyError::BadLayerHandle(handle)
    }
}

/// The items of a failed collection: spawned or kept, but not linked.
pub open spec fn unlinked(actions: Seq<Collected>, d: int, parent: Option<usize>) -> Seq<PlannedItem> {
    actions.map_values(|a: Collected| PlannedItem { kind: kind_at(d), parent, item: a, linked: false })
}

/// Brings the items `iids` of depth `d` under `parent`: they are collected
/// first; a failed collection stops there. Otherwise each is visited in turn.
pub open spec fn expand(
    d: int,
    parent: Option<usize>,
    iids: Seq<u128>,
    t: ProjectIndex,
    c: ChildTables,
    e: ExistingItems,
    acc: Seq<PlannedItem>,
) -> (Seq<PlannedItem>, Option<HierarchyError>)
    decreases 4 - d, 1int, 0int,
{
    if d < 0 || d > 3 {
        (acc, None)
    } else {
        let cp = collect_plan(iids, project_table(t, d), existing_table(e, d));
        match cp.1 {
            Some(bad) => (acc + unlinked(cp.0, d, parent), Some(HierarchyError::BadProjectIid(kind_at(d), bad))),
            None => visit(d, parent, cp.0, t, c, e, acc),
        }
    }
}

/// Links each collected item of depth `d` under `parent` in turn, each
/// followed by its own children (found by its asset), until an error.
pub open spec fn visit(
    d: int,
    parent: Option<usize>,
    actions: Seq<Collected>,
    t: ProjectIndex,
    c: ChildTables,
    e: ExistingItems,
    acc: Seq<PlannedItem>,
) -> (Seq<PlannedItem>, Option<HierarchyError>)
    decreases 4 - d, 0int, actions.len(),
{
    if actions.len() == 0 || d < 0 || d > 3 {
        (acc, None)
    } else {
        let a = actions[0];
        let acc1 = acc.push(PlannedItem { kind: kind_at(d), parent, item: a, linked: true });
        let me = (acc1.len() - 1) as usize;
        let below = if d == 3 {
            (acc1, None)
        } else {
            match children_of(children_table(c, d), collected_handle(a)) {
                None => (acc1, Some(bad_handle(d, collected_handle(a)))),
                Some(kids) => expand(d + 1, Some(me), kids, t, c, e, acc1),
            }
        };
        if below.1 is Some {
            below
        } else {
            visit(d, parent, actions.drop_first(), t, c, e, below.0)
        }
    }
}

/// The plan for a loaded project: its entity must exist and its asset be
/// loaded; then its worlds are brought under it, each with its descendants.
pub open spec fn hierarchy_plan(
    project: u64,
    project_loaded: bool,
    world_iids: Seq<u128>,
    t: ProjectIndex,
    c: ChildTables,
    e: ExistingItems,
) -> (Option<u64>, Seq<PlannedItem>, Option<HierarchyError>) {
    match first_entity_with(e.projects@, project) {
        None => (None, seq![], Some(HierarchyError::BadProjectHandle)),
        Some(p) => if !project_loaded {
            (Some(p), seq![], Some(HierarchyError::BadProjectHandle))
        } else {
            let r = expand(0, None, world_iids, t, c, e, seq![]);
            (Some(p), r.0, r.1)
        },
    }
}

/// The child iids the first entry for `handle` lists, if any.
fn find_children(table: &[(u64, Vec<u128>)], handle: u64) -> (r: Option<&Vec<u128>>)
    ensures
        match children_of(table@, handle) {
            Some(kids) => r matches Some(v) && v@ == kids,
            None => r is None,
        },
{
    let mut i: usize = 0;
    assert(table@.skip(0) =~= table@);
    while i < table.len()
        invariant
            i <= table@.len(),
            children_of(table@, handle) == children_of(table@.skip(i as int), handle),
        decreases table@.len() - i,
    {
        proof {
            assert(table@.skip(i as int).drop_first() =~= table@.skip(i + 1));
        }
        if table[i].0 == handle {
            return Some(&table[i].1);
        }
        i = i + 1;
    }
    None
}

fn project_slice(t: &ProjectIndex, d: u8) -> (r: &[(u128, u64)])
    requires
        d <= 3,
    ensures
        r@ == project_table(*t, d as int),
{
    if d == 0 {
        t.worlds.as_slice()
    } else if d == 1 {
        t.levels.as_slice()
    } else if d == 2 {
        t.layers.as_slice()
    } else {
        t.entities.as_slice()
    }
}

fn existing_slice(e: &ExistingItems, d: u8) -> (r: &[(u64, u64)])
    requires
        d <= 3,
    ensures
        r@ == existing_table(*e, d as int),
{
    if d == 0 {
        e.worlds.as_slice()
    } else if d == 1 {
        e.levels.as_slice()
    } else if d == 2 {
        e.layers.as_slice()
    } else {
        e.entities.as_slice()
    }
}

fn children_slice(c: &ChildTables, d: u8) -> (r: &[(u64, Vec<u128>)])
    requires
        d <= 2,
    ensures
        r@ == children_table(*c, d as int),
{
    if d == 0 {
        c.world_children.as_slice()
    } else if d == 1 {
        c.level_children.as_slice()
    } else {
        c.layer_children.as_slice()
    }
}

fn kind_of(d: u8) -> (r: ItemKind)
    ensures
        r == kind_at(d as int),
{
    if d == 0 {
        ItemKind::World
    } else if d == 1 {
        ItemKind::Level
    } else if d == 2 {
        ItemKind::Layer
    } else {
        ItemKind::Entity
    }
}

fn handle_of(a: Collected) -> (r: u64)
    ensures
        r == collected_handle(a),
{
    match a {
        Collected::Existing { handle, .. } => handle,
        Collected::Spawn { handle } => handle,
    }
}

fn bad_handle_error(d: u8, handle: u64) -> (r: HierarchyError)
    ensures
        r == bad_handle(d as int, handle),
{
    if d == 0 {
        HierarchyError::BadWorldHandle(handle)
    } else if d == 1 {
        HierarchyError::BadLevelHandle(handle)
    } else {
        HierarchyError::BadLayerHandle(handle)
    }
}

fn run_expand(
    d: u8,
    parent: Option<usize>,
    iids: &[u128],
    t: &ProjectIndex,
    c: &ChildTables,
    e: &ExistingItems,
    acc: &mut Vec<PlannedItem>,
) -> (r: Option<HierarchyError>)
    requires
        d <= 3,
    ensures
        (final(acc)@, r) == expand(d as int, parent, iids@, *t, *c, *e, old(acc)@),
    decreases 4 - d, 1int, 0int,
{
    let plan = collect_entities(iids, project_slice(t, d), existing_slice(e, d));
    match plan.bad_project_iid {
        Some(bad) => {
            let kind = kind_of(d);
            let ghost before = acc@;
            let mut i: usize = 0;
            while i < plan.actions.len()
                invariant
                    i <= plan.actions@.len(),
                    kind == kind_at(d as int),
                    acc@ == before + unlinked(plan.actions@.take(i as int), d as int, parent),
                decreases plan.actions@.len() - i,
            {
                acc.push(PlannedItem { kind, parent, item: plan.actions[i], linked: false });
                i = i + 1;
                assert(acc@ =~= before + unlinked(plan.actions@.take(i as int), d as int, parent));
            }
            assert(plan.actions@.take(plan.actions@.len() as int) =~= plan.actions@);
            Some(HierarchyError::BadProjectIid(kind, bad))
        },
        None => {
            assert(plan.actions@.skip(0) =~= plan.actions@);
            run_visit(d, parent, plan.actions.as_slice(), 0, t, c, e, acc)
        },
    }
}

fn run_visit(
    d: u8,
    parent: Option<usize>,
    actions: &[Collected],
    from: usize,
    t: &ProjectIndex,
    c: &ChildTables,
    e: &ExistingItems,
    acc: &mut Vec<PlannedItem>,
) -> (r: Option<HierarchyError>)
    requires
        d <= 3,
        from <= actions@.len(),
    ensures
        (final(acc)@, r) == visit(d as int, parent, actions@.skip(from as int), *t, *c, *e, old(acc)@),
    decreases 4 - d, 0int, actions@.len() - from,
{
    if from == actions.len() {
        return None;
    }
    let a = actions[from];
    assert(actions@.skip(from as int)[0] == a);
    acc.push(PlannedItem { kind: kind_of(d), parent, item: a, linked: true });
    let me = acc.len() - 1;
    if d < 3 {
        match find_children(children_slice(c, d), handle_of(a)) {
            None => {
                return Some(bad_handle_error(d, handle_of(a)));
            },
            Some(kids) => {
                let err = run_expand(d + 1, Some(me), kids.as_slice(), t, c, e, acc);
                if err.is_some() {
                    return err;
                }
            },
        }
    }
    assert(actions@.skip(from as int).drop_first() =~= actions@.skip(from + 1));
    run_visit(d, parent, actions, from + 1, t, c, e, acc)
}

/// Plans the hierarchy of a loaded project, given its asset key, whether its
/// asset is loaded, the path of its asset, the iids of its worlds, its tables
/// of items, the child iids of its loaded assets, the ECS entities holding
/// its assets and the iids of the loaded assets: the project's entity is
/// named, its items are brought in under their parents, and then the
/// existing items the project no longer lists are despawned.
pub fn plan_loaded_project(
    project: u64,
    project_loaded: bool,
    project_path: Option<String>,
    world_iids: &[u128],
    index: &ProjectIndex,
    children: &ChildTables,
    existing: &ExistingItems,
    asset_iids: &AssetIids,
) -> (r: HierarchyPlan)
    ensures
        plan_view(r) == loaded_plan(project, project_loaded, world_iids@, *index, *children, *existing, *asset_iids),
        match r.project_name {
            Some(n) => r.project_entity is Some && project_loaded && n@ == project_name(project_path),
            None => r.project_entity is None || !project_loaded,
        },
{
    match find_entity(existing.projects.as_slice(), project) {
        None => HierarchyPlan {
            project_entity: None,
            despawn: Vec::new(),
            project_name: None,
            items: Vec::new(),
            error: Some(HierarchyError::BadProjectHandle),
        },
        Some(p) => {
            if !project_loaded {
                return HierarchyPlan {
                    project_entity: Some(p),
                    despawn: Vec::new(),
                    project_name: None,
                    items: Vec::new(),
                    error: Some(HierarchyError::BadProjectHandle),
                };
            }
            let name = match project_path {
                Some(path) => path,
                None => "LdtkProject".to_string(),
            };
            let mut items: Vec<PlannedItem> = Vec::new();
            let error = run_expand(0, None, world_iids, index, children, existing, &mut items);
            if error.is_some() {
                return HierarchyPlan { project_entity: Some(p), despawn: Vec::new(), project_name: Some(name), items, error };
            }
            let (despawn, error) = run_despawns(index, existing, asset_iids);
            HierarchyPlan { project_entity: Some(p), despawn, project_name: Some(name), items, error }
        },
    }
}

/// The iid of each loaded world, level, layer and entity asset, by asset key.
#[derive(Debug)]
pub struct AssetIids {
    pub worlds: Vec<(u64, u128)>,
    pub levels: Vec<(u64, u128)>,
    pub layers: Vec<(u64, u128)>,
    pub entities: Vec<(u64, u128)>,
}

pub open spec fn asset_iid_table(a: AssetIids, d: int) -> Seq<(u64, u128)> {
    if d == 0 {
        a.worlds@
    } else if d == 1 {
        a.levels@
    } else if d == 2 {
        a.layers@
    } else {
        a.entities@
    }
}

/// The iid of the first loaded asset with key `handle`, if any.
pub open spec fn iid_of(table: Seq<(u64, u128)>, handle: u64) -> Option<u128>
    decreases table.len(),
{
    if table.len() == 0 {
        None
    } else if table[0].0 == handle {
        Some(table[0].1)
    } else {
        iid_of(table.drop_first(), handle)
    }
}

/// The existing items as (entity, asset key, iid of the loaded asset).
pub open spec fn with_iids(existing: Seq<(u64, u64)>, table: Seq<(u64, u128)>) -> Seq<(u64, u64, Option<u128>)> {
    existing.map_values(|p: (u64, u64)| (p.0, p.1, iid_of(table, p.1)))
}

/// The existing items of depth `d` and deeper that are despawned because the
/// project's table of their kind no longer lists their asset's iid, kind by
/// kind; an item whose asset is not loaded stops the walk with an error.
pub open spec fn despawns_from(d: int, t: ProjectIndex, e: ExistingItems, a: AssetIids) -> (Seq<u64>, Option<HierarchyError>)
    decreases 4 - d,
{
    if d < 0 || d > 3 {
        (seq![], None)
    } else {
        let dp = crate::hierarchy::despawn_plan(
            with_iids(existing_table(e, d), asset_iid_table(a, d)),
            table_iids(project_table(t, d)),
        );
        match dp.1 {
            Some(h) => (dp.0, Some(HierarchyError::BadAssetHandle(kind_at(d), h))),
            None => {
                let rest = despawns_from(d + 1, t, e, a);
                (dp.0 + rest.0, rest.1)
            },
        }
    }
}

/// The whole plan for a loaded project, as (project entity, items, despawned
/// entities, error): the hierarchy is brought in, and when that succeeds the
/// orphans of each kind are despawned.
pub open spec fn loaded_plan(
    project: u64,
    project_loaded: bool,
    world_iids: Seq<u128>,
    t: ProjectIndex,
    c: ChildTables,
    e: ExistingItems,
    a: AssetIids,
) -> (Option<u64>, Seq<PlannedItem>, Seq<u64>, Option<HierarchyError>) {
    let h = hierarchy_plan(project, project_loaded, world_iids, t, c, e);
    if h.0 is Some && project_loaded && h.2 is None {
        let dz = despawns_from(0, t, e, a);
        (h.0, h.1, dz.0, dz.1)
    } else {
        (h.0, h.1, seq![], h.2)
    }
}

fn find_iid(table: &[(u64, u128)], handle: u64) -> (r: Option<u128>)
    ensures
        r == iid_of(table@, handle),
{
    let mut i: usize = 0;
    assert(table@.skip(0) =~= table@);
    while i < table.len()
        invariant
            i <= table@.len(),
            iid_of(table@, handle) == iid_of(table@.skip(i as int), handle),
        decreases table@.len() - i,
    {
        proof {
            assert(table@.skip(i as int).drop_first() =~= table@.skip(i + 1));
        }
        if table[i].0 == handle {
            return Some(table[i].1);
        }
        i = i + 1;
    }
    None
}

fn iid_slice(a: &AssetIids, d: u8) -> (r: &[(u64, u128)])
    requires
        d <= 3,
    ensures
        r@ == asset_iid_table(*a, d as int),
{
    if d == 0 {
        a.worlds.as_slice()
    } else if d == 1 {
        a.levels.as_slice()
    } else if d == 2 {
        a.layers.as_slice()
    } else {
        a.entities.as_slice()
    }
}

/// The existing items of depth `d` with the iids of their loaded assets.
fn items_with_iids(existing: &[(u64, u64)], table: &[(u64, u128)]) -> (r: Vec<(u64, u64, Option<u128>)>)
    ensures
        r@ == with_iids(existing@, table@),
{
    let mut out: Vec<(u64, u64, Option<u128>)> = Vec::new();
    let mut i: usize = 0;
    while i < existing.len()
        invariant
            i <= existing@.len(),
            out@ == with_iids(existing@.take(i as int), table@),
        decreases existing@.len() - i,
    {
        let (entity, handle) = existing[i];
        out.push((entity, handle, find_iid(table, handle)));
        i = i + 1;
        assert(out@ =~= with_iids(existing@.take(i as int), table@));
    }
    assert(existing@.take(existing@.len() as int) =~= existing@);
    out
}

/// The iids of a table of the project.
fn iids_of_table(table: &[(u128, u64)]) -> (r: Vec<u128>)
    ensures
        r@ == table_iids(table@),
{
    let mut out: Vec<u128> = Vec::new();
    let mut i: usize = 0;
    while i < table.len()
        invariant
            i <= table@.len(),
            out@ == table_iids(table@.take(i as int)),
        decreases table@.len() - i,
    {
        out.push(table[i].0);
        i = i + 1;
        assert(out@ =~= table_iids(table@.take(i as int)));
    }
    assert(table@.take(table@.len() as int) =~= table@);
    out
}

/// Despawns the orphans of every kind, from worlds to entities.
fn run_despawns(t: &ProjectIndex, e: &ExistingItems, a: &AssetIids) -> (r: (Vec<u64>, Option<HierarchyError>))
    ensures
        (r.0@, r.1) == despawns_from(0, *t, *e, *a),
{
    let mut out: Vec<u64> = Vec::new();
    let mut d: u8 = 0;
    while d < 4
        invariant
            d <= 4,
            despawns_from(0, *t, *e, *a) == (out@ + despawns_from(d as int, *t, *e, *a).0, despawns_from(d as int, *t, *e, *a).1),
        decreases 4 - d,
    {
        let items = items_with_iids(existing_slice(e, d), iid_slice(a, d));
        let keep = iids_of_table(project_slice(t, d));
        let plan = crate::hierarchy::despawn_orphaned_entities(items.as_slice(), keep.as_slice());
        let ghost before = out@;
        let mut j: usize = 0;
        while j < plan.despawn.len()
            invariant
                j <= plan.despawn@.len(),
                out@ == before + plan.despawn@.take(j as int),
            decreases plan.despawn@.len() - j,
        {
            out.push(plan.despawn[j]);
            j = j + 1;
            assert(out@ =~= before + plan.despawn@.take(j as int));
        }
        assert(plan.despawn@.take(plan.despawn@.len() as int) =~= plan.despawn@);
        match plan.bad_handle {
            Some(h) => {
                return (out, Some(HierarchyError::BadAssetHandle(kind_of(d), h)));
            },
            None => {
                proof {
                    let rest = despawns_from(d + 1, *t, *e, *a);
                    assert(before + (plan.despawn@ + rest.0) =~= out@ + rest.0);
                }
            },
        }
        d = d + 1;
    }
    assert(out@ + Seq::<u64>::empty() =~= out@);
    (out, None)
}

/// The name a project's entity is given: the path of its asset, or
/// `LdtkProject` when the asset has none.
pub open spec fn project_name(path: Option<String>) -> Seq<char> {
    match path {
        Some(p) => p@,
        None => "LdtkProject"@,
    }
}

/// A project asset that has loaded: its key, path, world iids and tables.
#[derive(Debug)]
pub struct LoadedProject {
    pub id: u64,
    pub path: Option<String>,
    pub world_iids: Vec<u128>,
    pub index: ProjectIndex,
    pub children: ChildTables,
}

/// The first loaded project with key `id`, if any.
pub open spec fn loaded_with_id(loaded: Seq<LoadedProject>, id: u64) -> Option<LoadedProject>
    decreases loaded.len(),
{
    if loaded.len() == 0 {
        None
    } else if loaded[0].id == id {
        Some(loaded[0])
    } else {
        loaded_with_id(loaded.drop_first(), id)
    }
}

/// The plan for the project with key `id`, as (project entity, items, error):
/// a project that is not among the loaded ones gives the bad-handle error.
pub open spec fn plan_for(
    id: u64,
    loaded: Seq<LoadedProject>,
    e: ExistingItems,
    a: AssetIids,
) -> (Option<u64>, Seq<PlannedItem>, Seq<u64>, Option<HierarchyError>) {
    match loaded_with_id(loaded, id) {
        Some(l) => loaded_plan(id, true, l.world_iids@, l.index, l.children, e, a),
        None => match first_entity_with(e.projects@, id) {
            None => (None, seq![], seq![], Some(HierarchyError::BadProjectHandle)),
            Some(p) => (Some(p), seq![], seq![], Some(HierarchyError::BadProjectHandle)),
        },
    }
}

/// A plan read as (project entity, items, error).
pub open spec fn plan_view(p: HierarchyPlan) -> (Option<u64>, Seq<PlannedItem>, Seq<u64>, Option<HierarchyError>) {
    (p.project_entity, p.items@, p.despawn@, p.error)
}

/// The plans made for a list of project asset events, in order: one for
/// each event that says a project loaded with its dependencies, the others
/// doing nothing; the first plan that ends in an error is the last.
pub open spec fn event_plans(
    events: Seq<(AssetEventKind, u64)>,
    loaded: Seq<LoadedProject>,
    e: ExistingItems,
    a: AssetIids,
) -> Seq<(Option<u64>, Seq<PlannedItem>, Seq<u64>, Option<HierarchyError>)>
    decreases events.len(),
{
    if events.len() == 0 {
        seq![]
    } else if events[0].0 != AssetEventKind::LoadedWithDependencies {
        event_plans(events.drop_first(), loaded, e, a)
    } else {
        let p = plan_for(events[0].1, loaded, e, a);
        if p.3 is Some {
            seq![p]
        } else {
            seq![p] + event_plans(events.drop_first(), loaded, e, a)
        }
    }
}

/// What handling a list of project asset events did, up to the first error.
#[derive(Debug)]
pub struct ProjectEventsOutcome {
    pub plans: Vec<HierarchyPlan>,
    pub error: Option<HierarchyError>,
}

/// The first loaded project with key `id`.
fn find_loaded(loaded: &[LoadedProject], id: u64) -> (r: Option<&LoadedProject>)
    ensures
        match loaded_with_id(loaded@, id) {
            Some(l) => r == Some(&l),
            None => r is None,
        },
{
    let mut i: usize = 0;
    assert(loaded@.skip(0) =~= loaded@);
    while i < loaded.len()
        invariant
            i <= loaded@.len(),
            loaded_with_id(loaded@, id) == loaded_with_id(loaded@.skip(i as int), id),
        decreases loaded@.len() - i,
    {
        proof {
            assert(loaded@.skip(i as int).drop_first() =~= loaded@.skip(i + 1));
        }
        if loaded[i].id == id {
            return Some(&loaded[i]);
        }
        i = i + 1;
    }
    None
}

/// Handles the asset events of projects in order: each event saying that a
/// project loaded with its dependencies brings that project's hierarchy into
/// the ECS world (the other events do nothing); the first plan that fails
/// ends the handling, and its error is the outcome's. Every plan is made
/// against the same existing items, as commands take effect only afterwards.
pub fn asset_event_system(
    events: &[(AssetEventKind, u64)],
    loaded: &[LoadedProject],
    existing: &ExistingItems,
    asset_iids: &AssetIids,
) -> (r: ProjectEventsOutcome)
    ensures
        r.plans@.map_values(|p: HierarchyPlan| plan_view(p)) == event_plans(events@, loaded@, *existing, *asset_iids),
        r.error is Some <==> (r.plans@.len() > 0 && r.plans@.last().error is Some),
        r.error is Some ==> r.error == r.plans@.last().error,
{
    let mut plans: Vec<HierarchyPlan> = Vec::new();
    let mut i: usize = 0;
    assert(events@.skip(0) =~= events@);
    while i < events.len()
        invariant
            i <= events@.len(),
            forall|j: int| 0 <= j < plans@.len() ==> (#[trigger] plans@[j]).error is None,
            event_plans(events@, loaded@, *existing, *asset_iids) == plans@.map_values(|p: HierarchyPlan| plan_view(p))
                + event_plans(events@.skip(i as int), loaded@, *existing, *asset_iids),
        decreases events@.len() - i,
    {
        let (kind, id) = events[i];
        proof {
            assert(events@.skip(i as int).drop_first() =~= events@.skip(i + 1));
            assert(events@.skip(i as int)[0] == (kind, id));
        }
        if asset_event_triggers_collect(kind) {
            let plan = match find_loaded(loaded, id) {
                Some(l) => plan_loaded_project(
                    id,
                    true,
                    match &l.path {
                        Some(p) => Some(p.clone()),
                        None => None,
                    },
                    l.world_iids.as_slice(),
                    &l.index,
                    &l.children,
                    existing,
                    asset_iids,
                ),
                None => plan_loaded_project(
                    id,
                    false,
                    None,
                    &[],
                    &ProjectIndex { worlds: Vec::new(), levels: Vec::new(), layers: Vec::new(), entities: Vec::new() },
                    &ChildTables { world_children: Vec::new(), level_children: Vec::new(), layer_children: Vec::new() },
                    existing,
                    asset_iids,
                ),
            };
            let failed = plan.error.is_some();
            let ghost before = plans@;
            let ghost pv = plan_view(plan);
            plans.push(plan);
            proof {
                assert(plans@.map_values(|p: HierarchyPlan| plan_view(p)) =~= before.map_values(
                    |p: HierarchyPlan| plan_view(p),
                ).push(pv));
            }
            if failed {
                proof {
                    assert(before.map_values(|p: HierarchyPlan| plan_view(p)) + seq![pv] =~= plans@.map_values(
                        |p: HierarchyPlan| plan_view(p),
                    ));
                }
                let error = plans[plans.len() - 1].error;
                return ProjectEventsOutcome { plans, error };
            }
            proof {
                assert(before.map_values(|p: HierarchyPlan| plan_view(p)) + (seq![pv] + event_plans(
                    events@.skip(i + 1),
                    loaded@,
                    *existing,
                    *asset_iids,
                )) =~= plans@.map_values(|p: HierarchyPlan| plan_view(p)) + event_plans(
                    events@.skip(i + 1),
                    loaded@,
                    *existing,
                    *asset_iids,
                ));
            }
        }
        i = i + 1;
    }
    proof {
        assert(plans@.map_values(|p: HierarchyPlan| plan_view(p)) + event_plans(events@.skip(i as int), loaded@, *existing, *asset_iids)
            =~= plans@.map_values(|p: HierarchyPlan| plan_view(p)));
    }
    ProjectEventsOutcome { plans, error: None }
}

/// A linked item sits under its parent: a world under the project's entity,
/// any other item under an earlier linked item of the kind just above it.
pub open spec fn linked_under_parent(items: Seq<PlannedItem>, i: int) -> bool {
    match items[i].parent {
        None => items[i].kind == ItemKind::World,
        Some(p) => p < i && items[p as int].linked && depth_of(items[p as int].kind) + 1 == depth_of(items[i].kind),
    }
}

/// Every linked item of the plan sits under its parent.
pub open spec fn tree_wf(items: Seq<PlannedItem>) -> bool {
    forall|i: int| 0 <= i < items.len() && (#[trigger] items[i]).linked ==> linked_under_parent(items, i)
}

/// `parent` can hold items of depth `d`.
pub open spec fn parent_ok(items: Seq<PlannedItem>, parent: Option<usize>, d: int) -> bool {
    match parent {
        None => d == 0,
        Some(p) => p < items.len() && items[p as int].linked && depth_of(items[p as int].kind) + 1 == d,
    }
}

/// `a` begins `b`.
pub open spec fn extends(b: Seq<PlannedItem>, a: Seq<PlannedItem>) -> bool {
    a.len() <= b.len() && b.take(a.len() as int) == a
}

proof fn lemma_expand_extends(
    d: int,
    parent: Option<usize>,
    iids: Seq<u128>,
    t: ProjectIndex,
    c: ChildTables,
    e: ExistingItems,
    acc: Seq<PlannedItem>,
)
    ensures
        extends(expand(d, parent, iids, t, c, e, acc).0, acc),
    decreases 4 - d, 1int, 0int,
{
    if 0 <= d <= 3 {
        let cp = collect_plan(iids, project_table(t, d), existing_table(e, d));
        match cp.1 {
            Some(bad) => {
                assert((acc + unlinked(cp.0, d, parent)).take(acc.len() as int) =~= acc);
            },
            None => lemma_visit_extends(d, parent, cp.0, t, c, e, acc),
        }
    } else {
        assert(acc.take(acc.len() as int) =~= acc);
    }
}

proof fn lemma_visit_extends(
    d: int,
    parent: Option<usize>,
    actions: Seq<Collected>,
    t: ProjectIndex,
    c: ChildTables,
    e: ExistingItems,
    acc: Seq<PlannedItem>,
)
    ensures
        extends(visit(d, parent, actions, t, c, e, acc).0, acc),
    decreases 4 - d, 0int, actions.len(),
{
    if actions.len() == 0 || d < 0 || d > 3 {
        assert(acc.take(acc.len() as int) =~= acc);
    } else {
        let a = actions[0];
        let acc1 = acc.push(PlannedItem { kind: kind_at(d), parent, item: a, linked: true });
        let me = (acc1.len() - 1) as usize;
        assert(acc1.take(acc.len() as int) =~= acc);
        assert(acc1.take(acc1.len() as int) =~= acc1);
        let below: (Seq<PlannedItem>, Option<HierarchyError>) = if d == 3 {
            (acc1, None)
        } else {
            match children_of(children_table(c, d), collected_handle(a)) {
                None => (acc1, Some(bad_handle(d, collected_handle(a)))),
                Some(kids) => expand(d + 1, Some(me), kids, t, c, e, acc1),
            }
        };
        if d < 3 {
            if let Some(kids) = children_of(children_table(c, d), collected_handle(a)) {
                lemma_expand_extends(d + 1, Some(me), kids, t, c, e, acc1);
            }
        }
        lemma_extends_trans(acc, acc1, below.0);
        if below.1 is None {
            lemma_visit_extends(d, parent, actions.drop_first(), t, c, e, below.0);
            lemma_extends_trans(acc, below.0, visit(d, parent, actions.drop_first(), t, c, e, below.0).0);
        }
    }
}

proof fn lemma_expand_wf(
    d: int,
    parent: Option<usize>,
    iids: Seq<u128>,
    t: ProjectIndex,
    c: ChildTables,
    e: ExistingItems,
    acc: Seq<PlannedItem>,
)
    requires
        0 <= d <= 3,
        tree_wf(acc),
        parent_ok(acc, parent, d),
    ensures
        expand(d, parent, iids, t, c, e, acc).0.len() <= usize::MAX ==> tree_wf(expand(d, parent, iids, t, c, e, acc).0),
    decreases 4 - d, 1int, 0int,
{
    let cp = collect_plan(iids, project_table(t, d), existing_table(e, d));
    match cp.1 {
        Some(bad) => {
            let r = acc + unlinked(cp.0, d, parent);
            assert forall|i: int| 0 <= i < r.len() && (#[trigger] r[i]).linked implies linked_under_parent(r, i) by {
                if i >= acc.len() {
                    assert(r[i] == unlinked(cp.0, d, parent)[i - acc.len()]);
                } else {
                    assert(r[i] == acc[i]);
                    assert(linked_under_parent(acc, i));
                    if let Some(p) = acc[i].parent {
                        assert(r[p as int] == acc[p as int]);
                    }
                }
            }
        },
        None => {
            lemma_visit_wf(d, parent, cp.0, t, c, e, acc);
        },
    }
}

proof fn lemma_push_linked_wf(acc: Seq<PlannedItem>, parent: Option<usize>, d: int, a: Collected)
    requires
        0 <= d <= 3,
        tree_wf(acc),
        parent_ok(acc, parent, d),
    ensures
        extends(acc.push(PlannedItem { kind: kind_at(d), parent, item: a, linked: true }), acc),
        tree_wf(acc.push(PlannedItem { kind: kind_at(d), parent, item: a, linked: true })),
        acc.len() < usize::MAX ==> parent_ok(
            acc.push(PlannedItem { kind: kind_at(d), parent, item: a, linked: true }),
            Some(acc.len() as usize),
            d + 1,
        ),
{
    let item = PlannedItem { kind: kind_at(d), parent, item: a, linked: true };
    let acc1 = acc.push(item);
    assert(acc1.take(acc.len() as int) =~= acc);
    assert forall|i: int| 0 <= i < acc1.len() && (#[trigger] acc1[i]).linked implies linked_under_parent(acc1, i) by {
        if i < acc.len() {
            assert(acc1[i] == acc[i]);
            assert(linked_under_parent(acc, i));
            if let Some(p) = acc[i].parent {
                assert(acc1[p as int] == acc[p as int]);
            }
        } else {
            assert(acc1[i] == item);
            if let Some(p) = parent {
                assert(acc1[p as int] == acc[p as int]);
            }
        }
    }
}

proof fn lemma_extends_trans(a: Seq<PlannedItem>, b: Seq<PlannedItem>, c: Seq<PlannedItem>)
    requires
        extends(b, a),
        extends(c, b),
    ensures
        extends(c, a),
{
    assert(c.take(a.len() as int) =~= c.take(b.len() as int).take(a.len() as int));
}

proof fn lemma_parent_kept(a: Seq<PlannedItem>, b: Seq<PlannedItem>, parent: Option<usize>, d: int)
    requires
        extends(b, a),
        parent_ok(a, parent, d),
    ensures
        parent_ok(b, parent, d),
{
    if let Some(p) = parent {
        assert(b[p as int] == b.take(a.len() as int)[p as int]);
    }
}

proof fn lemma_visit_wf(
    d: int,
    parent: Option<usize>,
    actions: Seq<Collected>,
    t: ProjectIndex,
    c: ChildTables,
    e: ExistingItems,
    acc: Seq<PlannedItem>,
)
    requires
        0 <= d <= 3,
        tree_wf(acc),
        parent_ok(acc, parent, d),
    ensures
        visit(d, parent, actions, t, c, e, acc).0.len() <= usize::MAX ==> tree_wf(visit(d, parent, actions, t, c, e, acc).0),
    decreases 4 - d, 0int, actions.len(),
{
    if actions.len() > 0 {
        let a = actions[0];
        let acc1 = acc.push(PlannedItem { kind: kind_at(d), parent, item: a, linked: true });
        let me = (acc1.len() - 1) as usize;
        lemma_push_linked_wf(acc, parent, d, a);
        assert(acc1.take(acc1.len() as int) =~= acc1);
        let below: (Seq<PlannedItem>, Option<HierarchyError>) = if d == 3 {
            (acc1, None)
        } else {
            match children_of(children_table(c, d), collected_handle(a)) {
                None => (acc1, Some(bad_handle(d, collected_handle(a)))),
                Some(kids) => expand(d + 1, Some(me), kids, t, c, e, acc1),
            }
        };
        lemma_visit_extends(d, parent, actions, t, c, e, acc);
        if d < 3 {
            if let Some(kids) = children_of(children_table(c, d), collected_handle(a)) {
                lemma_expand_extends(d + 1, Some(me), kids, t, c, e, acc1);
                if acc.len() < usize::MAX {
                    lemma_expand_wf(d + 1, Some(me), kids, t, c, e, acc1);
                }
            }
        }
        if below.1 is None {
            lemma_visit_extends(d, parent, actions.drop_first(), t, c, e, below.0);
            if below.0.len() <= usize::MAX && acc.len() < usize::MAX {
                lemma_extends_trans(acc, acc1, below.0);
                lemma_parent_kept(acc, below.0, parent, d);
                lemma_visit_wf(d, parent, actions.drop_first(), t, c, e, below.0);
            }
        }
    }
}

/// Every item the plan for a loaded project links sits under its parent: a
/// world under the project's entity, a level under a world, a layer under a
/// level and an entity under a layer, each parent linked earlier in the plan.
pub proof fn law_loaded_project_items_sit_under_their_parents(
    project: u64,
    project_loaded: bool,
    world_iids: Seq<u128>,
    t: ProjectIndex,
    c: ChildTables,
    e: ExistingItems,
)
    requires
        hierarchy_plan(project, project_loaded, world_iids, t, c, e).1.len() <= usize::MAX,
    ensures
        tree_wf(hierarchy_plan(project, project_loaded, world_iids, t, c, e).1),
{
    if first_entity_with(e.projects@, project) is Some && project_loaded {
        lemma_expand_wf(0, None, world_iids, t, c, e, seq![]);
    }
}

} // verus!

verus! {

/// The iids a table of the project holds.
pub open spec fn table_iids(table: Seq<(u128, u64)>) -> Seq<u128> {
    table.map_values(|p: (u128, u64)| p.0)
}

/// The project knows an iid exactly when its table lists it.
pub proof fn lemma_lookup_handle_listed(table: Seq<(u128, u64)>, iid: u128)
    ensures
        crate::hierarchy::lookup_handle(table, iid) is Some <==> table_iids(table).contains(iid),
    decreases table.len(),
{
    if table.len() > 0 {
        lemma_lookup_handle_listed(table.drop_first(), iid);
        let rest = table_iids(table.drop_first());
        assert(table_iids(table) =~= seq![table[0].0] + rest);
        if rest.contains(iid) {
            let j = choose|j: int| 0 <= j < rest.len() && rest[j] == iid;
            assert(table_iids(table)[j + 1] == iid);
        }
        if table_iids(table).contains(iid) && table[0].0 != iid {
            let j = choose|j: int| 0 <= j < table_iids(table).len() && table_iids(table)[j] == iid;
            assert(rest[j - 1] == iid);
        }
        assert(table_iids(table)[0] == table[0].0);
    }
}

/// After a project has loaded, despawning the orphans of one kind against the
/// iids of the project's table of that kind (the table its plan collects
/// from) removes an entity exactly when the project does not know the iid of
/// its asset: what the plan can bring in stays, and nothing else does. Every
/// entity's asset is loaded and no entity is listed twice.
pub proof fn law_despawn_after_load_removes_what_the_project_dropped(
    entities: Seq<(u64, u64, Option<u128>)>,
    t: ProjectIndex,
    d: int,
)
    requires
        forall|k: int| 0 <= k < entities.len() ==> (#[trigger] entities[k]).2 is Some,
        forall|a: int, b: int| 0 <= a < b < entities.len() ==> #[trigger] entities[a].0 != #[trigger] entities[b].0,
    ensures
        crate::hierarchy::despawn_plan(entities, table_iids(project_table(t, d))).1 is None,
        forall|k: int| 0 <= k < entities.len() ==> (crate::hierarchy::despawn_plan(
            entities,
            table_iids(project_table(t, d)),
        ).0.contains((#[trigger] entities[k]).0) <==> crate::hierarchy::lookup_handle(
            project_table(t, d),
            entities[k].2->0,
        ) is None),
{
    let keep = table_iids(project_table(t, d));
    crate::hierarchy::law_despawn_removes_exactly_the_orphans(entities, keep);
    let gone = crate::hierarchy::despawn_plan(entities, keep).0;
    assert forall|k: int| 0 <= k < entities.len() implies (gone.contains((#[trigger] entities[k]).0)
        <==> crate::hierarchy::lookup_handle(project_table(t, d), entities[k].2->0) is None) by {
        lemma_lookup_handle_listed(project_table(t, d), entities[k].2->0);
        if gone.contains(entities[k].0) {
            let m = choose|m: int| 0 <= m < entities.len() && (#[trigger] entities[m]).0 == entities[k].0
                && !keep.contains(entities[m].2->0);
            if m != k {
                if m < k {
                    assert(entities[m].0 != entities[k].0);
                } else {
                    assert(entities[k].0 != entities[m].0);
                }
            }
        }
    }
}

/// The layer assets a level lists, as its children: the asset keys of its
/// (iid, asset key) table, in order.
pub fn level_children(layers: &[(u128, u64)]) -> (r: Vec<u64>)
    ensures
        r@ == layers@.map_values(|p: (u128, u64)| p.1),
{
    let mut out: Vec<u64> = Vec::new();
    let mut i: usize = 0;
    while i < layers.len()
        invariant
            i <= layers@.len(),
            out@ == layers@.take(i as int).map_values(|p: (u128, u64)| p.1),
        decreases layers@.len() - i,
    {
        out.push(layers[i].1);
        i = i + 1;
        assert(out@ =~= layers@.take(i as int).map_values(|p: (u128, u64)| p.1));
    }
    assert(layers@.take(layers@.len() as int) =~= layers@);
    out
}

} // verus!

verus! {

/// An entity that a despawn walk without error reaches, whose asset's iid is
/// not kept, is despawned.
proof fn lemma_despawn_plan_removes_orphan(
    entities: Seq<(u64, u64, Option<u128>)>,
    keep: Seq<u128>,
    k: int,
    x: u128,
)
    requires
        0 <= k < entities.len(),
        entities[k].2 == Some(x),
        !keep.contains(x),
        crate::hierarchy::despawn_plan(entities, keep).1 is None,
    ensures
        crate::hierarchy::despawn_plan(entities, keep).0.contains(entities[k].0),
    decreases entities.len(),
{
    let rest = entities.drop_first();
    let r = crate::hierarchy::despawn_plan(rest, keep);
    let all = crate::hierarchy::despawn_plan(entities, keep);
    if k == 0 {
        assert(all.0 == seq![entities[0].0] + r.0);
        assert(all.0[0] == entities[0].0);
    } else {
        assert(entities[0].2 is Some);
        assert(rest[k - 1] == entities[k]);
        lemma_despawn_plan_removes_orphan(rest, keep, k - 1, x);
        let i = choose|i: int| 0 <= i < r.0.len() && r.0[i] == entities[k].0;
        if keep.contains(entities[0].2->0) {
            assert(all.0 == r.0);
        } else {
            assert(all.0 == seq![entities[0].0] + r.0);
            assert(all.0[i + 1] == r.0[i]);
        }
    }
}

/// A despawn of every kind from depth `d0` on that ends without error has
/// walked each kind `d` from `d0` to entities without error, and despawned
/// everything that kind's walk despawns.
proof fn lemma_despawns_from_covers(d0: int, d: int, t: ProjectIndex, e: ExistingItems, a: AssetIids, x: u64)
    requires
        0 <= d0 <= d <= 3,
        despawns_from(d0, t, e, a).1 is None,
        crate::hierarchy::despawn_plan(
            with_iids(existing_table(e, d), asset_iid_table(a, d)),
            table_iids(project_table(t, d)),
        ).0.contains(x),
    ensures
        crate::hierarchy::despawn_plan(
            with_iids(existing_table(e, d), asset_iid_table(a, d)),
            table_iids(project_table(t, d)),
        ).1 is None,
        despawns_from(d0, t, e, a).0.contains(x),
    decreases d - d0,
{
    let dp = crate::hierarchy::despawn_plan(
        with_iids(existing_table(e, d0), asset_iid_table(a, d0)),
        table_iids(project_table(t, d0)),
    );
    assert(dp.1 is None);
    let rest = despawns_from(d0 + 1, t, e, a);
    assert(despawns_from(d0, t, e, a).0 == dp.0 + rest.0);
    if d == d0 {
        let i = choose|i: int| 0 <= i < dp.0.len() && dp.0[i] == x;
        assert((dp.0 + rest.0)[i] == x);
    } else {
        lemma_despawns_from_covers(d0 + 1, d, t, e, a, x);
        let i = choose|i: int| 0 <= i < rest.0.len() && rest.0[i] == x;
        assert((dp.0 + rest.0)[dp.0.len() + i] == x);
    }
}

/// A loaded project's plan that ends without error despawns every existing
/// item, of every kind (worlds, levels, layers and entities), whose loaded
/// asset's iid the project's table of that kind no longer lists.
pub proof fn law_loaded_plan_despawns_orphans_of_every_kind(
    project: u64,
    project_loaded: bool,
    world_iids: Seq<u128>,
    t: ProjectIndex,
    c: ChildTables,
    e: ExistingItems,
    a: AssetIids,
    d: int,
    k: int,
    x: u128,
)
    requires
        0 <= d <= 3,
        0 <= k < existing_table(e, d).len(),
        iid_of(asset_iid_table(a, d), existing_table(e, d)[k].1) == Some(x),
        !table_iids(project_table(t, d)).contains(x),
        loaded_plan(project, project_loaded, world_iids, t, c, e, a).3 is None,
    ensures
        loaded_plan(project, project_loaded, world_iids, t, c, e, a).2.contains(existing_table(e, d)[k].0),
{
    let h = hierarchy_plan(project, project_loaded, world_iids, t, c, e);
    assert(h.0 is Some && project_loaded && h.2 is None);
    let entities = with_iids(existing_table(e, d), asset_iid_table(a, d));
    let keep = table_iids(project_table(t, d));
    assert(entities[k] == (existing_table(e, d)[k].0, existing_table(e, d)[k].1, Some(x)));
    // The walk of kind `d` ends without error: otherwise the whole walk would.
    lemma_despawns_from_error_free(0, d, t, e, a);
    lemma_despawn_plan_removes_orphan(entities, keep, k, x);
    lemma_despawns_from_covers(0, d, t, e, a, existing_table(e, d)[k].0);
}

/// A despawn of every kind from depth `d0` on that ends without error has
/// walked each kind from `d0` on without error.
proof fn lemma_despawns_from_error_free(d0: int, d: int, t: ProjectIndex, e: ExistingItems, a: AssetIids)
    requires
        0 <= d0 <= d <= 3,
        despawns_from(d0, t, e, a).1 is None,
    ensures
        crate::hierarchy::despawn_plan(
            with_iids(existing_table(e, d), asset_iid_table(a, d)),
            table_iids(project_table(t, d)),
        ).1 is None,
    decreases d - d0,
{
    if d > d0 {
        lemma_despawns_from_error_free(d0 + 1, d, t, e, a);
    }
}

} // verus!

verus! {

/// The number of events saying that a project loaded with its dependencies.
pub open spec fn load_count(events: Seq<(AssetEventKind, u64)>) -> nat
    decreases events.len(),
{
    if events.len() == 0 {
        0
    } else {
        (if events[0].0 == AssetEventKind::LoadedWithDependencies { 1nat } else { 0nat }) + load_count(events.drop_first())
    }
}

/// Handling project events makes one plan per load event, in order, and
/// stops at the first plan that fails: every plan but the last succeeded,
/// there are never more plans than load events, and when the last plan (if
/// any) succeeded every load event got its plan.
pub proof fn law_one_plan_per_load_until_a_failure(
    events: Seq<(AssetEventKind, u64)>,
    loaded: Seq<LoadedProject>,
    e: ExistingItems,
    a: AssetIids,
)
    ensures
        ({
            let p = event_plans(events, loaded, e, a);
            &&& forall|i: int| 0 <= i < p.len() - 1 ==> (#[trigger] p[i]).3 is None
            &&& p.len() <= load_count(events)
            &&& (p.len() == 0 || p.last().3 is None) ==> p.len() == load_count(events)
        }),
    decreases events.len(),
{
    if events.len() > 0 {
        let rest = events.drop_first();
        law_one_plan_per_load_until_a_failure(rest, loaded, e, a);
        let p = event_plans(events, loaded, e, a);
        let r = event_plans(rest, loaded, e, a);
        if events[0].0 == AssetEventKind::LoadedWithDependencies {
            let first = plan_for(events[0].1, loaded, e, a);
            if first.3 is None {
                assert(p == seq![first] + r);
                assert forall|i: int| 0 <= i < p.len() - 1 implies (#[trigger] p[i]).3 is None by {
                    if i > 0 {
                        assert(p[i] == r[i - 1]);
                    }
                }
                if r.len() > 0 {
                    assert(p.last() == r.last());
                }
            }
        }
    }
}

} // verus!
