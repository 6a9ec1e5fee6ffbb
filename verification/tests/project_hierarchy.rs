use shieldtank::hierarchy::Collected;
use shieldtank::finalize::AssetEventKind;
use shieldtank::project_hierarchy::{
    asset_event_system, level_children, plan_loaded_project, ChildTables, ExistingItems, HierarchyError, ItemKind,
    AssetIids, LoadedProject, PlannedItem, ProjectIndex,
};

fn asset_iids() -> AssetIids {
    AssetIids { worlds: vec![(200, 10)], levels: vec![(300, 11)], layers: vec![(400, 12)], entities: vec![(500, 13)] }
}

fn index() -> ProjectIndex {
    ProjectIndex {
        worlds: vec![(10, 200)],
        levels: vec![(11, 300)],
        layers: vec![(12, 400)],
        entities: vec![(13, 500)],
    }
}

fn children() -> ChildTables {
    ChildTables {
        world_children: vec![(200, vec![11])],
        level_children: vec![(300, vec![12])],
        layer_children: vec![(400, vec![13])],
    }
}

fn existing() -> ExistingItems {
    ExistingItems {
        projects: vec![(1, 100)],
        worlds: vec![(7, 200)],
        levels: vec![],
        layers: vec![],
        entities: vec![],
    }
}

fn linked(kind: ItemKind, parent: Option<usize>, item: Collected) -> PlannedItem {
    PlannedItem { kind, parent, item, linked: true }
}

#[test]
fn loaded_project_links_every_item_under_its_parent() {
    let plan = plan_loaded_project(100, true, Some("maps/world.ldtk".to_string()), &[10], &index(), &children(), &existing(), &asset_iids());
    assert_eq!(plan.project_entity, Some(1));
    assert_eq!(plan.project_name, Some("maps/world.ldtk".to_string()));
    assert_eq!(plan.error, None);
    assert_eq!(
        plan.items,
        vec![
            linked(ItemKind::World, None, Collected::Existing { entity: 7, handle: 200 }),
            linked(ItemKind::Level, Some(0), Collected::Spawn { handle: 300 }),
            linked(ItemKind::Layer, Some(1), Collected::Spawn { handle: 400 }),
            linked(ItemKind::Entity, Some(2), Collected::Spawn { handle: 500 }),
        ]
    );
}

#[test]
fn loaded_project_needs_its_entity_and_asset() {
    let plan = plan_loaded_project(999, true, None, &[10], &index(), &children(), &existing(), &asset_iids());
    assert_eq!((plan.project_entity, plan.error), (None, Some(HierarchyError::BadProjectHandle)));
    let plan = plan_loaded_project(100, false, None, &[10], &index(), &children(), &existing(), &asset_iids());
    assert_eq!((plan.project_entity, plan.error), (Some(1), Some(HierarchyError::BadProjectHandle)));
    assert!(plan.items.is_empty());
}

#[test]
fn loaded_project_stops_at_an_unloaded_level() {
    let mut c = children();
    c.level_children = vec![];
    let plan = plan_loaded_project(100, true, Some("maps/world.ldtk".to_string()), &[10], &index(), &c, &existing(), &asset_iids());
    assert_eq!(plan.error, Some(HierarchyError::BadLevelHandle(300)));
    assert_eq!(plan.items.len(), 2);
}

#[test]
fn loaded_project_stops_at_an_unknown_iid() {
    let mut c = children();
    c.world_children = vec![(200, vec![11, 99])];
    let plan = plan_loaded_project(100, true, Some("maps/world.ldtk".to_string()), &[10], &index(), &c, &existing(), &asset_iids());
    assert_eq!(plan.error, Some(HierarchyError::BadProjectIid(ItemKind::Level, 99)));
    // The level collected before the unknown iid is spawned but not linked.
    assert_eq!(plan.items.len(), 2);
    assert!(!plan.items[1].linked);
}

#[test]
fn project_without_path_is_named_ldtk_project() {
    let plan = plan_loaded_project(100, true, None, &[10], &index(), &children(), &existing(), &asset_iids());
    assert_eq!(plan.project_name, Some("LdtkProject".to_string()));
}

fn loaded(id: u64, c: ChildTables) -> LoadedProject {
    LoadedProject { id, path: None, world_iids: vec![10], index: index(), children: c }
}

#[test]
fn project_events_plan_each_load_and_stop_at_the_first_failure() {
    let mut broken = children();
    broken.level_children = vec![];
    let events = [
        (AssetEventKind::Added, 100),
        (AssetEventKind::LoadedWithDependencies, 100),
        (AssetEventKind::Modified, 100),
        (AssetEventKind::LoadedWithDependencies, 101),
        (AssetEventKind::LoadedWithDependencies, 100),
    ];
    let mut e = existing();
    e.projects.push((2, 101));
    let out = asset_event_system(&events, &[loaded(100, children()), loaded(101, broken)], &e, &asset_iids());
    // The first load succeeds, the second fails, and the third is never handled.
    assert_eq!(out.plans.len(), 2);
    assert_eq!(out.plans[0].error, None);
    assert_eq!(out.plans[0].items.len(), 4);
    assert_eq!(out.plans[1].project_entity, Some(2));
    assert_eq!(out.error, Some(HierarchyError::BadLevelHandle(300)));
}

#[test]
fn project_events_for_an_unloaded_project_fail() {
    let out = asset_event_system(&[(AssetEventKind::LoadedWithDependencies, 100)], &[], &existing(), &asset_iids());
    assert_eq!(out.error, Some(HierarchyError::BadProjectHandle));
    let out = asset_event_system(&[(AssetEventKind::Removed, 100)], &[], &existing(), &asset_iids());
    assert!(out.plans.is_empty() && out.error.is_none());
}

#[test]
fn level_children_are_its_layer_assets() {
    assert_eq!(level_children(&[(1, 10), (2, 20)]), vec![10, 20]);
}

#[test]
fn loaded_project_despawns_what_it_no_longer_lists() {
    let mut e = existing();
    // An old world entity whose asset's iid the project does not list.
    e.worlds.push((8, 201));
    let mut a = asset_iids();
    a.worlds.push((201, 77));
    let plan = plan_loaded_project(100, true, None, &[10], &index(), &children(), &e, &a);
    assert_eq!(plan.error, None);
    assert_eq!(plan.despawn, vec![8]);
    // An existing item whose asset is not loaded stops the despawning.
    a.worlds.pop();
    let plan = plan_loaded_project(100, true, None, &[10], &index(), &children(), &e, &a);
    assert_eq!(plan.error, Some(HierarchyError::BadAssetHandle(ItemKind::World, 201)));
}
