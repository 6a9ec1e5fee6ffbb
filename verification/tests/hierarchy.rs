use shieldtank::hierarchy::{spawn_children_for_events, SpawnChildrenError, SpawnParent};
use shieldtank::hierarchy::{
    absent_children, child_spawn_system, collect_entities, despawn_orphaned_entities,
    entities_with_handle, finalized_children_to_spawn, find_entity, find_handle, flagged_keys,
    handle_spawn_children, iid_listed, load_children_to_spawn, seq_has, ChildAction, Collected,
};

#[test]
fn missing_children_are_spawned_in_order() {
    assert_eq!(child_spawn_system(&[3, 1, 4, 1, 5], &[1, 9]), vec![3, 4, 5]);
    assert_eq!(absent_children(&[], &[1]), Vec::<u64>::new());
    assert_eq!(absent_children(&[2, 2], &[]), vec![2, 2]);
}

#[test]
fn spawning_missing_children_settles() {
    let wanted = [10, 20, 30];
    let present = vec![20];
    let spawned = child_spawn_system(&wanted, &present);
    let mut all = present.clone();
    all.extend(spawned);
    assert!(child_spawn_system(&wanted, &all).is_empty());
}

#[test]
fn load_children_ignores_existing_children_outside_the_pattern() {
    // 7 exists but its handle fails the load pattern, so it is spawned again.
    assert_eq!(load_children_to_spawn(&[7, 8, 9], &[(7, false), (8, true)]), vec![7, 9]);
    assert_eq!(flagged_keys(&[(1, true), (2, false), (3, true)]), vec![1, 3]);
}

#[test]
fn finalized_children_are_filtered_by_pattern_then_existence() {
    assert_eq!(finalized_children_to_spawn(&[(1, true), (2, false), (3, true)], &[3]), vec![1]);
}

#[test]
fn finalized_parent_spawns_or_requeues() {
    let existing = [(100, 1), (101, 2), (102, 1)];
    assert_eq!(entities_with_handle(&existing, 1), vec![100, 102]);
    assert_eq!(
        handle_spawn_children(&[1, 3, 2], &existing),
        vec![
            ChildAction::AwaitFinalize(100),
            ChildAction::AwaitFinalize(102),
            ChildAction::Spawn(3),
            ChildAction::AwaitFinalize(101),
        ]
    );
}

#[test]
fn lookups_find_first_match() {
    assert_eq!(find_handle(&[(5, 50), (6, 60), (5, 55)], 5), Some(50));
    assert_eq!(find_handle(&[(5, 50)], 9), None);
    assert_eq!(find_entity(&[(1, 7), (2, 7)], 7), Some(1));
    assert_eq!(find_entity(&[(1, 7)], 8), None);
    assert!(seq_has(&[4, 5], 5));
    assert!(!iid_listed(&[4, 5], 6));
}

#[test]
fn collect_keeps_or_spawns_entities() {
    let project = [(1000, 1), (2000, 2), (3000, 3)];
    let existing = [(70, 2)];
    let plan = collect_entities(&[1000, 2000], &project, &existing);
    assert_eq!(plan.bad_project_iid, None);
    assert_eq!(
        plan.actions,
        vec![Collected::Spawn { handle: 1 }, Collected::Existing { entity: 70, handle: 2 }]
    );
}

#[test]
fn collect_stops_at_unknown_iid() {
    let project = [(1000, 1), (3000, 3)];
    let plan = collect_entities(&[1000, 2000, 3000], &project, &[]);
    assert_eq!(plan.bad_project_iid, Some(2000));
    assert_eq!(plan.actions, vec![Collected::Spawn { handle: 1 }]);
}

#[test]
fn collect_settles_after_spawning() {
    let project = [(1000, 1), (2000, 2)];
    let first = collect_entities(&[1000, 2000], &project, &[]);
    assert_eq!(first.actions.len(), 2);
    let second = collect_entities(&[1000, 2000], &project, &[(11, 1), (12, 2)]);
    assert_eq!(
        second.actions,
        vec![Collected::Existing { entity: 11, handle: 1 }, Collected::Existing { entity: 12, handle: 2 }]
    );
}

#[test]
fn despawn_removes_orphans() {
    let plan = despawn_orphaned_entities(&[(1, 10, Some(100)), (2, 20, Some(200)), (3, 30, Some(300))], &[200]);
    assert_eq!(plan.bad_handle, None);
    assert_eq!(plan.despawn, vec![1, 3]);
}

#[test]
fn despawn_stops_at_unloaded_asset() {
    let plan = despawn_orphaned_entities(&[(1, 10, Some(100)), (2, 20, None), (3, 30, Some(300))], &[]);
    assert_eq!(plan.bad_handle, Some(20));
    assert_eq!(plan.despawn, vec![1]);
}

#[test]
fn spawn_children_for_events_stop_at_the_first_failure() {
    let parents = vec![
        SpawnParent { entity: 1, handle: 10, children: vec![(5, 100)] },
        SpawnParent { entity: 2, handle: 20, children: vec![] },
    ];
    let assets = vec![(10, vec![100, 101])];
    let out = spawn_children_for_events(&[1, 2, 1], &parents, &assets);
    assert_eq!(out.actions, vec![(1, ChildAction::AwaitFinalize(5)), (1, ChildAction::Spawn(101))]);
    assert_eq!(out.error, Some(SpawnChildrenError::BadHandle(20)));
    let out = spawn_children_for_events(&[3], &parents, &assets);
    assert_eq!(out.error, Some(SpawnChildrenError::BadEcsEntity(3)));
}
