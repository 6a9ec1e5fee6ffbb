use shieldtank::finalize::{
    asset_event_triggers_collect, find_and_mark_loaded_components,
    find_and_unmark_just_loaded_components, has_modified, AssetEventKind, AwaitingFinalize,
    ShieldtankComponentFinalized,
};

#[test]
fn modified_events_and_changes_queue_entities() {
    let mut a = AwaitingFinalize::default();
    a.insert(99);
    let asset_events = [(AssetEventKind::Added, 1), (AssetEventKind::Modified, 2)];
    let config_events = [(AssetEventKind::Modified, 30), (AssetEventKind::Removed, 31)];
    let components = [(10, 1, 31), (11, 2, 32), (12, 3, 30), (13, 4, 33)];
    a.handle_ldtk_component_added(&asset_events, &config_events, &components, &[14]);
    let mut m = a.members();
    m.sort();
    assert_eq!(m, vec![11, 12, 14, 99]);
    assert!(a.contains(11));
    assert!(!a.contains(10));
    assert!(has_modified(&asset_events, 2));
    assert!(!has_modified(&asset_events, 1));
}

#[test]
fn ready_entities_are_messaged_once_and_leave() {
    let mut a = AwaitingFinalize::default();
    a.insert(1);
    a.insert(2);
    a.insert(3);
    let mut sent = a.send_finalize_if_ready(&[2, 3, 4, 3]);
    sent.sort();
    assert_eq!(sent, vec![2, 3]);
    assert_eq!(a.members(), vec![1]);
    assert!(a.send_finalize_if_ready(&[]).is_empty());
}

#[test]
fn loaded_unfinalized_items_get_marked() {
    let done = Some(ShieldtankComponentFinalized { just_finalized: false });
    let just = Some(ShieldtankComponentFinalized { just_finalized: true });
    assert_eq!(
        find_and_mark_loaded_components(&[(1, None, true), (2, None, false), (3, done, true)]),
        vec![1]
    );
    assert_eq!(find_and_unmark_just_loaded_components(&[(1, just), (2, done), (3, None), (4, just)]), vec![1, 4]);
}

#[test]
fn only_loaded_with_dependencies_triggers_collection() {
    assert!(asset_event_triggers_collect(AssetEventKind::LoadedWithDependencies));
    assert!(!asset_event_triggers_collect(AssetEventKind::Modified));
    assert!(!asset_event_triggers_collect(AssetEventKind::Added));
}
