use shieldtank::assets::{
    background_source, entity_insert_components, implied_world, layer_indices, layer_insert_components,
    level_source, read_level_iids, read_world_iids, resolve_entity_tile, tileset_paths, world_location,
    BackgroundSource, LdtkEntityError, LdtkLevelError, LdtkProjectLoaderError, LdtkWorldError, LevelSource,
    TilesetTables,
};

const IID: &str = "a2f4a3c0-5d1e-11ef-8a9b-5f1d1c3b7e21";
const IID_VALUE: u128 = 0xa2f4a3c0_5d1e_11ef_8a9b_5f1d1c3b7e21;

#[test]
fn world_locations() {
    assert!(matches!(world_location(None, None), Ok(None)));
    assert!(matches!(world_location(Some(3), Some(-4)), Ok(Some((3, -4)))));
    assert!(matches!(world_location(Some(3), None), Err(LdtkEntityError::WorldCoordMixedOption)));
    assert!(matches!(world_location(None, Some(3)), Err(LdtkEntityError::WorldCoordMixedOption)));
}

#[test]
fn entity_tile_resolution() {
    let tables = TilesetTables::new(
        vec![(1, Some("tiles.png".to_string())), (2, None), (3, Some("gone.png".to_string()))],
        vec![("tiles.png".to_string(), 55)],
    );
    assert!(matches!(resolve_entity_tile(9, Some(&tables), 1), Ok(55)));
    assert!(matches!(resolve_entity_tile(9, None, 1), Err(LdtkEntityError::BadProjectIid(9))));
    assert!(matches!(resolve_entity_tile(9, Some(&tables), 4), Err(LdtkEntityError::BadTilesetDefUid(4))));
    assert!(matches!(resolve_entity_tile(9, Some(&tables), 2), Err(LdtkEntityError::RelPathIsNone)));
    match resolve_entity_tile(9, Some(&tables), 3) {
        Err(LdtkEntityError::BadRelPath(p)) => assert_eq!(p, "gone.png"),
        _ => panic!("expected a bad path"),
    }
}

#[test]
fn background_sources() {
    assert!(matches!(background_source(false, None), Ok(BackgroundSource::Fill)));
    assert!(matches!(background_source(true, Some("bg.png".to_string())), Ok(BackgroundSource::Load(p)) if p == "bg.png"));
    assert!(matches!(background_source(false, Some("bg.png".to_string())), Err(LdtkLevelError::BgPosIsNone)));
    assert!(matches!(background_source(true, None), Err(LdtkLevelError::BgRelPathIsNone)));
}

#[test]
fn level_and_world_iids() {
    let (v, c) = read_level_iids(IID, &Some(vec![IID.to_string()])).unwrap();
    assert_eq!(v, IID_VALUE);
    assert_eq!(c, vec![IID_VALUE]);
    assert!(read_level_iids(IID, &None).unwrap().1.is_empty());
    assert!(matches!(read_level_iids("bad", &None), Err(LdtkLevelError::IidError(_))));
    assert!(matches!(read_world_iids(IID, &[], false), Err(LdtkWorldError::MissingWorldLayout(x)) if x == IID_VALUE));
    assert!(matches!(read_world_iids(IID, &["zz".to_string()], true), Err(LdtkWorldError::IidError(_))));
    assert_eq!(read_world_iids(IID, &[IID.to_string()], true).unwrap().1, vec![IID_VALUE]);
}

#[test]
fn implied_world_fields() {
    let w = implied_world(Some(256), Some(512), Some(16), Some(32)).unwrap();
    assert_eq!((w.default_level_height, w.default_level_width, w.world_grid_width, w.world_grid_height), (256, 512, 16, 32));
    assert!(matches!(
        implied_world(None, None, None, None),
        Err(LdtkProjectLoaderError::FieldIsNone(s)) if s == "default_level_height"
    ));
    assert!(matches!(
        implied_world(Some(1), Some(2), Some(3), None),
        Err(LdtkProjectLoaderError::FieldIsNone(s)) if s == "world_grid_height"
    ));
}

#[test]
fn level_sources() {
    assert_eq!(level_source(false, None).unwrap(), LevelSource::Inline);
    assert_eq!(level_source(true, Some("l.ldtkl".to_string())).unwrap(), LevelSource::External("l.ldtkl".to_string()));
    assert!(matches!(level_source(true, None), Err(LdtkProjectLoaderError::FieldIsNone(s)) if s == "external_rel_path"));
}

#[test]
fn layers_are_numbered_from_the_last() {
    assert_eq!(layer_indices(3), vec![(2, 0), (1, 1), (0, 2)]);
    assert!(layer_indices(0).is_empty());
}

#[test]
fn tileset_paths_skip_unnamed() {
    assert_eq!(tileset_paths(&[(1, Some("a".to_string())), (2, None), (3, Some("b".to_string()))]), vec!["a", "b"]);
}

#[test]
fn component_plans() {
    let e = entity_insert_components(false, false, true, 0);
    assert!(e.insert_transform && e.insert_tile && !e.insert_tags);
    let e = entity_insert_components(true, true, true, 2);
    assert!(!e.insert_transform && !e.insert_tile && e.insert_tags);
    let l = layer_insert_components(Some(0), true);
    assert!(!l.insert_layer_tiles && l.insert_layer_definition && !l.insert_transform);
    let l = layer_insert_components(None, false);
    assert!(!l.insert_layer_tiles && !l.insert_layer_definition && l.insert_transform);
    assert!(layer_insert_components(Some(4), false).insert_layer_tiles);
}
