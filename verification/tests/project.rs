use shieldtank::assets::{BackgroundSource, LdtkLevelError, LdtkProjectLoaderError, LdtkWorldError};
use shieldtank::layer_asset::{LdtkLayerAssetError, TileSource};
use shieldtank::entity_tile::TileRect;
use shieldtank::project::{
    read_project, EntityFile, LayerFile, LayerGeometry, LevelFile, ProjectFile, WorldFile, WorldLayout,
};

const P: &str = "00000000-0000-4000-8000-000000000001";
const W: &str = "00000000-0000-4000-8000-000000000002";
const L: &str = "00000000-0000-4000-8000-000000000003";
const TOP: &str = "00000000-0000-4000-8000-000000000004";
const BOTTOM: &str = "00000000-0000-4000-8000-000000000005";
const E: &str = "00000000-0000-4000-8000-000000000006";

fn level() -> LevelFile {
    LevelFile {
        iid: L.to_string(),
        external_rel_path: None,
        layer_iids: Some(vec![TOP.to_string(), BOTTOM.to_string()]),
        has_bg_pos: false,
        bg_rel_path: None,
        identifier: "Level_0".to_string(),
        size: (256, 128),
        location: (0, 512, 1),
    }
}

fn geometry(offset_y: i64) -> LayerGeometry {
    LayerGeometry {
        grid_dimensions: (16, 8),
        grid_size: 16,
        location: (0, 0),
        px_total_offset: (4, offset_y),
        layer_def_uid: 7,
        level_id: 3,
        tileset_def_uid: None,
        override_tileset_uid: None,
    }
}

fn layers() -> Vec<LayerFile> {
    vec![
        LayerFile {
            layer_instance_type: "Entities".to_string(),
            iid: TOP.to_string(),
            auto_layer_tiles: 0,
            grid_tiles: 0,
            entity_iids: vec![E.to_string()],
            tileset_rel_path: None,
            geometry: geometry(5),
        },
        LayerFile {
            layer_instance_type: "Tiles".to_string(),
            iid: BOTTOM.to_string(),
            auto_layer_tiles: 0,
            grid_tiles: 4,
            entity_iids: vec![],
            tileset_rel_path: Some("tiles.png".to_string()),
            geometry: geometry(-9),
        },
    ]
}

fn project() -> ProjectFile {
    ProjectFile {
        iid: P.to_string(),
        worlds: vec![WorldFile {
            iid: W.to_string(),
            identifier: "Overworld".to_string(),
            level_iids: vec![L.to_string()],
            world_grid_size: (256, 256),
            world_layout: Some(WorldLayout::GridVania),
        }],
        default_level_height: None,
        default_level_width: None,
        world_grid_width: None,
        world_grid_height: None,
        world_layout: None,
        external_levels: false,
        levels: vec![level()],
        layers: layers(),
        entities: vec![EntityFile {
            iid: E.to_string(),
            world_x: Some(3),
            world_y: Some(4),
            identifier: "Player".to_string(),
            tags: vec!["hero".to_string()],
            grid: (1, 2),
            size: (16, 16),
            location: (16, 32),
            tile: Some(TileRect { location: (0, 0), size: (16, 16), tileset_uid: 1 }),
            def_uid: 42,
        }],
        json_version: "1.5.3".to_string(),
        layer_def_uids: vec![7, 8, 7],
        tileset_defs: vec![(1, Some("tiles.png".to_string())), (2, None), (1, Some("other.png".to_string())), (3, Some("other.png".to_string()))],
    }
}

fn iid(text: &str) -> u128 {
    u128::from_str_radix(&text.replace('-', ""), 16).unwrap()
}

#[test]
fn project_loads_every_table() {
    let t = read_project(&project()).unwrap();
    assert_eq!(t.iid, iid(P));
    assert_eq!(t.worlds, vec![(iid(W), vec![iid(L)])]);
    assert_eq!(t.levels.len(), 1);
    assert_eq!(t.levels[0].0, iid(L));
    assert_eq!(t.levels[0].1, vec![iid(TOP), iid(BOTTOM)]);
    assert!(matches!(t.levels[0].2, BackgroundSource::Fill));
    // Layers are numbered from the last one.
    assert_eq!(t.layers.len(), 2);
    assert_eq!(t.layers[0].0, 0);
    assert_eq!(t.layers[0].1.iid, iid(BOTTOM));
    assert_eq!(t.layers[0].1.tiles, TileSource::GridTiles);
    assert_eq!(t.layers[0].1.tileset_rel_path, Some("tiles.png".to_string()));
    assert_eq!(t.layers[1].0, 1);
    assert_eq!(t.layers[1].1.children, vec![iid(E)]);
    assert_eq!(t.layers[1].1.tileset_rel_path, None);
    assert_eq!(t.entities, vec![(iid(E), Some((3, 4)))]);
    // Definitions are keyed by uid, the last of a uid winning; each path is loaded once.
    assert_eq!(t.tileset_defs, vec![(1, Some("other.png".to_string())), (2, None), (3, Some("other.png".to_string()))]);
    assert_eq!(t.tileset_paths, vec!["other.png".to_string()]);
    assert_eq!(t.layer_defs, vec![7, 8]);
    assert_eq!(t.json_version, "1.5.3");
    assert_eq!(t.world_details[0].identifier, "Overworld");
    assert_eq!(t.world_details[0].world_layout, WorldLayout::GridVania);
    assert_eq!(t.level_details[0].size, (256, 128));
    assert_eq!(t.level_details[0].location, (0, 512, 1));
    // Layer details follow the layers from the last; the y offset is turned up.
    assert_eq!(t.layer_details[0].px_total_offset, (4, 9));
    assert_eq!(t.layer_details[1].px_total_offset, (4, -5));
    assert_eq!(t.entity_details[0].project_iid, iid(P));
    assert_eq!(t.entity_details[0].tags, vec!["hero".to_string()]);
    assert_eq!(t.entity_details[0].def_uid, 42);
}

#[test]
fn project_without_worlds_stands_for_one() {
    let mut p = project();
    p.worlds = vec![];
    p.world_layout = Some(WorldLayout::Free);
    p.default_level_height = Some(256);
    p.default_level_width = Some(256);
    p.world_grid_width = Some(16);
    p.world_grid_height = Some(16);
    let t = read_project(&p).unwrap();
    assert_eq!(t.worlds, vec![(iid(P), vec![iid(L)])]);
    assert_eq!(t.world_details[0].identifier, "World");
    assert_eq!(t.world_details[0].world_grid_size, (16, 16));
}

#[test]
fn project_errors_come_in_load_order() {
    let mut p = project();
    p.iid = "nope".to_string();
    assert!(matches!(read_project(&p), Err(LdtkProjectLoaderError::IidError(_))));

    let mut p = project();
    p.worlds = vec![];
    p.default_level_height = Some(1);
    assert!(matches!(read_project(&p), Err(LdtkProjectLoaderError::FieldIsNone(s)) if s == "default_level_width"));

    let mut p = project();
    p.external_levels = true;
    assert!(matches!(read_project(&p), Err(LdtkProjectLoaderError::FieldIsNone(s)) if s == "external_rel_path"));

    let mut p = project();
    p.worlds[0].world_layout = None;
    p.levels[0].bg_rel_path = Some("bg.png".to_string());
    assert!(matches!(
        read_project(&p),
        Err(LdtkProjectLoaderError::LdtkWorldError(LdtkWorldError::MissingWorldLayout(x))) if x == iid(W)
    ));

    let mut p = project();
    p.levels[0].bg_rel_path = Some("bg.png".to_string());
    p.layers[0].layer_instance_type = "Nope".to_string();
    assert!(matches!(read_project(&p), Err(LdtkProjectLoaderError::LdtkLevelError(LdtkLevelError::BgPosIsNone))));

    // Layers are read from the last: the bottom layer's error comes first.
    let mut p = project();
    p.layers[0].layer_instance_type = "Nope".to_string();
    p.layers[1].grid_tiles = 0;
    p.layers[1].auto_layer_tiles = 2;
    assert!(matches!(
        read_project(&p),
        Err(LdtkProjectLoaderError::LdtkLayerError(LdtkLayerAssetError::TilesWithAutoLayerOrEntities(x))) if x == iid(BOTTOM)
    ));

    let mut p = project();
    p.entities[0].world_y = None;
    assert!(matches!(read_project(&p), Err(LdtkProjectLoaderError::LdtkEntityError(_))));
}
