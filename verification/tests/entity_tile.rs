use shieldtank::assets::{LdtkEntityError, TilesetTables};
use shieldtank::entity_tile::{entity_tile_system, EntityTileAsset, TileAction, TileRect};

fn tables() -> Vec<(u128, TilesetTables)> {
    vec![(
        9,
        TilesetTables::new(
            vec![(1, Some("tiles.png".to_string())), (2, None), (3, Some("gone.png".to_string()))],
            vec![("tiles.png".to_string(), 55)],
        ),
    )]
}

fn tile(uid: i64) -> TileRect {
    TileRect { location: (16, 32), size: (8, 8), tileset_uid: uid }
}

fn assets() -> Vec<(u64, EntityTileAsset)> {
    vec![
        (100, EntityTileAsset { project_iid: 9, tile: Some(tile(1)) }),
        (101, EntityTileAsset { project_iid: 9, tile: None }),
        (102, EntityTileAsset { project_iid: 9, tile: Some(tile(3)) }),
        (103, EntityTileAsset { project_iid: 8, tile: Some(tile(1)) }),
    ]
}

#[test]
fn entity_tile_is_inserted_with_its_sprite() {
    let out = entity_tile_system(&[(1, 100), (2, 101)], &assets(), &tables(), &[(1, true), (2, false)]);
    assert!(out.error.is_none());
    assert_eq!(
        out.actions,
        vec![
            TileAction::Insert { entity: 1, tile: tile(1), image: 55 },
            TileAction::SetSprite { entity: 1, custom_size: (8, 8), rect_min: (16, 32), rect_max: (24, 40), existing: true },
            TileAction::Remove { entity: 2 },
        ]
    );
}

#[test]
fn entity_tile_stops_at_the_first_failure() {
    // The second event's image is missing; the third is never handled.
    let out = entity_tile_system(&[(1, 100), (3, 102), (2, 101)], &assets(), &tables(), &[(1, false)]);
    assert_eq!(out.actions.len(), 2);
    match out.error {
        Some(LdtkEntityError::BadRelPath(p)) => assert_eq!(p, "gone.png"),
        other => panic!("unexpected {other:?}"),
    }
}

#[test]
fn entity_tile_errors() {
    let out = entity_tile_system(&[(1, 999)], &assets(), &tables(), &[]);
    assert!(matches!(out.error, Some(LdtkEntityError::BadHandle(999))));
    let out = entity_tile_system(&[(1, 103)], &assets(), &tables(), &[]);
    assert!(matches!(out.error, Some(LdtkEntityError::BadProjectIid(8))));
    // The tile and image are inserted before the entity is found unable to carry a sprite.
    let out = entity_tile_system(&[(7, 100)], &assets(), &tables(), &[]);
    assert_eq!(out.actions, vec![TileAction::Insert { entity: 7, tile: tile(1), image: 55 }]);
    assert!(matches!(out.error, Some(LdtkEntityError::QueryEntityError(7))));
}
