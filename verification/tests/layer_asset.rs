use shieldtank::layer_asset::{px_total_offset, read_layer_contents, LdtkLayerAssetError, LdtkLayerType, TileSource};

const IID: &str = "a2f4a3c0-5d1e-11ef-8a9b-5f1d1c3b7e21";
const CHILD: &str = "b3e5b4d1-5d1e-11ef-8a9b-5f1d1c3b7e21";

#[test]
fn layer_type_names() {
    assert!(matches!(LdtkLayerType::new("IntGrid"), Ok(LdtkLayerType::IntGrid)));
    assert!(matches!(LdtkLayerType::new("Entities"), Ok(LdtkLayerType::Entities)));
    assert!(matches!(LdtkLayerType::new("Tiles"), Ok(LdtkLayerType::Tiles)));
    assert!(matches!(LdtkLayerType::new("AutoLayer"), Ok(LdtkLayerType::Autolayer)));
    match LdtkLayerType::new("Autolayer") {
        Err(LdtkLayerAssetError::UnknownLayerType(s)) => assert_eq!(s, "Autolayer"),
        _ => panic!("expected an unknown layer type"),
    }
}

#[test]
fn layer_contents_by_type() {
    let c = read_layer_contents("IntGrid", IID, 5, 0, &[], None).unwrap();
    assert_eq!(c.tiles, TileSource::AutoLayerTiles);
    assert_eq!(c.iid, 0xa2f4a3c0_5d1e_11ef_8a9b_5f1d1c3b7e21);
    let c = read_layer_contents("Tiles", IID, 0, 3, &[], None).unwrap();
    assert_eq!(c.tiles, TileSource::GridTiles);
    let c = read_layer_contents("Entities", IID, 0, 0, &[CHILD.to_string(), CHILD.to_string()], Some("tiles.png".to_string())).unwrap();
    assert_eq!(c.tiles, TileSource::NoTiles);
    assert_eq!(c.children, vec![0xb3e5b4d1_5d1e_11ef_8a9b_5f1d1c3b7e21]);
    assert_eq!(c.tileset_rel_path, Some("tiles.png".to_string()));
}

#[test]
fn layer_contents_mismatches() {
    let iid = 0xa2f4a3c0_5d1e_11ef_8a9b_5f1d1c3b7e21;
    assert!(matches!(read_layer_contents("AutoLayer", IID, 0, 1, &[], None), Err(LdtkLayerAssetError::IntGridWithEntitiesOrGridTiles(x)) if x == iid));
    assert!(matches!(read_layer_contents("Tiles", IID, 1, 0, &[], None), Err(LdtkLayerAssetError::TilesWithAutoLayerOrEntities(x)) if x == iid));
    assert!(matches!(read_layer_contents("Entities", IID, 0, 2, &[], None), Err(LdtkLayerAssetError::EntityLayerWithTiles(x)) if x == iid));
}

#[test]
fn layer_contents_bad_iids() {
    assert!(matches!(read_layer_contents("Tiles", "not an iid", 0, 0, &[], None), Err(LdtkLayerAssetError::IidError(_))));
    assert!(matches!(read_layer_contents("Nope", "not an iid", 0, 0, &[], None), Err(LdtkLayerAssetError::UnknownLayerType(_))));
    assert!(matches!(
        read_layer_contents("Entities", IID, 0, 0, &[CHILD.to_string(), "x".to_string()], None),
        Err(LdtkLayerAssetError::IidError(_))
    ));
}

#[test]
fn total_offset_points_up() {
    assert_eq!(px_total_offset(3, 4), (3, -4));
    assert_eq!(px_total_offset(-3, -4), (-3, 4));
}
