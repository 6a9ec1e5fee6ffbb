use shieldtank::field_instances::{FieldValue, LdtkFieldInstances};
use shieldtank::tile::Tile;

fn sample() -> LdtkFieldInstances {
    let tile = Tile::new((16, 32), (8, 8), 7);
    LdtkFieldInstances::new(vec![
        ("name".to_string(), FieldValue::String("Axe Man".to_string())),
        (
            "lines".to_string(),
            FieldValue::ArrayString(vec!["hello".to_string(), "bye".to_string()]),
        ),
        ("icon".to_string(), FieldValue::Tile(tile)),
        (
            "frames".to_string(),
            FieldValue::ArrayTile(vec![tile, Tile::new((24, 32), (8, 8), 7)]),
        ),
        ("speed".to_string(), FieldValue::Other),
    ])
}

#[test]
fn field_string_is_found_by_name() {
    let fields = sample();
    assert_eq!(fields.get_string("name"), Some("Axe Man"));
    assert_eq!(fields.get_string("missing"), None);
}

#[test]
fn field_of_another_kind_is_not_read() {
    let fields = sample();
    assert_eq!(fields.get_string("lines"), None);
    assert_eq!(fields.get_tile("name"), None);
    assert_eq!(fields.get_array_tile("speed"), None);
    assert_eq!(fields.get_array_string("icon"), None);
}

#[test]
fn field_arrays_come_back_whole() {
    let fields = sample();
    let lines = fields.get_array_string("lines").unwrap();
    assert_eq!(lines, &vec!["hello".to_string(), "bye".to_string()]);
    let frames = fields.get_array_tile("frames").unwrap();
    assert_eq!(frames.len(), 2);
    assert_eq!(frames[1].corner, (24, 32));
    assert_eq!(fields.get_tile("icon"), Some(Tile::new((16, 32), (8, 8), 7)));
}
