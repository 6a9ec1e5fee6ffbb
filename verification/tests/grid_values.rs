use shieldtank::grid_values::{
    find_def, grid_key, GridValueError, LayerGridDefinition, LdtkColor, LdtkGridValue, LdtkGridValues,
};
use shieldtank::tile::Tile;

fn defs() -> LayerGridDefinition {
    let red = LdtkColor { r: 255, g: 0, b: 0, a: 255 };
    let blue = LdtkColor { r: 0, g: 0, b: 255, a: 255 };
    LayerGridDefinition::new(
        16,
        vec![
            LdtkGridValue::new(red, Some("wall".to_string()), None, 1),
            LdtkGridValue::new(blue, None, Some(Tile::new((0, 16), (16, 16), 9)), 2),
        ],
    )
}

#[test]
fn grid_values_keep_nonzero_cells() {
    // A 3 by 2 grid, laid out by its height (2): index i is at (i % 2, i / 2).
    let grid = [0, 1, 2, 0, 0, 1];
    let g = LdtkGridValues::new((3, 2), &grid, &defs()).unwrap();
    assert_eq!(g.grid_cell_size(), 16);
    let cells: Vec<((i64, i64), i64)> = g.enumerate().iter().map(|(k, v)| (*k, v.value)).collect();
    assert_eq!(cells, vec![((1, 0), 1), ((0, 1), 2), ((1, 2), 1)]);
    assert_eq!(g.get((0, 1)).unwrap().identifier, None);
    assert_eq!(g.get((1, 0)).unwrap().identifier.as_deref(), Some("wall"));
    assert_eq!(g.get((0, 1)).unwrap().tile.unwrap().tileset_definition, 9);
    assert!(g.get((0, 0)).is_none());
    assert!(g.get((5, 5)).is_none());
}

#[test]
fn grid_values_reject_undescribed_value() {
    let grid = [0, 3, 7];
    assert_eq!(LdtkGridValues::new((3, 1), &grid, &defs()).unwrap_err(), GridValueError::BadIntGridValue(3));
}

#[test]
fn grid_values_of_empty_grid() {
    let g = LdtkGridValues::new((0, 0), &[0, 0], &defs()).unwrap();
    assert!(g.enumerate().is_empty());
}

#[test]
fn grid_keys_follow_rust_division() {
    assert_eq!(grid_key(7, 3), (1, 2));
    assert_eq!(grid_key(7, -3), (1, -2));
    assert_eq!(grid_key(5, i64::MIN), (5, 0));
    assert_eq!(grid_key(0, 4), (0, 0));
}

#[test]
fn definition_lookup_copies_first_match() {
    let d = defs();
    assert_eq!(find_def(d.int_grid_values(), 2).unwrap().value, 2);
    assert!(find_def(d.int_grid_values(), 5).is_none());
}
