use shieldtank::layer_tiles::{apply_opacity, scale_alpha, LayerTile, LayerTiles};

#[test]
fn layer_tiles_sizes() {
    let lt = LayerTiles::new(16, (10, 4), 128, &[(255, true, false, (16, 32), (48, 0))], 3);
    assert_eq!(lt.size, (160, 64));
    assert_eq!(lt.grid_cell_size, 16);
    assert_eq!(lt.image, 3);
    assert_eq!(lt.opacity_255, 128);
    assert_eq!(
        lt.tiles,
        vec![LayerTile { opacity_255: 255, flip_x: true, flip_y: false, offset: (16, 32), source: (48, 0), size: (16, 16) }]
    );
}

#[test]
fn layer_tile_source_is_cut_to_32_bits() {
    let t = LayerTile::new(0, false, true, (0, 0), (-1, 1 << 32), (8, 8));
    assert_eq!(t.source, (u32::MAX, 0));
}

#[test]
fn alpha_scaling() {
    assert_eq!(scale_alpha(255, 255), 255);
    assert_eq!(scale_alpha(255, 127), 127);
    assert_eq!(scale_alpha(100, 128), 50);
    assert_eq!(scale_alpha(0, 255), 0);
    assert_eq!(scale_alpha(255, 257), 1);
}

#[test]
fn opacity_touches_only_alpha() {
    let mut px = vec![10, 20, 30, 200, 40, 50, 60, 255];
    apply_opacity(&mut px, 127);
    assert_eq!(px, vec![10, 20, 30, 99, 40, 50, 60, 127]);
}
