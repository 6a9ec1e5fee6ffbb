use shieldtank::tile::{insert_sprite_system, NineSlice, SpriteImageMode, Tile, TileRenderMode};

#[test]
fn tile_flips() {
    let t = Tile::new((16, 32), (8, 8), 5);
    assert!(!t.flip_x && !t.flip_y);
    let u = t.with_flip_x(true);
    assert!(u.flip_x);
    let mut v = u;
    v.flip_x(false);
    assert_eq!(v, t);
}

#[test]
fn sprite_modes() {
    let t = Tile::new((16, 32), (8, 8), 5).with_flip_x(true);
    let p = insert_sprite_system(&t, 77, (24, 24), &TileRenderMode::Cover).unwrap();
    assert_eq!(p.image, 77);
    assert!(p.flip_x && !p.flip_y);
    assert_eq!(p.custom_size, Some((24, 24)));
    assert_eq!(p.rect_corner, (16, 32));
    assert_eq!(p.rect_size, (8, 8));
    assert_eq!(p.image_mode, SpriteImageMode::FillCenter);
    assert_eq!(insert_sprite_system(&t, 77, (24, 24), &TileRenderMode::FitInside).unwrap().image_mode, SpriteImageMode::FitCenter);
    assert_eq!(insert_sprite_system(&t, 77, (24, 24), &TileRenderMode::Repeat).unwrap().image_mode, SpriteImageMode::TiledBoth);
    assert_eq!(insert_sprite_system(&t, 77, (24, 24), &TileRenderMode::Stretch).unwrap().image_mode, SpriteImageMode::Auto);
    let full = insert_sprite_system(&t, 77, (24, 24), &TileRenderMode::FullSizeUncropped).unwrap();
    assert_eq!(full.custom_size, None);
    assert_eq!(full.image_mode, SpriteImageMode::Auto);
    assert!(insert_sprite_system(&t, 77, (24, 24), &TileRenderMode::FullSizeCropped).is_none());
    let n = NineSlice { up: 1, right: 2, down: 3, left: 4 };
    assert_eq!(
        insert_sprite_system(&t, 77, (24, 24), &TileRenderMode::NineSlice(n)).unwrap().image_mode,
        SpriteImageMode::Sliced { left: 4, right: 2, top: 1, bottom: 3 }
    );
}
