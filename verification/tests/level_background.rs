use shieldtank::level_background::level_insert_components;
use shieldtank::grid_values::LdtkColor;
use shieldtank::level_background::{background_fill, level_background, BackgroundPlacement, LevelBackground, LevelBackgroundImage};

const GREY: LdtkColor = LdtkColor { r: 1, g: 2, b: 3, a: 4 };

#[test]
fn scaled_crop_size() {
    let b = LevelBackgroundImage::new(GREY, (64, 64), 1, (0, 0), (10, 20), (2, 3), (5, -5));
    assert_eq!(b.scaled_size(), (20, 60));
}

#[test]
fn fill_is_the_color() {
    assert_eq!(background_fill(2, 1, GREY), vec![1, 2, 3, 4, 1, 2, 3, 4]);
    assert!(background_fill(0, 5, GREY).is_empty());
}

#[test]
fn background_choice() {
    assert_eq!(level_background(GREY, (32, 16), None), LevelBackground::Color { color: GREY, size: (32, 16) });
    let placed = BackgroundPlacement { image: 8, crop_corner: (1, 2), crop_size: (3, 4), scale: (1, 1), corner: (0, 0) };
    assert_eq!(
        level_background(GREY, (32, 16), Some(placed)),
        LevelBackground::Image(LevelBackgroundImage::new(GREY, (32, 16), 8, (1, 2), (3, 4), (1, 1), (0, 0)))
    );
}

#[test]
fn level_gets_a_transform_only_without_one() {
    let color = LdtkColor { r: 1, g: 2, b: 3, a: 255 };
    let plan = level_insert_components(color, (64, 32), None, false);
    assert!(plan.insert_transform);
    assert_eq!(plan.background, LevelBackground::Color { color, size: (64, 32) });
    assert!(!level_insert_components(color, (64, 32), None, true).insert_transform);
}
