use shieldtank::grid_values::LdtkColor;
use shieldtank::layer_tiles::LayerTiles;
use shieldtank::level_background::LevelBackgroundImage;
use shieldtank::pixels::{blank_pixels, scale_opacity, RgbaPixels};

const RED: [u8; 4] = [255, 0, 0, 255];
const BLUE: [u8; 4] = [0, 0, 255, 255];
const GREEN: [u8; 4] = [0, 255, 0, 255];

fn image(width: u32, height: u32, pixels: &[[u8; 4]]) -> RgbaPixels {
    RgbaPixels { width, height, data: pixels.concat() }
}

#[test]
fn blank_pixels_are_transparent() {
    let b = blank_pixels(2, 3);
    assert_eq!((b.width, b.height), (2, 3));
    assert_eq!(b.data, vec![0u8; 24]);
}

#[test]
fn opacity_scales_alpha_only() {
    let mut p = image(1, 1, &[[10, 20, 30, 255]]);
    scale_opacity(&mut p, 128);
    assert_eq!(p.data, vec![10, 20, 30, 128]);
}

#[test]
fn layer_tiles_draw_each_tile_at_its_offset() {
    // A tileset of two one-pixel tiles: red then blue.
    let tileset = image(2, 1, &[RED, BLUE]);
    let tiles = [(255u16, false, false, (0i64, 0i64), (1i64, 0i64)), (255u16, false, false, (1, 0), (0, 0))];
    let layer = LayerTiles::new(1, (2, 1), 255, &tiles, 4);
    let drawn = layer.generate_sprite_image(&tileset);
    assert_eq!((drawn.width, drawn.height), (2, 1));
    assert_eq!(drawn.data, [BLUE, RED].concat());
}

#[test]
fn layer_tiles_flip_and_fade() {
    // A two-pixel-wide tile, mirrored, drawn at half opacity of the layer.
    let tileset = image(2, 1, &[RED, BLUE]);
    let tiles = [(255u16, true, false, (0i64, 0i64), (0i64, 0i64))];
    let mut layer = LayerTiles::new(2, (1, 1), 255, &tiles, 4);
    layer.size = (2, 1);
    layer.opacity_255 = 51;
    let drawn = layer.generate_sprite_image(&tileset);
    assert_eq!(drawn.data, vec![0, 0, 255, 51, 255, 0, 0, 51]);
}

#[test]
fn layer_tiles_leave_gaps_transparent() {
    let tileset = image(1, 1, &[GREEN]);
    let tiles = [(255u16, false, false, (1i64, 0i64), (0i64, 0i64))];
    let layer = LayerTiles::new(1, (2, 1), 255, &tiles, 4);
    let drawn = layer.generate_sprite_image(&tileset);
    assert_eq!(drawn.data, [[0, 0, 0, 0], GREEN].concat());
}

#[test]
fn level_background_is_color_under_scaled_crop() {
    let color = LdtkColor { r: 1, g: 2, b: 3, a: 255 };
    // Crop the blue pixel, scale it by 2 across, place it at (1, 0) on a 3 by 1 level.
    let bg = LevelBackgroundImage::new(color, (3, 1), 8, (1, 0), (1, 1), (2, 1), (1, 0));
    let source = image(2, 1, &[RED, BLUE]);
    let drawn = bg.generate_sprite_image(&source);
    assert_eq!((drawn.width, drawn.height), (3, 1));
    assert_eq!(drawn.data, [[1, 2, 3, 255], BLUE, BLUE].concat());
}

#[test]
fn level_background_crop_is_cut_to_the_image() {
    let color = LdtkColor { r: 9, g: 9, b: 9, a: 255 };
    // The crop asks for more than the image holds from (1, 0): one pixel is taken,
    // then scaled to the requested 2 by 1.
    let bg = LevelBackgroundImage::new(color, (2, 1), 8, (1, 0), (2, 1), (1, 1), (0, 0));
    let source = image(2, 1, &[RED, BLUE]);
    let drawn = bg.generate_sprite_image(&source);
    assert_eq!(drawn.data, [BLUE, BLUE].concat());
}
