use vstd::prelude::*;

use crate::grid_values::LdtkColor;
use crate::pixels::{crop, cropped, overlaid, overlay, pixels_wf, resize_nearest, resized_nearest, RgbaPixels};

verus! {

/// A level background drawn from an image: the level's color under a cropped
/// and scaled part of the image.
#[derive(Clone, Copy, Debug, PartialEq, Eq)]
pub struct LevelBackgroundImage {
    pub color: LdtkColor,
    /// The level size, in pixels.
    pub size: (u32, u32),
    /// The asset key of the background image.
    pub image: u64,
    pub crop_corner: (u32, u32),
    pub crop_size: (u32, u32),
    pub scale: (u32, u32),
    /// Where the scaled crop goes in the level, in pixels.
    pub corner: (i64, i64),
}

impl LevelBackgroundImage {
    /// A background image with these parts.
    pub fn new(
        color: LdtkColor,
        size: (u32, u32),
        image: u64,
        crop_corner: (u32, u32),
        crop_size: (u32, u32),
        scale: (u32, u32),
        corner: (i64, i64),
    ) -> (r: Self)
        ensures
            r == (LevelBackgroundImage { color, size, image, crop_corner, crop_size, scale, corner }),
    {
        LevelBackgroundImage { color, size, image, crop_corner, crop_size, scale, corner }
    }

    /// The size of the crop once scaled: the crop size times the scale, per axis.
    pub fn scaled_size(&self) -> (r: (u32, u32))
        requires
            self.crop_size.0 * self.scale.0 <= u32::MAX,
            self.crop_size.1 * self.scale.1 <= u32::MAX,
        ensures
            r.0 == self.crop_size.0 * self.scale.0,
            r.1 == self.crop_size.1 * self.scale.1,
    {
        (self.crop_size.0 * self.scale.0, self.crop_size.1 * self.scale.1)
    }
}

/// Raw RGBA bytes of an image of `width` by `height` pixels, all of `color`.
pub fn background_fill(width: u32, height: u32, color: LdtkColor) -> (r: Vec<u8>)
    requires
        width as int * height as int * 4 <= usize::MAX,
    ensures
        r@.len() == width as int * height as int * 4,
        forall|i: int| 0 <= i < r@.len() ==> #[trigger] r@[i] == (if i % 4 == 0 {
            color.r
        } else if i % 4 == 1 {
            color.g
        } else if i % 4 == 2 {
            color.b
        } else {
            color.a
        }),
{
    let pixels = (width as usize) * (height as usize);
    let mut out: Vec<u8> = Vec::new();
    let mut p: usize = 0;
    while p < pixels
        invariant
            pixels == width as int * height as int,
            pixels * 4 <= usize::MAX,
            p <= pixels,
            out@.len() == p * 4,
            forall|i: int| 0 <= i < out@.len() ==> #[trigger] out@[i] == (if i % 4 == 0 {
                color.r
            } else if i % 4 == 1 {
                color.g
            } else if i % 4 == 2 {
                color.b
            } else {
                color.a
            }),
        decreases pixels - p,
    {
        out.push(color.r);
        out.push(color.g);
        out.push(color.b);
        out.push(color.a);
        proof {
            let b = p as int * 4;
            assert(b % 4 == 0);
            assert((b + 1) % 4 == 1);
            assert((b + 2) % 4 == 2);
            assert((b + 3) % 4 == 3);
        }
        p = p + 1;
    }
    out
}

/// The channel `i % 4` of `color`, in the order red, green, blue, alpha.
pub open spec fn color_byte(color: LdtkColor, i: int) -> u8 {
    if i % 4 == 0 {
        color.r
    } else if i % 4 == 1 {
        color.g
    } else if i % 4 == 2 {
        color.b
    } else {
        color.a
    }
}

/// An image of `w` by `h` pixels, all of `color`.
pub open spec fn filled(w: u32, h: u32, color: LdtkColor) -> (u32, u32, Seq<u8>) {
    (w, h, Seq::new((w as int * h as int * 4) as nat, |i: int| color_byte(color, i)))
}

/// The image of a level background: the level's color, with the cropped part
/// of the background image, scaled by the nearest-pixel filter, blended on at
/// the background's corner.
pub open spec fn level_image(b: LevelBackgroundImage, img: (u32, u32, Seq<u8>)) -> (u32, u32, Seq<u8>) {
    let base = filled(b.size.0, b.size.1, b.color);
    let crop = cropped(img, b.crop_corner.0, b.crop_corner.1, b.crop_size.0, b.crop_size.1);
    let w = (b.crop_size.0 * b.scale.0) as u32;
    let h = (b.crop_size.1 * b.scale.1) as u32;
    (base.0, base.1, overlaid(base, (w, h, resized_nearest(crop, w, h)), b.corner.0, b.corner.1))
}

impl LevelBackgroundImage {
    /// Draws the level background from the background image.
    pub fn generate_sprite_image(&self, background_image: &RgbaPixels) -> (r: RgbaPixels)
        requires
            pixels_wf(background_image@),
            self.crop_size.0 * self.scale.0 <= u32::MAX,
            self.crop_size.1 * self.scale.1 <= u32::MAX,
            self.size.0 as int * self.size.1 as int * 4 <= usize::MAX,
            self.crop_size.0 * self.scale.0 * (self.crop_size.1 * self.scale.1) * 4 <= usize::MAX,
            cropped(background_image@, self.crop_corner.0, self.crop_corner.1, self.crop_size.0, self.crop_size.1).0
                * (self.crop_size.1 * self.scale.1) * 4 <= usize::MAX,
        ensures
            r@ == level_image(*self, background_image@),
    {
        let data = background_fill(self.size.0, self.size.1, self.color);
        let mut image = RgbaPixels { width: self.size.0, height: self.size.1, data };
        assert(image.data@ =~= filled(self.size.0, self.size.1, self.color).2);
        let part = crop(background_image, self.crop_corner.0, self.crop_corner.1, self.crop_size.0, self.crop_size.1);
        let (w, h) = self.scaled_size();
        let scaled = resize_nearest(&part, w, h);
        overlay(&mut image, &scaled, self.corner.0, self.corner.1);
        image
    }
}

/// How a level's background is drawn.
#[derive(Clone, Copy, Debug, PartialEq, Eq)]
pub enum LevelBackground {
    /// A plain rectangle of the level's color and size.
    Color { color: LdtkColor, size: (i64, i64) },
    /// The level's color under a part of an image.
    Image(LevelBackgroundImage),
}

/// The part of an image that LDtk places behind a level: the image, the crop
/// corner, size and scale (already whole numbers), and where it goes.
#[derive(Clone, Copy, Debug, PartialEq, Eq)]
pub struct BackgroundPlacement {
    pub image: u64,
    pub crop_corner: (u32, u32),
    pub crop_size: (u32, u32),
    pub scale: (u32, u32),
    pub corner: (i64, i64),
}

/// The background of a level of color `bg_color` and size `size`: an image
/// background when LDtk places one, the size then cut to 32 bits as
/// `as_uvec2` does; a plain color otherwise.
pub fn level_background(bg_color: LdtkColor, size: (i64, i64), background: Option<BackgroundPlacement>) -> (r: LevelBackground)
    ensures
        r == match background {
            Some(b) => LevelBackground::Image(
                LevelBackgroundImage {
                    color: bg_color,
                    size: (size.0 as u32, size.1 as u32),
                    image: b.image,
                    crop_corner: b.crop_corner,
                    crop_size: b.crop_size,
                    scale: b.scale,
                    corner: b.corner,
                },
            ),
            None => LevelBackground::Color { color: bg_color, size },
        },
{
    match background {
        Some(b) => LevelBackground::Image(
            LevelBackgroundImage::new(
                bg_color,
                (size.0 as u32, size.1 as u32),
                b.image,
                b.crop_corner,
                b.crop_size,
                b.scale,
                b.corner,
            ),
        ),
        None => LevelBackground::Color { color: bg_color, size },
    }
}

/// Which components a changed level gets from its asset: its background, and
/// a transform at its location when it has none.
#[derive(Clone, Copy, Debug, PartialEq, Eq)]
pub struct LevelComponentsPlan {
    pub background: LevelBackground,
    pub insert_transform: bool,
}

/// Which components a changed level gets from its asset: the background of
/// its color and size (an image background when LDtk places one), and a
/// transform exactly when the level has none.
pub fn level_insert_components(
    bg_color: LdtkColor,
    size: (i64, i64),
    background: Option<BackgroundPlacement>,
    has_transform: bool,
) -> (r: LevelComponentsPlan)
    ensures
        r.insert_transform == !has_transform,
        r.background == match background {
            Some(b) => LevelBackground::Image(
                LevelBackgroundImage {
                    color: bg_color,
                    size: (size.0 as u32, size.1 as u32),
                    image: b.image,
                    crop_corner: b.crop_corner,
                    crop_size: b.crop_size,
                    scale: b.scale,
                    corner: b.corner,
                },
            ),
            None => LevelBackground::Color { color: bg_color, size },
        },
{
    LevelComponentsPlan { background: level_background(bg_color, size, background), insert_transform: !has_transform }
}

/// Marks level backgrounds for drawing.
pub struct LevelBackgroundPlugin;

} // verus!
