use vstd::prelude::*;

use crate::layer_tiles::scaled_alpha;

verus! {

/// An RGBA image with one byte per channel, rows from the top, pixels from the left.
#[derive(Debug)]
pub struct RgbaPixels {
    pub width: u32,
    pub height: u32,
    pub data: Vec<u8>,
}

impl View for RgbaPixels {
    type V = (u32, u32, Seq<u8>);

    open spec fn view(&self) -> (u32, u32, Seq<u8>) {
        (self.width, self.height, self.data@)
    }
}

/// The bytes hold exactly one RGBA pixel per position.
pub open spec fn pixels_wf(p: (u32, u32, Seq<u8>)) -> bool {
    p.2.len() == p.0 as int * p.1 as int * 4
}

/// The byte at offset `i` of the pixels made by cropping at `(x, y)` an image
/// of width `w`, the crop being `cw` pixels wide.
pub open spec fn crop_byte(img: Seq<u8>, w: int, x: int, y: int, cw: int, i: int) -> u8 {
    let p = i / 4;
    img[((y + p / cw) * w + x + p % cw) * 4 + i % 4]
}

/// The rectangle a crop really takes: its corner is moved inside the image and
/// its size cut to what the image holds from there.
pub open spec fn crop_box(w: u32, h: u32, x: u32, y: u32, cw: u32, ch: u32) -> (u32, u32, u32, u32) {
    let x2 = if x < w { x } else { w };
    let y2 = if y < h { y } else { h };
    let cw2 = if cw < w - x2 { cw } else { (w - x2) as u32 };
    let ch2 = if ch < h - y2 { ch } else { (h - y2) as u32 };
    (x2, y2, cw2, ch2)
}

/// The part of `img` at `(x, y)` of `cw` by `ch` pixels, cut to the image.
pub open spec fn cropped(img: (u32, u32, Seq<u8>), x: u32, y: u32, cw: u32, ch: u32) -> (u32, u32, Seq<u8>) {
    let b = crop_box(img.0, img.1, x, y, cw, ch);
    (
        b.2,
        b.3,
        Seq::new(
            (b.2 as int * b.3 as int * 4) as nat,
            |i: int| crop_byte(img.2, img.0 as int, b.0 as int, b.1 as int, b.2 as int, i),
        ),
    )
}

/// `img` mirrored left to right.
pub open spec fn flipped_horizontally(img: (u32, u32, Seq<u8>)) -> (u32, u32, Seq<u8>) {
    (
        img.0,
        img.1,
        Seq::new(
            img.2.len(),
            |i: int|
                {
                    let p = i / 4;
                    let w = img.0 as int;
                    img.2[((p / w) * w + (w - 1 - p % w)) * 4 + i % 4]
                },
        ),
    )
}

/// `img` mirrored top to bottom.
pub open spec fn flipped_vertically(img: (u32, u32, Seq<u8>)) -> (u32, u32, Seq<u8>) {
    (
        img.0,
        img.1,
        Seq::new(
            img.2.len(),
            |i: int|
                {
                    let p = i / 4;
                    let w = img.0 as int;
                    let h = img.1 as int;
                    img.2[((h - 1 - p / w) * w + p % w) * 4 + i % 4]
                },
        ),
    )
}

/// The bytes with every alpha scaled by an opacity given times 255.
pub open spec fn with_opacity(data: Seq<u8>, opacity_255: u16) -> Seq<u8> {
    Seq::new(data.len(), |i: int| if i % 4 == 3 { scaled_alpha(data[i], opacity_255) } else { data[i] })
}

/// A fully transparent image of `w` by `h` pixels.
pub open spec fn blank(w: u32, h: u32) -> (u32, u32, Seq<u8>) {
    (w, h, Seq::new((w as int * h as int * 4) as nat, |i: int| 0u8))
}

/// The bytes `image::imageops::resize` gives for `img` scaled to `width` by
/// `height` with the nearest-pixel filter.
pub uninterp spec fn resized_nearest(img: (u32, u32, Seq<u8>), width: u32, height: u32) -> Seq<u8>;

/// The bytes of `bottom` after `image::imageops::overlay` blends `top` onto it
/// with its top left corner at `(x, y)`.
pub uninterp spec fn overlaid(bottom: (u32, u32, Seq<u8>), top: (u32, u32, Seq<u8>), x: i64, y: i64) -> Seq<u8>;

/// A transparent image of `width` by `height` pixels.
pub fn blank_pixels(width: u32, height: u32) -> (r: RgbaPixels)
    requires
        width as int * height as int * 4 <= usize::MAX,
    ensures
        r@ == blank(width, height),
{
    let n = (width as usize) * (height as usize) * 4;
    let mut data: Vec<u8> = Vec::new();
    let mut i: usize = 0;
    while i < n
        invariant
            n == width as int * height as int * 4,
            i <= n,
            data@ == Seq::new(i as nat, |j: int| 0u8),
        decreases n - i,
    {
        data.push(0u8);
        i = i + 1;
        assert(data@ =~= Seq::new(i as nat, |j: int| 0u8));
    }
    RgbaPixels { width, height, data }
}

/// Scales the alpha of every pixel by an opacity given times 255, at most 257
/// (so that no product of an alpha and the opacity leaves 16 bits).
pub fn scale_opacity(pixels: &mut RgbaPixels, opacity_255: u16)
    requires
        opacity_255 <= 257,
    ensures
        final(pixels)@ == (old(pixels).width, old(pixels).height, with_opacity(old(pixels).data@, opacity_255)),
{
    proof {
        assert forall|i: int| 0 <= i < old(pixels).data@.len() && i % 4 == 3 implies #[trigger] old(pixels).data@[i]
            as int * opacity_255 as int <= u16::MAX by {
            let a = old(pixels).data@[i] as int;
            assert(a * opacity_255 as int <= 255 * 257) by (nonlinear_arith)
                requires
                    0 <= a <= 255,
                    0 <= opacity_255 <= 257,
            ;
        }
    }
    crate::layer_tiles::apply_opacity(&mut pixels.data, opacity_255);
    assert(pixels.data@ =~= with_opacity(old(pixels).data@, opacity_255));
}

/// The part of `img` at `(x, y)` of `width` by `height` pixels, cut to the
/// image: `image::imageops::crop_imm`, copied out.
#[verifier::external_body]
pub(crate) fn crop(img: &RgbaPixels, x: u32, y: u32, width: u32, height: u32) -> (r: RgbaPixels)
    requires
        pixels_wf(img@),
    ensures
        r@ == cropped(img@, x, y, width, height),
{
    let buffer: image::RgbaImage = image::ImageBuffer::from_raw(img.width, img.height, img.data.clone()).unwrap();
    let out = image::imageops::crop_imm(&buffer, x, y, width, height).to_image();
    RgbaPixels { width: out.width(), height: out.height(), data: out.into_raw() }
}

/// `img` mirrored left to right: `image::imageops::flip_horizontal`.
#[verifier::external_body]
pub(crate) fn flip_horizontal(img: &RgbaPixels) -> (r: RgbaPixels)
    requires
        pixels_wf(img@),
    ensures
        r@ == flipped_horizontally(img@),
{
    let buffer: image::RgbaImage = image::ImageBuffer::from_raw(img.width, img.height, img.data.clone()).unwrap();
    let out = image::imageops::flip_horizontal(&buffer);
    RgbaPixels { width: out.width(), height: out.height(), data: out.into_raw() }
}

/// `img` mirrored top to bottom: `image::imageops::flip_vertical`.
#[verifier::external_body]
pub(crate) fn flip_vertical(img: &RgbaPixels) -> (r: RgbaPixels)
    requires
        pixels_wf(img@),
    ensures
        r@ == flipped_vertically(img@),
{
    let buffer: image::RgbaImage = image::ImageBuffer::from_raw(img.width, img.height, img.data.clone()).unwrap();
    let out = image::imageops::flip_vertical(&buffer);
    RgbaPixels { width: out.width(), height: out.height(), data: out.into_raw() }
}

/// `img` scaled to `width` by `height` with the nearest-pixel filter:
/// `image::imageops::resize`. Its size is the one asked for; its bytes are
/// only named, since the sampling goes through floating point.
#[verifier::external_body]
pub(crate) fn resize_nearest(img: &RgbaPixels, width: u32, height: u32) -> (r: RgbaPixels)
    requires
        pixels_wf(img@),
        width as int * height as int * 4 <= usize::MAX,
        img.width as int * height as int * 4 <= usize::MAX,
    ensures
        r.width == width,
        r.height == height,
        pixels_wf(r@),
        r.data@ == resized_nearest(img@, width, height),
{
    let buffer: image::RgbaImage = image::ImageBuffer::from_raw(img.width, img.height, img.data.clone()).unwrap();
    let out = image::imageops::resize(&buffer, width, height, image::imageops::FilterType::Nearest);
    RgbaPixels { width: out.width(), height: out.height(), data: out.into_raw() }
}

/// Whether byte `i` of an image `w` pixels wide lies outside the rectangle of
/// `tw` by `th` pixels whose top left corner is at `(x, y)`.
pub open spec fn outside_placement(w: int, i: int, tw: int, th: int, x: int, y: int) -> bool {
    let p = i / 4;
    let px = p % w;
    let py = p / w;
    px < x || px >= x + tw || py < y || py >= y + th
}

/// Blends `top` onto `bottom` with its top left corner at `(x, y)`:
/// `image::imageops::overlay`. The size stays, and so does every byte of a
/// pixel outside the placed rectangle; the bytes are otherwise only named,
/// since the blending goes through floating point.
#[verifier::external_body]
pub(crate) fn overlay(bottom: &mut RgbaPixels, top: &RgbaPixels, x: i64, y: i64)
    requires
        pixels_wf(old(bottom)@),
        pixels_wf(top@),
    ensures
        final(bottom).width == old(bottom).width,
        final(bottom).height == old(bottom).height,
        pixels_wf(final(bottom)@),
        final(bottom).data@ == overlaid(old(bottom)@, top@, x, y),
        forall|i: int| 0 <= i < old(bottom).data@.len() && outside_placement(
            old(bottom).width as int,
            i,
            top.width as int,
            top.height as int,
            x as int,
            y as int,
        ) ==> #[trigger] final(bottom).data@[i] == old(bottom).data@[i],
{
    let mut under: image::RgbaImage = image::ImageBuffer::from_raw(bottom.width, bottom.height, bottom.data.clone()).unwrap();
    let over: image::RgbaImage = image::ImageBuffer::from_raw(top.width, top.height, top.data.clone()).unwrap();
    image::imageops::overlay(&mut under, &over, x, y);
    bottom.data = under.into_raw();
}

} // verus!
