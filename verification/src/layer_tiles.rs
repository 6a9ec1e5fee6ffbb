use vstd::prelude::*;

use crate::pixels::{
    blank, blank_pixels, crop, cropped, flip_horizontal, flip_vertical, flipped_horizontally,
    flipped_vertically, overlaid, overlay, pixels_wf, scale_opacity, with_opacity, RgbaPixels,
};

verus! {

/// One tile of a tile layer, placed in the layer's image.
#[derive(Clone, Copy, Debug, PartialEq, Eq)]
pub struct LayerTile {
    /// The tile's opacity times 255, as a whole number (the float product cut toward zero).
    pub opacity_255: u16,
    pub flip_x: bool,
    pub flip_y: bool,
    /// Where the tile goes in the layer image, in pixels.
    pub offset: (i64, i64),
    /// Where the tile comes from in the tileset image, in pixels.
    pub source: (u32, u32),
    /// The tile's size in pixels.
    pub size: (u32, u32),
}

impl LayerTile {
    /// A layer tile from an LDtk tile instance; the source corner is cut to
    /// 32 bits as `as_uvec2` does.
    pub fn new(opacity_255: u16, flip_x: bool, flip_y: bool, offset: (i64, i64), source: (i64, i64), size: (u32, u32)) -> (r: Self)
        ensures
            r.opacity_255 == opacity_255,
            r.flip_x == flip_x,
            r.flip_y == flip_y,
            r.offset == offset,
            r.source == (source.0 as u32, source.1 as u32),
            r.size == size,
    {
        LayerTile {
            opacity_255,
            flip_x,
            flip_y,
            offset,
            source: (source.0 as u32, source.1 as u32),
            size,
        }
    }
}

/// The tiles of a tile layer, drawn into one image.
#[derive(Debug)]
pub struct LayerTiles {
    pub tiles: Vec<LayerTile>,
    /// The asset key of the tileset image.
    pub image: u64,
    pub grid_cell_size: u32,
    /// The size of the layer image, in pixels.
    pub size: (u32, u32),
    /// The layer's opacity times 255, as a whole number.
    pub opacity_255: u16,
}

impl LayerTiles {
    /// The tiles of a layer with cells of `grid_cell_size` pixels on a grid of
    /// `grid_size` cells: its image is the grid times the cell size (each cut
    /// to 32 bits), and each tile is one cell large.
    pub fn new(
        grid_cell_size: i64,
        grid_size: (i64, i64),
        opacity_255: u16,
        tiles: &[(u16, bool, bool, (i64, i64), (i64, i64))],
        image: u64,
    ) -> (r: Self)
        requires
            i64::MIN <= grid_cell_size * grid_size.0 <= i64::MAX,
            i64::MIN <= grid_cell_size * grid_size.1 <= i64::MAX,
        ensures
            r.grid_cell_size == grid_cell_size as u32,
            r.size == (((grid_cell_size * grid_size.0) as i64) as u32, ((grid_cell_size * grid_size.1) as i64) as u32),
            r.image == image,
            r.opacity_255 == opacity_255,
            r.tiles@.len() == tiles@.len(),
            forall|i: int| 0 <= i < tiles@.len() ==> {
                let t = #[trigger] tiles@[i];
                r.tiles@[i] == LayerTile {
                    opacity_255: t.0,
                    flip_x: t.1,
                    flip_y: t.2,
                    offset: t.3,
                    source: (t.4.0 as u32, t.4.1 as u32),
                    size: (grid_cell_size as u32, grid_cell_size as u32),
                }
            },
    {
        let tile_size = (grid_cell_size as u32, grid_cell_size as u32);
        let mut out: Vec<LayerTile> = Vec::new();
        let mut i: usize = 0;
        while i < tiles.len()
            invariant
                i <= tiles@.len(),
                tile_size == (grid_cell_size as u32, grid_cell_size as u32),
                out@.len() == i,
                forall|j: int| 0 <= j < i ==> {
                    let t = #[trigger] tiles@[j];
                    out@[j] == LayerTile {
                        opacity_255: t.0,
                        flip_x: t.1,
                        flip_y: t.2,
                        offset: t.3,
                        source: (t.4.0 as u32, t.4.1 as u32),
                        size: (grid_cell_size as u32, grid_cell_size as u32),
                    }
                },
            decreases tiles@.len() - i,
        {
            let (o, fx, fy, offset, source) = tiles[i];
            out.push(LayerTile::new(o, fx, fy, offset, source, tile_size));
            i = i + 1;
        }
        let w = grid_cell_size * grid_size.0;
        let h = grid_cell_size * grid_size.1;
        LayerTiles {
            tiles: out,
            image,
            grid_cell_size: grid_cell_size as u32,
            size: (w as u32, h as u32),
            opacity_255,
        }
    }
}

/// A pixel's alpha after scaling by an opacity given times 255: the product
/// divided by 255, cut to a byte.
pub open spec fn scaled_alpha(alpha: u8, opacity_255: u16) -> u8 {
    ((alpha as int * opacity_255 as int) / 255) as u8
}

/// Scales a pixel's alpha by an opacity given times 255.
pub fn scale_alpha(alpha: u8, opacity_255: u16) -> (r: u8)
    requires
        alpha as int * opacity_255 as int <= u16::MAX,
    ensures
        r == scaled_alpha(alpha, opacity_255),
{
    let pixel = alpha as u16;
    let product: u16 = pixel * opacity_255;
    (product / 255) as u8
}

/// Scales the alpha of every pixel of raw RGBA bytes by an opacity given
/// times 255; the color bytes stay as they are.
pub fn apply_opacity(pixels: &mut Vec<u8>, opacity_255: u16)
    requires
        forall|i: int| 0 <= i < old(pixels)@.len() && i % 4 == 3 ==> #[trigger] old(pixels)@[i] as int
            * opacity_255 as int <= u16::MAX,
    ensures
        final(pixels)@.len() == old(pixels)@.len(),
        forall|i: int| 0 <= i < old(pixels)@.len() ==> #[trigger] final(pixels)@[i] == (if i % 4 == 3 {
            scaled_alpha(old(pixels)@[i], opacity_255)
        } else {
            old(pixels)@[i]
        }),
{
    let n = pixels.len();
    let mut i: usize = 0;
    while i < n
        invariant
            n == pixels@.len(),
            n == old(pixels)@.len(),
            forall|j: int| 0 <= j < n && j % 4 == 3 ==> #[trigger] old(pixels)@[j] as int
                * opacity_255 as int <= u16::MAX,
            i <= n,
            forall|j: int| 0 <= j < n ==> #[trigger] pixels@[j] == (if j < i && j % 4 == 3 {
                scaled_alpha(old(pixels)@[j], opacity_255)
            } else {
                old(pixels)@[j]
            }),
        decreases n - i,
    {
        if i % 4 == 3 {
            let a = pixels[i];
            assert(a == old(pixels)@[i as int]);
            let v = scale_alpha(a, opacity_255);
            pixels.set(i, v);
        }
        i = i + 1;
    }
}

/// The image of one tile: its region of the tileset, mirrored as it says,
/// with its alpha scaled by its opacity.
pub open spec fn tile_pixels(tile: LayerTile, tileset: (u32, u32, Seq<u8>)) -> (u32, u32, Seq<u8>) {
    let c = cropped(tileset, tile.source.0, tile.source.1, tile.size.0, tile.size.1);
    let h = if tile.flip_x { flipped_horizontally(c) } else { c };
    let v = if tile.flip_y { flipped_vertically(h) } else { h };
    (v.0, v.1, with_opacity(v.2, tile.opacity_255))
}

/// `base` with the images of `tiles` blended onto it in order, each at its offset.
pub open spec fn tiles_drawn(
    tiles: Seq<LayerTile>,
    base: (u32, u32, Seq<u8>),
    tileset: (u32, u32, Seq<u8>),
) -> (u32, u32, Seq<u8>)
    decreases tiles.len(),
{
    if tiles.len() == 0 {
        base
    } else {
        let acc = tiles_drawn(tiles.drop_last(), base, tileset);
        let t = tiles.last();
        (acc.0, acc.1, overlaid(acc, tile_pixels(t, tileset), t.offset.0, t.offset.1))
    }
}

/// The image of a tile layer: its tiles drawn in order on a transparent image
/// of the layer's size, then every alpha scaled by the layer's opacity.
pub open spec fn layer_image(
    tiles: Seq<LayerTile>,
    size: (u32, u32),
    opacity_255: u16,
    tileset: (u32, u32, Seq<u8>),
) -> (u32, u32, Seq<u8>) {
    let d = tiles_drawn(tiles, blank(size.0, size.1), tileset);
    (d.0, d.1, with_opacity(d.2, opacity_255))
}

/// The image of one tile, taken from the tileset.
fn draw_tile(tile: LayerTile, tileset: &RgbaPixels) -> (r: RgbaPixels)
    requires
        pixels_wf(tileset@),
        tile.opacity_255 <= 257,
    ensures
        r@ == tile_pixels(tile, tileset@),
        pixels_wf(r@),
{
    let mut image = crop(tileset, tile.source.0, tile.source.1, tile.size.0, tile.size.1);
    if tile.flip_x {
        image = flip_horizontal(&image);
    }
    if tile.flip_y {
        image = flip_vertical(&image);
    }
    scale_opacity(&mut image, tile.opacity_255);
    image
}

impl LayerTiles {
    /// Draws the layer from its tileset image: each tile's region, mirrored and
    /// faded as the tile says, is blended in order onto a transparent image of
    /// the layer's size, which is then faded by the layer's opacity.
    pub fn generate_sprite_image(&self, tileset_image: &RgbaPixels) -> (r: RgbaPixels)
        requires
            pixels_wf(tileset_image@),
            self.size.0 as int * self.size.1 as int * 4 <= usize::MAX,
            self.opacity_255 <= 257,
            forall|i: int| 0 <= i < self.tiles@.len() ==> (#[trigger] self.tiles@[i]).opacity_255 <= 257,
        ensures
            r@ == layer_image(self.tiles@, self.size, self.opacity_255, tileset_image@),
    {
        let mut image = blank_pixels(self.size.0, self.size.1);
        let mut i: usize = 0;
        while i < self.tiles.len()
            invariant
                i <= self.tiles@.len(),
                pixels_wf(tileset_image@),
                forall|j: int| 0 <= j < self.tiles@.len() ==> (#[trigger] self.tiles@[j]).opacity_255 <= 257,
                pixels_wf(image@),
                image@ == tiles_drawn(self.tiles@.take(i as int), blank(self.size.0, self.size.1), tileset_image@),
            decreases self.tiles@.len() - i,
        {
            let tile = self.tiles[i];
            let drawn = draw_tile(tile, tileset_image);
            proof {
                let prefix = self.tiles@.take(i + 1);
                assert(prefix.drop_last() =~= self.tiles@.take(i as int));
                assert(prefix.last() == tile);
            }
            overlay(&mut image, &drawn, tile.offset.0, tile.offset.1);
            i = i + 1;
        }
        assert(self.tiles@.take(self.tiles@.len() as int) =~= self.tiles@);
        scale_opacity(&mut image, self.opacity_255);
        image
    }
}

/// Marks tile layers for drawing.
pub struct LayerTilePlugin;

} // verus!

verus! {

/// Tiles are drawn in list order, each over the ones before it: drawing a
/// list of tiles and then one more is blending that tile's image, at its
/// offset, onto the drawing of the list; drawing no tiles leaves the base.
pub proof fn law_later_tiles_are_drawn_over_earlier(
    tiles: Seq<LayerTile>,
    u: LayerTile,
    base: (u32, u32, Seq<u8>),
    tileset: (u32, u32, Seq<u8>),
)
    ensures
        tiles_drawn(seq![], base, tileset) == base,
        tiles_drawn(tiles.push(u), base, tileset) == ({
            let d = tiles_drawn(tiles, base, tileset);
            (d.0, d.1, overlaid(d, tile_pixels(u, tileset), u.offset.0, u.offset.1))
        }),
{
    assert(tiles.push(u).drop_last() =~= tiles);
    assert(tiles.push(u).last() == u);
}

} // verus!
