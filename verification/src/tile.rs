use vstd::prelude::*;

verus! {

/// A rectangle of a tileset image, as an entity or an int grid value shows it.
#[derive(Clone, Copy, Debug, PartialEq, Eq)]
pub struct Tile {
    /// The top left corner in the tileset image, in pixels.
    pub corner: (i64, i64),
    /// The size in pixels.
    pub size: (i64, i64),
    /// Not provided by LDtk: whether the tile is drawn mirrored horizontally.
    pub flip_x: bool,
    /// Not provided by LDtk: whether the tile is drawn mirrored vertically.
    pub flip_y: bool,
    /// The asset key of the tileset definition.
    pub tileset_definition: u64,
}

impl Tile {
    /// The tile of an LDtk tileset rectangle, not mirrored.
    pub fn new(corner: (i64, i64), size: (i64, i64), tileset_definition: u64) -> (r: Self)
        ensures
            r == (Tile { corner, size, flip_x: false, flip_y: false, tileset_definition }),
    {
        Tile { corner, size, flip_x: false, flip_y: false, tileset_definition }
    }

    /// Sets whether the tile is mirrored horizontally.
    pub fn flip_x(&mut self, flip_x: bool)
        ensures
            *final(self) == (Tile { flip_x, ..*old(self) }),
    {
        self.flip_x = flip_x
    }

    /// The same tile, mirrored horizontally or not.
    pub fn with_flip_x(self, flip_x: bool) -> (r: Self)
        ensures
            r == (Tile { flip_x, ..self }),
    {
        let mut t = self;
        t.flip_x = flip_x;
        t
    }
}

/// The margins of a nine-slice tile, in pixels.
#[derive(Clone, Copy, Debug, PartialEq, Eq)]
pub struct NineSlice {
    pub up: i64,
    pub right: i64,
    pub down: i64,
    pub left: i64,
}

/// How an entity definition asks its tile to be drawn.
#[derive(Clone, Copy, Debug, PartialEq, Eq)]
pub enum TileRenderMode {
    Cover,
    FitInside,
    Repeat,
    Stretch,
    FullSizeCropped,
    FullSizeUncropped,
    NineSlice(NineSlice),
}

/// How a sprite fills its size with its image.
#[derive(Clone, Copy, Debug, PartialEq, Eq)]
pub enum SpriteImageMode {
    /// The image is drawn as it is, stretched to the size.
    Auto,
    /// Scaled to fill the size, keeping its aspect, centered.
    FillCenter,
    /// Scaled to fit inside the size, keeping its aspect, centered.
    FitCenter,
    /// Repeated along both axes, without stretching.
    TiledBoth,
    /// Nine-sliced with these borders; the center and the sides are repeated
    /// without stretching.
    Sliced { left: i64, right: i64, top: i64, bottom: i64 },
}

/// The sprite an entity gets for its tile. The anchor is the entity's own.
#[derive(Clone, Copy, Debug, PartialEq, Eq)]
pub struct SpritePlan {
    /// The asset key of the tileset image.
    pub image: u64,
    pub flip_x: bool,
    pub flip_y: bool,
    /// The size to draw at, when not the size of the image region.
    pub custom_size: Option<(i64, i64)>,
    /// The region of the tileset image: its corner, and the corner plus the size.
    pub rect_corner: (i64, i64),
    pub rect_size: (i64, i64),
    pub image_mode: SpriteImageMode,
}

/// The sprite that draws `tile` from the tileset image `image` for an entity
/// of size `size`, in the given image mode, at that size.
pub open spec fn sized_sprite(tile: Tile, image: u64, size: (i64, i64), mode: SpriteImageMode) -> SpritePlan {
    SpritePlan {
        image,
        flip_x: tile.flip_x,
        flip_y: tile.flip_y,
        custom_size: Some(size),
        rect_corner: tile.corner,
        rect_size: tile.size,
        image_mode: mode,
    }
}

/// The sprite, if any, that an entity of size `size` gets for `tile` in the
/// render mode of its definition. A full-size cropped tile gets none.
pub open spec fn sprite_for(tile: Tile, image: u64, size: (i64, i64), mode: TileRenderMode) -> Option<SpritePlan> {
    match mode {
        TileRenderMode::Cover => Some(sized_sprite(tile, image, size, SpriteImageMode::FillCenter)),
        TileRenderMode::FitInside => Some(sized_sprite(tile, image, size, SpriteImageMode::FitCenter)),
        TileRenderMode::Repeat => Some(sized_sprite(tile, image, size, SpriteImageMode::TiledBoth)),
        TileRenderMode::Stretch => Some(sized_sprite(tile, image, size, SpriteImageMode::Auto)),
        TileRenderMode::FullSizeCropped => None,
        TileRenderMode::FullSizeUncropped => Some(
            SpritePlan { custom_size: None, ..sized_sprite(tile, image, size, SpriteImageMode::Auto) },
        ),
        TileRenderMode::NineSlice(n) => Some(
            sized_sprite(
                tile,
                image,
                size,
                SpriteImageMode::Sliced { left: n.left, right: n.right, top: n.up, bottom: n.down },
            ),
        ),
    }
}

/// Draws the tile scaled to cover the entity.
pub fn sprite_mode_cover(tile: &Tile, image: u64, size: (i64, i64)) -> (r: SpritePlan)
    ensures
        r == sized_sprite(*tile, image, size, SpriteImageMode::FillCenter),
{
    SpritePlan {
        image,
        flip_x: tile.flip_x,
        flip_y: tile.flip_y,
        custom_size: Some(size),
        rect_corner: tile.corner,
        rect_size: tile.size,
        image_mode: SpriteImageMode::FillCenter,
    }
}

/// Draws the tile scaled to fit inside the entity.
pub fn sprite_mode_fit_inside(tile: &Tile, image: u64, size: (i64, i64)) -> (r: SpritePlan)
    ensures
        r == sized_sprite(*tile, image, size, SpriteImageMode::FitCenter),
{
    SpritePlan { image_mode: SpriteImageMode::FitCenter, ..sprite_mode_cover(tile, image, size) }
}

/// Draws the tile repeated over the entity.
pub fn sprite_mode_repeat(tile: &Tile, image: u64, size: (i64, i64)) -> (r: SpritePlan)
    ensures
        r == sized_sprite(*tile, image, size, SpriteImageMode::TiledBoth),
{
    SpritePlan { image_mode: SpriteImageMode::TiledBoth, ..sprite_mode_cover(tile, image, size) }
}

/// Draws the tile stretched over the entity.
pub fn sprite_mode_stretch(tile: &Tile, image: u64, size: (i64, i64)) -> (r: SpritePlan)
    ensures
        r == sized_sprite(*tile, image, size, SpriteImageMode::Auto),
{
    SpritePlan { image_mode: SpriteImageMode::Auto, ..sprite_mode_cover(tile, image, size) }
}

/// Draws the tile at its own size.
pub fn sprite_mode_full_size_uncropped(tile: &Tile, image: u64, size: (i64, i64)) -> (r: SpritePlan)
    ensures
        r == (SpritePlan { custom_size: None, ..sized_sprite(*tile, image, size, SpriteImageMode::Auto) }),
{
    SpritePlan { custom_size: None, image_mode: SpriteImageMode::Auto, ..sprite_mode_cover(tile, image, size) }
}

/// Draws the tile nine-sliced over the entity.
pub fn sprite_mode_nine_slice(tile: &Tile, image: u64, size: (i64, i64), nine_slice: &NineSlice) -> (r: SpritePlan)
    ensures
        r == sized_sprite(
            *tile,
            image,
            size,
            SpriteImageMode::Sliced {
                left: nine_slice.left,
                right: nine_slice.right,
                top: nine_slice.up,
                bottom: nine_slice.down,
            },
        ),
{
    let image_mode = SpriteImageMode::Sliced {
        left: nine_slice.left,
        right: nine_slice.right,
        top: nine_slice.up,
        bottom: nine_slice.down,
    };
    SpritePlan { image_mode, ..sprite_mode_cover(tile, image, size) }
}

/// The sprite an entity of size `size` gets for its tile, drawn from the
/// tileset image `image` in its definition's render mode; none for a
/// full-size cropped tile, which is not supported.
pub fn insert_sprite_system(tile: &Tile, image: u64, size: (i64, i64), render_mode: &TileRenderMode) -> (r: Option<SpritePlan>)
    ensures
        r == sprite_for(*tile, image, size, *render_mode),
{
    match render_mode {
        TileRenderMode::Cover => Some(sprite_mode_cover(tile, image, size)),
        TileRenderMode::FitInside => Some(sprite_mode_fit_inside(tile, image, size)),
        TileRenderMode::Repeat => Some(sprite_mode_repeat(tile, image, size)),
        TileRenderMode::Stretch => Some(sprite_mode_stretch(tile, image, size)),
        TileRenderMode::FullSizeCropped => None,
        TileRenderMode::FullSizeUncropped => Some(sprite_mode_full_size_uncropped(tile, image, size)),
        TileRenderMode::NineSlice(nine_slice) => Some(sprite_mode_nine_slice(tile, image, size, nine_slice)),
    }
}

/// Every supported render mode draws the tile's own region of the tileset,
/// mirrored as the tile says.
pub proof fn law_sprite_shows_the_tile(tile: Tile, image: u64, size: (i64, i64), mode: TileRenderMode)
    ensures
        mode != TileRenderMode::FullSizeCropped <==> sprite_for(tile, image, size, mode) is Some,
        sprite_for(tile, image, size, mode) matches Some(p) ==> p.rect_corner == tile.corner
            && p.rect_size == tile.size && p.flip_x == tile.flip_x && p.flip_y == tile.flip_y
            && p.image == image,
{
}

/// Marks tiles for drawing.
pub struct TilePlugin;

} // verus!

verus! {

/// Every render mode but the two full-size ones draws the sprite at the
/// entity's size: the sprite exists and its custom size is the entity's.
pub proof fn law_sized_modes_draw_at_the_entity_size(tile: Tile, image: u64, size: (i64, i64), mode: TileRenderMode)
    requires
        !(mode is FullSizeCropped),
        !(mode is FullSizeUncropped),
    ensures
        sprite_for(tile, image, size, mode) is Some,
        sprite_for(tile, image, size, mode)->0.custom_size == Some(size),
{
}

} // verus!
