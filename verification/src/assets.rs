use vstd::prelude::*;

use crate::iid::{distinct, parse_all, parse_iid, parse_iid_set, uuid_parse};
use crate::text::str_equal;

verus! {

/// Why an LDtk entity instance could not be read or drawn.
#[derive(Debug)]
pub enum LdtkEntityError {
    IidError(uuid::Error),
    /// One world coordinate is given and the other is not.
    WorldCoordMixedOption,
    BadHandle(u64),
    BadProjectIid(u128),
    BadTilesetDefUid(i64),
    /// The tileset definition has no image path.
    RelPathIsNone,
    /// No tileset image was loaded from this path.
    BadRelPath(String),
    /// The ECS entity is not one that can carry an entity's sprite.
    QueryEntityError(u64),
}

/// The world location of an entity: both coordinates or neither.
pub fn world_location(world_x: Option<i64>, world_y: Option<i64>) -> (r: Result<Option<(i64, i64)>, LdtkEntityError>)
    ensures
        match (world_x, world_y) {
            (None, None) => r matches Ok(None),
            (Some(x), Some(y)) => r matches Ok(Some(p)) && p == (x, y),
            _ => r matches Err(LdtkEntityError::WorldCoordMixedOption),
        },
{
    match (world_x, world_y) {
        (None, None) => Ok(None),
        (Some(x), Some(y)) => Ok(Some((x, y))),
        _ => Err(LdtkEntityError::WorldCoordMixedOption),
    }
}

/// The tileset images a project knows: each tileset definition (uid, image
/// path if any) and each loaded tileset image (path, asset key).
#[derive(Debug)]
pub struct TilesetTables {
    tileset_defs: Vec<(i64, Option<String>)>,
    tilesets: Vec<(String, u64)>,
}

/// No two tileset definitions share a uid.
pub open spec fn uids_distinct(defs: Seq<(i64, Option<String>)>) -> bool {
    forall|a: int, b: int| 0 <= a < b < defs.len() ==> #[trigger] defs[a].0 != #[trigger] defs[b].0
}

/// No two tileset images share a path.
pub open spec fn paths_distinct(images: Seq<(String, u64)>) -> bool {
    forall|a: int, b: int| 0 <= a < b < images.len() ==> #[trigger] images[a].0@ != #[trigger] images[b].0@
}

impl TilesetTables {
    /// Tileset definitions and images are each keyed by a value of their own.
    #[verifier::type_invariant]
    closed spec fn keys_distinct(&self) -> bool {
        uids_distinct(self.tileset_defs@) && paths_distinct(self.tilesets@)
    }

    /// The tileset definitions, as (uid, image path if any).
    pub closed spec fn defs(&self) -> Seq<(i64, Option<String>)> {
        self.tileset_defs@
    }

    /// The loaded tileset images, as (path, asset key).
    pub closed spec fn images(&self) -> Seq<(String, u64)> {
        self.tilesets@
    }

    /// The tables of a project, each keyed by a value of its own.
    pub fn new(tileset_defs: Vec<(i64, Option<String>)>, tilesets: Vec<(String, u64)>) -> (r: Self)
        requires
            uids_distinct(tileset_defs@),
            paths_distinct(tilesets@),
        ensures
            r.defs() == tileset_defs@,
            r.images() == tilesets@,
            uids_distinct(r.defs()),
            paths_distinct(r.images()),
    {
        TilesetTables { tileset_defs, tilesets }
    }
}

/// The image path of the first tileset definition with this uid.
pub open spec fn def_path(defs: Seq<(i64, Option<String>)>, uid: i64) -> Option<Option<String>>
    decreases defs.len(),
{
    if defs.len() == 0 {
        None
    } else if defs[0].0 == uid {
        Some(defs[0].1)
    } else {
        def_path(defs.drop_first(), uid)
    }
}

/// The asset key of the first tileset image loaded from this path.
pub open spec fn image_at(images: Seq<(String, u64)>, path: Seq<char>) -> Option<u64>
    decreases images.len(),
{
    if images.len() == 0 {
        None
    } else if images[0].0@ == path {
        Some(images[0].1)
    } else {
        image_at(images.drop_first(), path)
    }
}

/// The tileset image an entity's tile is drawn from: the project must be
/// found, know the tile's tileset definition, which must name an image path,
/// from which an image must have been loaded.
pub fn resolve_entity_tile(project_iid: u128, project: Option<&TilesetTables>, tileset_uid: i64) -> (r: Result<u64, LdtkEntityError>)
    ensures
        match project {
            None => r matches Err(LdtkEntityError::BadProjectIid(i)) && i == project_iid,
            Some(t) => match def_path(t.defs(), tileset_uid) {
                None => r matches Err(LdtkEntityError::BadTilesetDefUid(u)) && u == tileset_uid,
                Some(None) => r matches Err(LdtkEntityError::RelPathIsNone),
                Some(Some(path)) => match image_at(t.images(), path@) {
                    None => r matches Err(LdtkEntityError::BadRelPath(p)) && p@ == path@,
                    Some(key) => r matches Ok(k) && k == key,
                },
            },
        },
{
    let tables = match project {
        None => return Err(LdtkEntityError::BadProjectIid(project_iid)),
        Some(t) => t,
    };
    let defs = tables.tileset_defs.as_slice();
    let mut i: usize = 0;
    assert(defs@.skip(0) =~= defs@);
    while i < defs.len()
        invariant
            i <= defs@.len(),
            defs@ == tables.tileset_defs@,
            project == Some(tables),
            def_path(defs@, tileset_uid) == def_path(defs@.skip(i as int), tileset_uid),
        decreases defs@.len() - i,
    {
        proof {
            assert(defs@.skip(i as int).drop_first() =~= defs@.skip(i + 1));
        }
        if defs[i].0 == tileset_uid {
            return match &defs[i].1 {
                None => Err(LdtkEntityError::RelPathIsNone),
                Some(path) => resolve_image(tables.tilesets.as_slice(), path.as_str()),
            };
        }
        i = i + 1;
    }
    Err(LdtkEntityError::BadTilesetDefUid(tileset_uid))
}

/// The asset key of the tileset image loaded from `path`.
fn resolve_image(images: &[(String, u64)], path: &str) -> (r: Result<u64, LdtkEntityError>)
    ensures
        match image_at(images@, path@) {
            None => r matches Err(LdtkEntityError::BadRelPath(p)) && p@ == path@,
            Some(key) => r matches Ok(k) && k == key,
        },
{
    let mut i: usize = 0;
    assert(images@.skip(0) =~= images@);
    while i < images.len()
        invariant
            i <= images@.len(),
            image_at(images@, path@) == image_at(images@.skip(i as int), path@),
        decreases images@.len() - i,
    {
        proof {
            assert(images@.skip(i as int).drop_first() =~= images@.skip(i + 1));
        }
        if str_equal(images[i].0.as_str(), path) {
            return Ok(images[i].1);
        }
        i = i + 1;
    }
    Err(LdtkEntityError::BadRelPath(path.to_string()))
}

/// Why an LDtk level could not be read.
#[derive(Debug)]
pub enum LdtkLevelError {
    IidError(uuid::Error),
    /// The level names a background image but no position for it.
    BgPosIsNone,
    /// The level places a background image but names none.
    BgRelPathIsNone,
    BadHandle(u64),
}

/// Where a level's background image comes from.
#[derive(Debug)]
pub enum BackgroundSource {
    /// A plain image of the level's color and size.
    Fill,
    /// The image at this path, cropped, scaled and placed over the color.
    Load(String),
}

/// Where a level's background image comes from: both a position and an
/// image path, or neither; one without the other is an error.
pub fn background_source(has_bg_pos: bool, bg_rel_path: Option<String>) -> (r: Result<BackgroundSource, LdtkLevelError>)
    ensures
        match (has_bg_pos, bg_rel_path) {
            (false, Some(_)) => r matches Err(LdtkLevelError::BgPosIsNone),
            (true, None) => r matches Err(LdtkLevelError::BgRelPathIsNone),
            (false, None) => r matches Ok(BackgroundSource::Fill),
            (true, Some(p)) => r matches Ok(BackgroundSource::Load(q)) && q == p,
        },
{
    match (has_bg_pos, bg_rel_path) {
        (false, Some(_)) => Err(LdtkLevelError::BgPosIsNone),
        (true, None) => Err(LdtkLevelError::BgRelPathIsNone),
        (false, None) => Ok(BackgroundSource::Fill),
        (true, Some(p)) => Ok(BackgroundSource::Load(p)),
    }
}

/// The iid of a level and the iids of its layers, if it lists them.
pub fn read_level_iids(iid: &str, layer_iids: &Option<Vec<String>>) -> (r: Result<(u128, Vec<u128>), LdtkLevelError>)
    ensures
        uuid_parse(iid@) is None ==> r matches Err(LdtkLevelError::IidError(_)),
        uuid_parse(iid@) matches Some(v) ==> match layer_iids {
            None => r matches Ok(p) && p.0 == v && p.1@.len() == 0,
            Some(texts) => match parse_all(texts@.map_values(|t: String| t@)) {
                Ok(children) => r matches Ok(p) && p.0 == v && p.1@ == distinct(children),
                Err(_) => r matches Err(LdtkLevelError::IidError(_)),
            },
        },
{
    let v = match parse_iid(iid) {
        Ok(v) => v,
        Err(e) => return Err(LdtkLevelError::IidError(e)),
    };
    match layer_iids {
        None => Ok((v, Vec::new())),
        Some(texts) => match parse_iid_set(texts.as_slice()) {
            Ok(children) => Ok((v, children)),
            Err(e) => Err(LdtkLevelError::IidError(e)),
        },
    }
}

/// Why an LDtk world could not be read.
#[derive(Debug)]
pub enum LdtkWorldError {
    IidError(uuid::Error),
    /// The world has no layout.
    MissingWorldLayout(u128),
}

/// The iid of a world and the iids of its levels; a world must have a layout.
pub fn read_world_iids(iid: &str, level_iids: &[String], has_world_layout: bool) -> (r: Result<(u128, Vec<u128>), LdtkWorldError>)
    ensures
        uuid_parse(iid@) is None ==> r matches Err(LdtkWorldError::IidError(_)),
        uuid_parse(iid@) matches Some(v) ==> match parse_all(level_iids@.map_values(|t: String| t@)) {
            Err(_) => r matches Err(LdtkWorldError::IidError(_)),
            Ok(children) => if has_world_layout {
                r matches Ok(p) && p.0 == v && p.1@ == distinct(children)
            } else {
                r matches Err(LdtkWorldError::MissingWorldLayout(x)) && x == v
            },
        },
{
    let v = match parse_iid(iid) {
        Ok(v) => v,
        Err(e) => return Err(LdtkWorldError::IidError(e)),
    };
    let children = match parse_iid_set(level_iids) {
        Ok(c) => c,
        Err(e) => return Err(LdtkWorldError::IidError(e)),
    };
    if has_world_layout {
        Ok((v, children))
    } else {
        Err(LdtkWorldError::MissingWorldLayout(v))
    }
}

/// Why a project file could not be loaded.
#[derive(Debug)]
pub enum LdtkProjectLoaderError {
    /// An iid of the project, or of one of its items, is not an iid.
    IidError(uuid::Error),
    LdtkWorldError(LdtkWorldError),
    LdtkLevelError(LdtkLevelError),
    LdtkLayerError(crate::layer_asset::LdtkLayerAssetError),
    LdtkEntityError(LdtkEntityError),
    /// A field that a single-world project must have is missing; its name.
    FieldIsNone(String),
}

/// The four fields a project without worlds gives its one implied world.
#[derive(Clone, Copy, Debug, PartialEq, Eq)]
pub struct ImpliedWorld {
    pub default_level_height: i64,
    pub default_level_width: i64,
    pub world_grid_width: i64,
    pub world_grid_height: i64,
}

/// The world that a project without a list of worlds stands for, read from
/// its top-level fields, which must all be present (checked in this order).
pub fn implied_world(
    default_level_height: Option<i64>,
    default_level_width: Option<i64>,
    world_grid_width: Option<i64>,
    world_grid_height: Option<i64>,
) -> (r: Result<ImpliedWorld, LdtkProjectLoaderError>)
    ensures
        default_level_height is None ==> (r matches Err(LdtkProjectLoaderError::FieldIsNone(s)) && s@ == "default_level_height"@),
        default_level_height is Some && default_level_width is None ==> (r matches Err(LdtkProjectLoaderError::FieldIsNone(s)) && s@ == "default_level_width"@),
        default_level_height is Some && default_level_width is Some && world_grid_width is None ==> (r matches Err(LdtkProjectLoaderError::FieldIsNone(s)) && s@ == "world_grid_width"@),
        default_level_height is Some && default_level_width is Some && world_grid_width is Some && world_grid_height is None
            ==> (r matches Err(LdtkProjectLoaderError::FieldIsNone(s)) && s@ == "world_grid_height"@),
        r matches Ok(w) ==> Some(w.default_level_height) == default_level_height && Some(w.default_level_width)
            == default_level_width && Some(w.world_grid_width) == world_grid_width && Some(w.world_grid_height)
            == world_grid_height,
        default_level_height is Some && default_level_width is Some && world_grid_width is Some && world_grid_height is Some
            ==> r is Ok,
{
    let default_level_height = match default_level_height {
        Some(v) => v,
        None => return Err(LdtkProjectLoaderError::FieldIsNone("default_level_height".to_string())),
    };
    let default_level_width = match default_level_width {
        Some(v) => v,
        None => return Err(LdtkProjectLoaderError::FieldIsNone("default_level_width".to_string())),
    };
    let world_grid_width = match world_grid_width {
        Some(v) => v,
        None => return Err(LdtkProjectLoaderError::FieldIsNone("world_grid_width".to_string())),
    };
    let world_grid_height = match world_grid_height {
        Some(v) => v,
        None => return Err(LdtkProjectLoaderError::FieldIsNone("world_grid_height".to_string())),
    };
    Ok(ImpliedWorld { default_level_height, default_level_width, world_grid_width, world_grid_height })
}

/// Where a level's data is read from.
#[derive(Debug, PartialEq, Eq)]
pub enum LevelSource {
    /// From the project file itself.
    Inline,
    /// From a separate file at this path, relative to the project.
    External(String),
}

/// Where a level's data is read from: a project with external levels needs
/// each level's path.
pub fn level_source(external_levels: bool, external_rel_path: Option<String>) -> (r: Result<LevelSource, LdtkProjectLoaderError>)
    ensures
        !external_levels ==> r == Ok::<LevelSource, LdtkProjectLoaderError>(LevelSource::Inline),
        external_levels ==> match external_rel_path {
            Some(p) => r == Ok::<LevelSource, LdtkProjectLoaderError>(LevelSource::External(p)),
            None => (r matches Err(LdtkProjectLoaderError::FieldIsNone(s)) && s@ == "external_rel_path"@),
        },
{
    if external_levels {
        match external_rel_path {
            Some(p) => Ok(LevelSource::External(p)),
            None => Err(LdtkProjectLoaderError::FieldIsNone("external_rel_path".to_string())),
        }
    } else {
        Ok(LevelSource::Inline)
    }
}

/// The drawing index of each of `count` layers listed top first: the loader
/// numbers them from the last, so the layer at position `p` gets index
/// `count - 1 - p`. Returned as (position, index) pairs in numbering order.
pub fn layer_indices(count: usize) -> (r: Vec<(usize, usize)>)
    ensures
        r@.len() == count,
        forall|k: int| 0 <= k < count ==> #[trigger] r@[k] == ((count - 1 - k) as usize, k as usize),
{
    let mut out: Vec<(usize, usize)> = Vec::new();
    let mut k: usize = 0;
    while k < count
        invariant
            k <= count,
            out@.len() == k,
            forall|j: int| 0 <= j < k ==> #[trigger] out@[j] == ((count - 1 - j) as usize, j as usize),
        decreases count - k,
    {
        out.push((count - 1 - k, k));
        k = k + 1;
    }
    out
}

/// The image paths of the tileset definitions (uid, path if any) that name
/// one, in order; the loader loads a tileset image from each.
pub fn tileset_paths(tileset_defs: &[(i64, Option<String>)]) -> (r: Vec<String>)
    ensures
        r@.map_values(|p: String| p@) == named_paths(tileset_defs@),
{
    let mut out: Vec<String> = Vec::new();
    let mut i: usize = 0;
    while i < tileset_defs.len()
        invariant
            i <= tileset_defs@.len(),
            out@.map_values(|p: String| p@) == named_paths(tileset_defs@.take(i as int)),
        decreases tileset_defs@.len() - i,
    {
        proof {
            assert(tileset_defs@.take(i + 1).drop_last() =~= tileset_defs@.take(i as int));
        }
        match &tileset_defs[i].1 {
            Some(p) => {
                let q = p.clone();
                let ghost before = out@;
                out.push(q);
                assert(out@.map_values(|p: String| p@) =~= before.map_values(|p: String| p@).push(q@));
            },
            None => {},
        }
        i = i + 1;
    }
    assert(tileset_defs@.take(tileset_defs@.len() as int) =~= tileset_defs@);
    out
}

/// The image paths that the tileset definitions name, in order.
pub open spec fn named_paths(defs: Seq<(i64, Option<String>)>) -> Seq<Seq<char>>
    decreases defs.len(),
{
    if defs.len() == 0 {
        seq![]
    } else {
        let rest = named_paths(defs.drop_last());
        match defs.last().1 {
            Some(p) => rest.push(p@),
            None => rest,
        }
    }
}

/// Which components a changed entity gets from its asset, besides its
/// definition and field instances, which it always gets.
#[derive(Clone, Copy, Debug, PartialEq, Eq)]
pub struct EntityComponentsPlan {
    /// A transform at the entity's location (it has none yet).
    pub insert_transform: bool,
    /// The asset's tile (the entity has none yet and the asset has one).
    pub insert_tile: bool,
    /// The asset's tags (it has some).
    pub insert_tags: bool,
}

/// Which components a changed entity gets from its asset.
pub fn entity_insert_components(has_transform: bool, has_tile: bool, asset_has_tile: bool, asset_tag_count: usize) -> (r: EntityComponentsPlan)
    ensures
        r.insert_transform == !has_transform,
        r.insert_tile == (!has_tile && asset_has_tile),
        r.insert_tags == (asset_tag_count != 0),
{
    EntityComponentsPlan {
        insert_transform: !has_transform,
        insert_tile: !has_tile && asset_has_tile,
        insert_tags: asset_tag_count != 0,
    }
}

/// Which components a changed layer gets from its asset.
#[derive(Clone, Copy, Debug, PartialEq, Eq)]
pub struct LayerComponentsPlan {
    /// The tiles drawn into one image (a tiles layer with tiles).
    pub insert_layer_tiles: bool,
    /// The layer definition (any tiles layer).
    pub insert_layer_definition: bool,
    /// A transform at the layer's location (it has none yet).
    pub insert_transform: bool,
}

/// Which components a changed layer gets from its asset: `tile_count` is the
/// number of tiles when the layer is a tiles layer.
pub fn layer_insert_components(tile_count: Option<usize>, has_transform: bool) -> (r: LayerComponentsPlan)
    ensures
        r.insert_layer_tiles == (tile_count matches Some(n) && n != 0),
        r.insert_layer_definition == tile_count is Some,
        r.insert_transform == !has_transform,
{
    let insert_layer_tiles = match tile_count {
        Some(n) => n != 0,
        None => false,
    };
    LayerComponentsPlan {
        insert_layer_tiles,
        insert_layer_definition: tile_count.is_some(),
        insert_transform: !has_transform,
    }
}

} // verus!
