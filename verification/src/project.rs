use vstd::prelude::*;

use crate::assets::{
    background_source, implied_world, level_source, read_level_iids, read_world_iids, tileset_paths,
    world_location, BackgroundSource, LdtkEntityError, LdtkLevelError, LdtkProjectLoaderError,
    LdtkWorldError, named_paths,
};
use crate::entity_tile::TileRect;
use crate::iid::{distinct, parse_all, parse_iid, uuid_parse};
use crate::text::str_equal;
use crate::layer_asset::{
    layer_shape, layer_type_named, read_layer_contents, LayerContents, LdtkLayerAssetError,
    LdtkLayerType, TileSource,
};

verus! {

/// How the levels of a world are laid out.
#[derive(Clone, Copy, Debug, PartialEq, Eq)]
pub enum WorldLayout {
    Free,
    GridVania,
    LinearHorizontal,
    LinearVertical,
}

/// A world as the project file lists it.
#[derive(Debug)]
pub struct WorldFile {
    pub iid: String,
    pub identifier: String,
    /// The iids of its levels.
    pub level_iids: Vec<String>,
    pub world_grid_size: (i64, i64),
    pub world_layout: Option<WorldLayout>,
}

/// A level as the project file (or its external level file) gives it.
#[derive(Debug)]
pub struct LevelFile {
    pub iid: String,
    /// The path of the level's own file, for a project with external levels.
    pub external_rel_path: Option<String>,
    /// The iids of its layer instances, when it lists them.
    pub layer_iids: Option<Vec<String>>,
    pub has_bg_pos: bool,
    pub bg_rel_path: Option<String>,
    pub identifier: String,
    /// The size in pixels.
    pub size: (i64, i64),
    /// The world position and depth.
    pub location: (i64, i64, i64),
}

/// A layer instance as a level gives it.
#[derive(Debug)]
pub struct LayerFile {
    pub layer_instance_type: String,
    pub iid: String,
    pub auto_layer_tiles: usize,
    pub grid_tiles: usize,
    pub entity_iids: Vec<String>,
    pub tileset_rel_path: Option<String>,
    pub geometry: LayerGeometry,
}

/// Where a layer lies and what it is defined by, as LDtk gives it.
#[derive(Clone, Copy, Debug, PartialEq, Eq)]
pub struct LayerGeometry {
    /// The width and height in cells.
    pub grid_dimensions: (i64, i64),
    /// The size of a cell in pixels.
    pub grid_size: i64,
    /// The pixel offset of the layer.
    pub location: (i64, i64),
    /// The total pixel offset, with the y axis pointing down.
    pub px_total_offset: (i64, i64),
    pub layer_def_uid: i64,
    pub level_id: i64,
    pub tileset_def_uid: Option<i64>,
    pub override_tileset_uid: Option<i64>,
}

/// An entity instance as a layer gives it.
#[derive(Debug)]
pub struct EntityFile {
    pub iid: String,
    pub world_x: Option<i64>,
    pub world_y: Option<i64>,
    pub identifier: String,
    pub tags: Vec<String>,
    pub grid: (i64, i64),
    pub size: (i64, i64),
    /// The pixel location in its layer.
    pub location: (i64, i64),
    pub tile: Option<TileRect>,
    pub def_uid: i64,
}

/// What the loader reads from a parsed project file. `levels` are the levels
/// of every world in order (of the project itself when it lists no worlds),
/// `layers` the layer instances of every level in order, and `entities` the
/// entity instances of every layer in order.
#[derive(Debug)]
pub struct ProjectFile {
    pub iid: String,
    pub worlds: Vec<WorldFile>,
    pub default_level_height: Option<i64>,
    pub default_level_width: Option<i64>,
    pub world_grid_width: Option<i64>,
    pub world_grid_height: Option<i64>,
    pub world_layout: Option<WorldLayout>,
    pub external_levels: bool,
    pub levels: Vec<LevelFile>,
    pub layers: Vec<LayerFile>,
    pub entities: Vec<EntityFile>,
    pub json_version: String,
    /// The uids of the layer definitions.
    pub layer_def_uids: Vec<i64>,
    /// The tileset definitions, as (uid, image path if any).
    pub tileset_defs: Vec<(i64, Option<String>)>,
}

/// What a loaded world keeps besides its iids.
#[derive(Debug)]
pub struct WorldDetails {
    pub identifier: String,
    pub world_grid_size: (i64, i64),
    pub world_layout: WorldLayout,
}

/// What a loaded level keeps besides its iids and background.
#[derive(Debug)]
pub struct LevelDetails {
    pub identifier: String,
    pub size: (i64, i64),
    pub location: (i64, i64, i64),
}

/// What a loaded layer keeps besides its contents: its geometry, and its
/// total pixel offset with the y axis pointing up.
#[derive(Clone, Copy, Debug, PartialEq, Eq)]
pub struct LayerDetails {
    pub geometry: LayerGeometry,
    pub px_total_offset: (i64, i64),
}

/// What a loaded entity keeps besides its iid and world location.
#[derive(Debug)]
pub struct EntityDetails {
    /// The iid of the project it belongs to.
    pub project_iid: u128,
    pub identifier: String,
    pub tags: Vec<String>,
    pub grid: (i64, i64),
    pub size: (i64, i64),
    pub location: (i64, i64),
    pub tile: Option<TileRect>,
    pub def_uid: i64,
}

/// The tables of a loaded project, keyed by iid.
#[derive(Debug)]
pub struct ProjectTables {
    pub iid: u128,
    /// Each world's iid and the set of its level iids.
    pub worlds: Vec<(u128, Vec<u128>)>,
    /// Each level's iid, the set of its layer iids and its background.
    pub levels: Vec<(u128, Vec<u128>, BackgroundSource)>,
    /// Each layer's drawing index and contents, numbered from the last layer.
    pub layers: Vec<(usize, LayerContents)>,
    /// Each entity's iid and world location.
    pub entities: Vec<(u128, Option<(i64, i64)>)>,
    /// The tileset image paths to load, each once.
    pub tileset_paths: Vec<String>,
    /// The details of each world, level, layer and entity, in the order of
    /// the tables above.
    pub world_details: Vec<WorldDetails>,
    pub level_details: Vec<LevelDetails>,
    pub layer_details: Vec<LayerDetails>,
    pub entity_details: Vec<EntityDetails>,
    pub json_version: String,
    /// The layer definition uids, each once.
    pub layer_defs: Vec<i64>,
    /// The tileset definitions keyed by uid: for each uid, the last
    /// definition the file gives it.
    pub tileset_defs: Vec<(i64, Option<String>)>,
}

/// The texts of a list of strings.
pub open spec fn texts(s: Seq<String>) -> Seq<Seq<char>> {
    s.map_values(|t: String| t@)
}

/// Whether no item before `i` fails `good` and item `i` does.
pub open spec fn first_bad<A>(s: Seq<A>, good: spec_fn(A) -> bool, i: int) -> bool {
    0 <= i < s.len() && !good(s[i]) && forall|j: int| 0 <= j < i ==> good(s[j])
}

// Worlds, as (iid, level iids, has a layout).

pub open spec fn world_good(w: (Seq<char>, Seq<Seq<char>>, bool)) -> bool {
    uuid_parse(w.0) is Some && parse_all(w.1) is Ok && w.2
}

/// The error a world gives: its iid, then its level iids, then its layout.
pub open spec fn world_error(w: (Seq<char>, Seq<Seq<char>>, bool), e: LdtkProjectLoaderError) -> bool {
    if uuid_parse(w.0) is None {
        e is IidError
    } else if parse_all(w.1) is Err {
        e matches LdtkProjectLoaderError::LdtkWorldError(LdtkWorldError::IidError(_))
    } else {
        e matches LdtkProjectLoaderError::LdtkWorldError(LdtkWorldError::MissingWorldLayout(x)) && x
            == uuid_parse(w.0)->0
    }
}

pub open spec fn world_view(w: WorldFile) -> (Seq<char>, Seq<Seq<char>>, bool) {
    (w.iid@, texts(w.level_iids@), w.world_layout is Some)
}

/// The worlds of a project: those it lists, or the one it stands for.
pub open spec fn project_worlds(f: ProjectFile) -> Seq<(Seq<char>, Seq<Seq<char>>, bool)> {
    if f.worlds@.len() == 0 {
        seq![(f.iid@, f.levels@.map_values(|l: LevelFile| l.iid@), f.world_layout is Some)]
    } else {
        f.worlds@.map_values(|w: WorldFile| world_view(w))
    }
}

// Levels, as (iid, layer iids, has a background position, background path).

pub open spec fn level_view(l: LevelFile) -> (Seq<char>, Option<Seq<Seq<char>>>, bool, Option<String>) {
    (
        l.iid@,
        match l.layer_iids {
            Some(v) => Some(texts(v@)),
            None => None,
        },
        l.has_bg_pos,
        l.bg_rel_path,
    )
}

pub open spec fn layers_parse(l: (Seq<char>, Option<Seq<Seq<char>>>, bool, Option<String>)) -> bool {
    match l.1 {
        Some(t) => parse_all(t) is Ok,
        None => true,
    }
}

pub open spec fn level_good(l: (Seq<char>, Option<Seq<Seq<char>>>, bool, Option<String>)) -> bool {
    uuid_parse(l.0) is Some && layers_parse(l) && l.2 == l.3 is Some
}

/// The error a level gives: its iid, then its layer iids, then its background.
pub open spec fn level_error(l: (Seq<char>, Option<Seq<Seq<char>>>, bool, Option<String>), e: LdtkProjectLoaderError) -> bool {
    if uuid_parse(l.0) is None {
        e is IidError
    } else if !layers_parse(l) {
        e matches LdtkProjectLoaderError::LdtkLevelError(LdtkLevelError::IidError(_))
    } else if l.2 {
        e matches LdtkProjectLoaderError::LdtkLevelError(LdtkLevelError::BgRelPathIsNone)
    } else {
        e matches LdtkProjectLoaderError::LdtkLevelError(LdtkLevelError::BgPosIsNone)
    }
}

/// The layer iids a good level has, as a set.
pub open spec fn level_children(l: (Seq<char>, Option<Seq<Seq<char>>>, bool, Option<String>)) -> Seq<u128> {
    match l.1 {
        Some(t) => distinct(parse_all(t)->Ok_0),
        None => seq![],
    }
}

/// What a good level's entry holds.
pub open spec fn level_entry(
    l: (Seq<char>, Option<Seq<Seq<char>>>, bool, Option<String>),
    e: (u128, Vec<u128>, BackgroundSource),
) -> bool {
    &&& e.0 == uuid_parse(l.0)->0
    &&& e.1@ == level_children(l)
    &&& match l.3 {
        Some(p) => e.2 matches BackgroundSource::Load(q) && q == p,
        None => e.2 is Fill,
    }
}

// Layers.

pub open spec fn layer_good(l: LayerFile) -> bool {
    &&& uuid_parse(l.iid@) is Some
    &&& layer_type_named(l.layer_instance_type@) matches Some(t)
    &&& layer_shape(t, l.auto_layer_tiles as nat, l.grid_tiles as nat, l.entity_iids@.len()) matches Some(
        source,
    )
    &&& (source == TileSource::NoTiles ==> parse_all(texts(l.entity_iids@)) is Ok)
}

/// The error a layer gives: its iid, then its type name, then whether its
/// contents fit its type, then its entity iids.
pub open spec fn layer_error(l: LayerFile, e: LdtkProjectLoaderError) -> bool {
    if uuid_parse(l.iid@) is None {
        e is IidError
    } else {
        let v = uuid_parse(l.iid@)->0;
        match layer_type_named(l.layer_instance_type@) {
            None => e matches LdtkProjectLoaderError::LdtkLayerError(LdtkLayerAssetError::UnknownLayerType(s))
                && s@ == l.layer_instance_type@,
            Some(t) => match layer_shape(t, l.auto_layer_tiles as nat, l.grid_tiles as nat, l.entity_iids@.len()) {
                None => match t {
                    LdtkLayerType::IntGrid | LdtkLayerType::Autolayer => e matches LdtkProjectLoaderError::LdtkLayerError(
                        LdtkLayerAssetError::IntGridWithEntitiesOrGridTiles(x),
                    ) && x == v,
                    LdtkLayerType::Tiles => e matches LdtkProjectLoaderError::LdtkLayerError(
                        LdtkLayerAssetError::TilesWithAutoLayerOrEntities(x),
                    ) && x == v,
                    LdtkLayerType::Entities => e matches LdtkProjectLoaderError::LdtkLayerError(
                        LdtkLayerAssetError::EntityLayerWithTiles(x),
                    ) && x == v,
                },
                Some(_) => e matches LdtkProjectLoaderError::LdtkLayerError(LdtkLayerAssetError::IidError(_)),
            },
        }
    }
}

/// What a good layer's contents hold.
pub open spec fn layer_entry(l: LayerFile, c: LayerContents) -> bool {
    let t = layer_type_named(l.layer_instance_type@)->0;
    let source = layer_shape(t, l.auto_layer_tiles as nat, l.grid_tiles as nat, l.entity_iids@.len())->0;
    &&& c.layer_type == t
    &&& c.iid == uuid_parse(l.iid@)->0
    &&& c.tiles == source
    &&& c.children@ == (if source == TileSource::NoTiles {
        distinct(parse_all(texts(l.entity_iids@))->Ok_0)
    } else {
        seq![]
    })
    &&& c.tileset_rel_path == l.tileset_rel_path
}

// Entities.

pub open spec fn entity_good(x: EntityFile) -> bool {
    uuid_parse(x.iid@) is Some && x.world_x is Some == x.world_y is Some
}

/// The error an entity gives: its iid, then its world location.
pub open spec fn entity_error(x: EntityFile, e: LdtkProjectLoaderError) -> bool {
    if uuid_parse(x.iid@) is None {
        e is IidError
    } else {
        e matches LdtkProjectLoaderError::LdtkEntityError(LdtkEntityError::WorldCoordMixedOption)
    }
}

/// What a good entity's entry holds.
pub open spec fn entity_entry(x: EntityFile, e: (u128, Option<(i64, i64)>)) -> bool {
    &&& e.0 == uuid_parse(x.iid@)->0
    &&& e.1 == match (x.world_x, x.world_y) {
        (Some(a), Some(b)) => Some((a, b)),
        _ => None,
    }
}

/// Reads one world, or gives its error.
fn read_world(iid: &str, level_iids: &[String], has_world_layout: bool) -> (r: Result<(u128, Vec<u128>), LdtkProjectLoaderError>)
    ensures
        world_good((iid@, texts(level_iids@), has_world_layout)) <==> r is Ok,
        r matches Ok(e) ==> e.0 == uuid_parse(iid@)->0 && e.1@ == distinct(parse_all(texts(level_iids@))->Ok_0),
        r matches Err(e) ==> world_error((iid@, texts(level_iids@), has_world_layout), e),
{
    match parse_iid(iid) {
        Ok(_) => {},
        Err(e) => return Err(LdtkProjectLoaderError::IidError(e)),
    }
    match read_world_iids(iid, level_iids, has_world_layout) {
        Ok(w) => Ok(w),
        Err(e) => Err(LdtkProjectLoaderError::LdtkWorldError(e)),
    }
}

/// Reads the worlds, in order, stopping at the first that fails.
fn read_worlds(worlds: &[WorldFile]) -> (r: Result<Vec<(u128, Vec<u128>)>, LdtkProjectLoaderError>)
    ensures
        ({
            let ws = worlds@.map_values(|w: WorldFile| world_view(w));
            &&& (forall|i: int| 0 <= i < ws.len() ==> world_good(#[trigger] ws[i])) <==> r is Ok
            &&& r matches Ok(out) ==> out@.len() == ws.len() && forall|i: int| 0 <= i < ws.len()
                ==> (#[trigger] out@[i]).0 == uuid_parse(ws[i].0)->0 && out@[i].1@ == distinct(
                parse_all(ws[i].1)->Ok_0)
            &&& r matches Err(e) ==> exists|i: int| first_bad(ws, |w| world_good(w), i) && world_error(ws[i], e)
        }),
{
    let ghost ws = worlds@.map_values(|w: WorldFile| world_view(w));
    let mut out: Vec<(u128, Vec<u128>)> = Vec::new();
    let mut i: usize = 0;
    while i < worlds.len()
        invariant
            ws == worlds@.map_values(|w: WorldFile| world_view(w)),
            i <= ws.len(),
            out@.len() == i,
            forall|j: int| 0 <= j < i ==> world_good(#[trigger] ws[j]),
            forall|j: int| 0 <= j < i ==> (#[trigger] out@[j]).0 == uuid_parse(ws[j].0)->0 && out@[j].1@
                == distinct(parse_all(ws[j].1)->Ok_0),
        decreases ws.len() - i,
    {
        let w = &worlds[i];
        assert(ws[i as int] == world_view(*w));
        match read_world(w.iid.as_str(), w.level_iids.as_slice(), w.world_layout.is_some()) {
            Ok(e) => out.push(e),
            Err(e) => {
                assert(first_bad(ws, |w| world_good(w), i as int));
                return Err(e);
            },
        }
        i = i + 1;
    }
    Ok(out)
}

/// Reads one level, or gives its error.
fn read_level(l: &LevelFile) -> (r: Result<(u128, Vec<u128>, BackgroundSource), LdtkProjectLoaderError>)
    ensures
        level_good(level_view(*l)) <==> r is Ok,
        r matches Ok(e) ==> level_entry(level_view(*l), e),
        r matches Err(e) ==> level_error(level_view(*l), e),
{
    match parse_iid(l.iid.as_str()) {
        Ok(_) => {},
        Err(e) => return Err(LdtkProjectLoaderError::IidError(e)),
    }
    let (iid, children) = match read_level_iids(l.iid.as_str(), &l.layer_iids) {
        Ok(p) => p,
        Err(e) => return Err(LdtkProjectLoaderError::LdtkLevelError(e)),
    };
    let path = match &l.bg_rel_path {
        Some(p) => Some(p.clone()),
        None => None,
    };
    proof {
        if l.layer_iids is None {
            assert(children@ =~= seq![]);
        }
    }
    match background_source(l.has_bg_pos, path) {
        Ok(b) => Ok((iid, children, b)),
        Err(e) => Err(LdtkProjectLoaderError::LdtkLevelError(e)),
    }
}

/// Reads the levels, in order, stopping at the first that fails.
fn read_levels(levels: &[LevelFile]) -> (r: Result<Vec<(u128, Vec<u128>, BackgroundSource)>, LdtkProjectLoaderError>)
    ensures
        (forall|i: int| 0 <= i < levels@.len() ==> level_good(level_view(#[trigger] levels@[i]))) <==> r is Ok,
        r matches Ok(out) ==> out@.len() == levels@.len() && forall|i: int| 0 <= i < levels@.len()
            ==> level_entry(level_view(levels@[i]), #[trigger] out@[i]),
        r matches Err(e) ==> exists|i: int| first_bad(levels@, |l: LevelFile| level_good(level_view(l)), i)
            && level_error(level_view(levels@[i]), e),
{
    let mut out: Vec<(u128, Vec<u128>, BackgroundSource)> = Vec::new();
    let mut i: usize = 0;
    while i < levels.len()
        invariant
            i <= levels@.len(),
            out@.len() == i,
            forall|j: int| 0 <= j < i ==> level_good(level_view(#[trigger] levels@[j])),
            forall|j: int| 0 <= j < i ==> level_entry(level_view(levels@[j]), #[trigger] out@[j]),
        decreases levels@.len() - i,
    {
        match read_level(&levels[i]) {
            Ok(e) => out.push(e),
            Err(e) => {
                assert(first_bad(levels@, |l: LevelFile| level_good(level_view(l)), i as int));
                return Err(e);
            },
        }
        i = i + 1;
    }
    Ok(out)
}

/// Reads one layer, or gives its error.
fn read_layer(l: &LayerFile) -> (r: Result<LayerContents, LdtkProjectLoaderError>)
    ensures
        layer_good(*l) <==> r is Ok,
        r matches Ok(c) ==> layer_entry(*l, c),
        r matches Err(e) ==> layer_error(*l, e),
{
    match parse_iid(l.iid.as_str()) {
        Ok(_) => {},
        Err(e) => return Err(LdtkProjectLoaderError::IidError(e)),
    }
    let path = match &l.tileset_rel_path {
        Some(p) => Some(p.clone()),
        None => None,
    };
    match read_layer_contents(
        l.layer_instance_type.as_str(),
        l.iid.as_str(),
        l.auto_layer_tiles,
        l.grid_tiles,
        l.entity_iids.as_slice(),
        path,
    ) {
        Ok(c) => {
            if c.children.len() == 0 {
                assert(c.children@ =~= seq![]);
            }
            Ok(c)
        },
        Err(e) => Err(LdtkProjectLoaderError::LdtkLayerError(e)),
    }
}

/// Reads the layers from the last to the first, numbering them in that
/// order, and stops at the first that fails.
fn read_layers(layers: &[LayerFile]) -> (r: Result<Vec<(usize, LayerContents)>, LdtkProjectLoaderError>)
    ensures
        ({
            let rs = layers@.reverse();
            &&& (forall|i: int| 0 <= i < rs.len() ==> layer_good(#[trigger] rs[i])) <==> r is Ok
            &&& r matches Ok(out) ==> out@.len() == rs.len() && forall|i: int| 0 <= i < rs.len()
                ==> (#[trigger] out@[i]).0 == i && layer_entry(rs[i], out@[i].1)
            &&& r matches Err(e) ==> exists|i: int| first_bad(rs, |l: LayerFile| layer_good(l), i) && layer_error(rs[i], e)
        }),
{
    let ghost rs = layers@.reverse();
    let n = layers.len();
    let mut out: Vec<(usize, LayerContents)> = Vec::new();
    let mut k: usize = 0;
    while k < n
        invariant
            n == layers@.len(),
            rs == layers@.reverse(),
            k <= n,
            out@.len() == k,
            forall|j: int| 0 <= j < k ==> layer_good(#[trigger] rs[j]),
            forall|j: int| 0 <= j < k ==> (#[trigger] out@[j]).0 == j && layer_entry(rs[j], out@[j].1),
        decreases n - k,
    {
        assert(rs[k as int] == layers@[n - 1 - k]);
        match read_layer(&layers[n - 1 - k]) {
            Ok(c) => out.push((k, c)),
            Err(e) => {
                assert(first_bad(rs, |l: LayerFile| layer_good(l), k as int));
                return Err(e);
            },
        }
        k = k + 1;
    }
    Ok(out)
}

/// Reads one entity, or gives its error.
fn read_entity(x: &EntityFile) -> (r: Result<(u128, Option<(i64, i64)>), LdtkProjectLoaderError>)
    ensures
        entity_good(*x) <==> r is Ok,
        r matches Ok(e) ==> entity_entry(*x, e),
        r matches Err(e) ==> entity_error(*x, e),
{
    let iid = match parse_iid(x.iid.as_str()) {
        Ok(v) => v,
        Err(e) => return Err(LdtkProjectLoaderError::IidError(e)),
    };
    match world_location(x.world_x, x.world_y) {
        Ok(loc) => Ok((iid, loc)),
        Err(e) => Err(LdtkProjectLoaderError::LdtkEntityError(e)),
    }
}

/// Reads the entities, in order, stopping at the first that fails.
fn read_entities(entities: &[EntityFile]) -> (r: Result<Vec<(u128, Option<(i64, i64)>)>, LdtkProjectLoaderError>)
    ensures
        (forall|i: int| 0 <= i < entities@.len() ==> entity_good(#[trigger] entities@[i])) <==> r is Ok,
        r matches Ok(out) ==> out@.len() == entities@.len() && forall|i: int| 0 <= i < entities@.len()
            ==> entity_entry(entities@[i], #[trigger] out@[i]),
        r matches Err(e) ==> exists|i: int| first_bad(entities@, |x: EntityFile| entity_good(x), i)
            && entity_error(entities@[i], e),
{
    let mut out: Vec<(u128, Option<(i64, i64)>)> = Vec::new();
    let mut i: usize = 0;
    while i < entities.len()
        invariant
            i <= entities@.len(),
            out@.len() == i,
            forall|j: int| 0 <= j < i ==> entity_good(#[trigger] entities@[j]),
            forall|j: int| 0 <= j < i ==> entity_entry(entities@[j], #[trigger] out@[j]),
        decreases entities@.len() - i,
    {
        match read_entity(&entities[i]) {
            Ok(e) => out.push(e),
            Err(e) => {
                assert(first_bad(entities@, |x: EntityFile| entity_good(x), i as int));
                return Err(e);
            },
        }
        i = i + 1;
    }
    Ok(out)
}


/// The name of the first field the world of a project without worlds lacks.
pub open spec fn missing_world_field(f: ProjectFile) -> Seq<char> {
    if f.default_level_height is None {
        "default_level_height"@
    } else if f.default_level_width is None {
        "default_level_width"@
    } else if f.world_grid_width is None {
        "world_grid_width"@
    } else {
        "world_grid_height"@
    }
}

/// A project lists its worlds, or has every field of the world it stands for.
pub open spec fn world_fields_present(f: ProjectFile) -> bool {
    f.worlds@.len() > 0 || (f.default_level_height is Some && f.default_level_width is Some
        && f.world_grid_width is Some && f.world_grid_height is Some)
}

/// A project with external levels names each level's file.
pub open spec fn levels_sourced(f: ProjectFile) -> bool {
    f.external_levels ==> forall|i: int| 0 <= i < f.levels@.len() ==> (#[trigger] f.levels@[i]).external_rel_path is Some
}

pub open spec fn worlds_good(f: ProjectFile) -> bool {
    forall|i: int| 0 <= i < project_worlds(f).len() ==> world_good(#[trigger] project_worlds(f)[i])
}

pub open spec fn levels_good(f: ProjectFile) -> bool {
    forall|i: int| 0 <= i < f.levels@.len() ==> level_good(level_view(#[trigger] f.levels@[i]))
}

pub open spec fn layers_good(f: ProjectFile) -> bool {
    forall|i: int| 0 <= i < f.layers@.reverse().len() ==> layer_good(#[trigger] f.layers@.reverse()[i])
}

pub open spec fn entities_good(f: ProjectFile) -> bool {
    forall|i: int| 0 <= i < f.entities@.len() ==> entity_good(#[trigger] f.entities@[i])
}

/// What the tables of a project that loads hold: its iid; each world's iid
/// and level iids; each level's entry; the layers from the last, numbered in
/// that order; each entity's entry; and the tileset paths to load.
pub open spec fn project_tables(f: ProjectFile, t: ProjectTables) -> bool {
    let ws = project_worlds(f);
    let rs = f.layers@.reverse();
    &&& t.iid == uuid_parse(f.iid@)->0
    &&& t.worlds@.len() == ws.len()
    &&& forall|i: int| 0 <= i < ws.len() ==> (#[trigger] t.worlds@[i]).0 == uuid_parse(ws[i].0)->0
        && t.worlds@[i].1@ == distinct(parse_all(ws[i].1)->Ok_0)
    &&& t.levels@.len() == f.levels@.len()
    &&& forall|i: int| 0 <= i < f.levels@.len() ==> level_entry(level_view(f.levels@[i]), #[trigger] t.levels@[i])
    &&& t.layers@.len() == rs.len()
    &&& forall|i: int| 0 <= i < rs.len() ==> (#[trigger] t.layers@[i]).0 == i && layer_entry(rs[i], t.layers@[i].1)
    &&& t.entities@.len() == f.entities@.len()
    &&& forall|i: int| 0 <= i < f.entities@.len() ==> entity_entry(f.entities@[i], #[trigger] t.entities@[i])
    &&& t.json_version == f.json_version
    &&& t.layer_defs@ == distinct(f.layer_def_uids@)
    &&& keyed_by_uid(t.tileset_defs@, f.tileset_defs@)
    &&& path_set_of(t.tileset_paths@, t.tileset_defs@)
    &&& t.world_details@.len() == ws.len()
    &&& forall|i: int| 0 <= i < ws.len() ==> world_details_ok(f, i, #[trigger] t.world_details@[i])
    &&& t.level_details@.len() == f.levels@.len()
    &&& forall|i: int| 0 <= i < f.levels@.len() ==> level_details_ok(f.levels@[i], #[trigger] t.level_details@[i])
    &&& t.layer_details@.len() == rs.len()
    &&& forall|i: int| 0 <= i < rs.len() ==> layer_details_ok(rs[i], #[trigger] t.layer_details@[i])
    &&& t.entity_details@.len() == f.entities@.len()
    &&& forall|i: int| 0 <= i < f.entities@.len() ==> entity_details_ok(
        f.entities@[i],
        uuid_parse(f.iid@)->0,
        #[trigger] t.entity_details@[i],
    )
}


/// Copies of the strings.
fn clone_strings(v: &Vec<String>) -> (r: Vec<String>)
    ensures
        r@ == v@,
{
    let mut out: Vec<String> = Vec::new();
    let mut i: usize = 0;
    while i < v.len()
        invariant
            i <= v@.len(),
            out@ == v@.take(i as int),
        decreases v@.len() - i,
    {
        out.push(v[i].clone());
        i = i + 1;
        assert(out@ =~= v@.take(i as int));
    }
    assert(v@.take(v@.len() as int) =~= v@);
    out
}

/// What world `i` of a project keeps: the world the project stands for is
/// named `World` and takes the project's grid size and layout.
pub open spec fn world_details_ok(f: ProjectFile, i: int, d: WorldDetails) -> bool {
    if f.worlds@.len() == 0 {
        &&& d.identifier@ == "World"@
        &&& d.world_grid_size == (f.world_grid_width->0, f.world_grid_height->0)
        &&& Some(d.world_layout) == f.world_layout
    } else {
        &&& d.identifier == f.worlds@[i].identifier
        &&& d.world_grid_size == f.worlds@[i].world_grid_size
        &&& Some(d.world_layout) == f.worlds@[i].world_layout
    }
}

fn world_details_of(f: &ProjectFile) -> (r: Vec<WorldDetails>)
    requires
        world_fields_present(*f),
        worlds_good(*f),
    ensures
        r@.len() == project_worlds(*f).len(),
        forall|i: int| 0 <= i < r@.len() ==> world_details_ok(*f, i, #[trigger] r@[i]),
{
    let mut out: Vec<WorldDetails> = Vec::new();
    if f.worlds.len() == 0 {
        assert(world_good(project_worlds(*f)[0]));
        let layout = match f.world_layout {
            Some(l) => l,
            None => WorldLayout::Free,
        };
        let w = match f.world_grid_width {
            Some(v) => v,
            None => 0,
        };
        let h = match f.world_grid_height {
            Some(v) => v,
            None => 0,
        };
        out.push(WorldDetails { identifier: "World".to_string(), world_grid_size: (w, h), world_layout: layout });
        return out;
    }
    let mut i: usize = 0;
    while i < f.worlds.len()
        invariant
            f.worlds@.len() > 0,
            worlds_good(*f),
            i <= f.worlds@.len(),
            out@.len() == i,
            forall|j: int| 0 <= j < i ==> world_details_ok(*f, j, #[trigger] out@[j]),
        decreases f.worlds@.len() - i,
    {
        let w = &f.worlds[i];
        assert(project_worlds(*f)[i as int] == world_view(f.worlds@[i as int]));
        assert(world_good(project_worlds(*f)[i as int]));
        let layout = match w.world_layout {
            Some(l) => l,
            None => WorldLayout::Free,
        };
        out.push(WorldDetails { identifier: w.identifier.clone(), world_grid_size: w.world_grid_size, world_layout: layout });
        i = i + 1;
    }
    out
}

/// What a level keeps.
pub open spec fn level_details_ok(l: LevelFile, d: LevelDetails) -> bool {
    d.identifier == l.identifier && d.size == l.size && d.location == l.location
}

fn level_details_of(levels: &[LevelFile]) -> (r: Vec<LevelDetails>)
    ensures
        r@.len() == levels@.len(),
        forall|i: int| 0 <= i < r@.len() ==> level_details_ok(levels@[i], #[trigger] r@[i]),
{
    let mut out: Vec<LevelDetails> = Vec::new();
    let mut i: usize = 0;
    while i < levels.len()
        invariant
            i <= levels@.len(),
            out@.len() == i,
            forall|j: int| 0 <= j < i ==> level_details_ok(levels@[j], #[trigger] out@[j]),
        decreases levels@.len() - i,
    {
        let l = &levels[i];
        out.push(LevelDetails { identifier: l.identifier.clone(), size: l.size, location: l.location });
        i = i + 1;
    }
    out
}

/// What a layer keeps: its geometry, with the y of its total offset turned up.
pub open spec fn layer_details_ok(l: LayerFile, d: LayerDetails) -> bool {
    d.geometry == l.geometry && d.px_total_offset.0 == l.geometry.px_total_offset.0 && d.px_total_offset.1
        == -l.geometry.px_total_offset.1
}

/// Every layer's total y offset can be turned up.
pub open spec fn offsets_negatable(layers: Seq<LayerFile>) -> bool {
    forall|i: int| 0 <= i < layers.len() ==> (#[trigger] layers[i]).geometry.px_total_offset.1 > i64::MIN
}

fn layer_details_of(layers: &[LayerFile]) -> (r: Vec<LayerDetails>)
    requires
        offsets_negatable(layers@),
    ensures
        r@.len() == layers@.len(),
        forall|i: int| 0 <= i < r@.len() ==> layer_details_ok(layers@.reverse()[i], #[trigger] r@[i]),
{
    let n = layers.len();
    let mut out: Vec<LayerDetails> = Vec::new();
    let mut k: usize = 0;
    while k < n
        invariant
            n == layers@.len(),
            offsets_negatable(layers@),
            k <= n,
            out@.len() == k,
            forall|j: int| 0 <= j < k ==> layer_details_ok(layers@.reverse()[j], #[trigger] out@[j]),
        decreases n - k,
    {
        let g = layers[n - 1 - k].geometry;
        assert(layers@.reverse()[k as int] == layers@[n - 1 - k]);
        let offset = crate::layer_asset::px_total_offset(g.px_total_offset.0, g.px_total_offset.1);
        out.push(LayerDetails { geometry: g, px_total_offset: offset });
        k = k + 1;
    }
    out
}

/// What an entity keeps.
pub open spec fn entity_details_ok(x: EntityFile, project_iid: u128, d: EntityDetails) -> bool {
    &&& d.project_iid == project_iid
    &&& d.identifier == x.identifier
    &&& d.tags@ == x.tags@
    &&& d.grid == x.grid
    &&& d.size == x.size
    &&& d.location == x.location
    &&& d.tile == x.tile
    &&& d.def_uid == x.def_uid
}

fn entity_details_of(entities: &[EntityFile], project_iid: u128) -> (r: Vec<EntityDetails>)
    ensures
        r@.len() == entities@.len(),
        forall|i: int| 0 <= i < r@.len() ==> entity_details_ok(entities@[i], project_iid, #[trigger] r@[i]),
{
    let mut out: Vec<EntityDetails> = Vec::new();
    let mut i: usize = 0;
    while i < entities.len()
        invariant
            i <= entities@.len(),
            out@.len() == i,
            forall|j: int| 0 <= j < i ==> entity_details_ok(entities@[j], project_iid, #[trigger] out@[j]),
        decreases entities@.len() - i,
    {
        let x = &entities[i];
        out.push(EntityDetails {
            project_iid,
            identifier: x.identifier.clone(),
            tags: clone_strings(&x.tags),
            grid: x.grid,
            size: x.size,
            location: x.location,
            tile: x.tile,
            def_uid: x.def_uid,
        });
        i = i + 1;
    }
    out
}

/// The uids, each once, in order of first appearance.
fn uid_set(v: &[i64]) -> (r: Vec<i64>)
    ensures
        r@ == distinct(v@),
{
    let mut out: Vec<i64> = Vec::new();
    let mut i: usize = 0;
    while i < v.len()
        invariant
            i <= v@.len(),
            out@ == distinct(v@.take(i as int)),
        decreases v@.len() - i,
    {
        let x = v[i];
        proof {
            assert(v@.take(i + 1).drop_last() =~= v@.take(i as int));
            assert(v@.take(i + 1).last() == x);
        }
        let mut seen = false;
        let mut j: usize = 0;
        while j < out.len()
            invariant
                j <= out@.len(),
                seen <==> exists|k: int| 0 <= k < j && out@[k] == x,
            decreases out@.len() - j,
        {
            if out[j] == x {
                seen = true;
            }
            j = j + 1;
        }
        if !seen {
            out.push(x);
        }
        i = i + 1;
    }
    assert(v@.take(v@.len() as int) =~= v@);
    out
}

/// The definition the last entry with `uid` gives, if any.
pub open spec fn last_def(defs: Seq<(i64, Option<String>)>, uid: i64) -> Option<Option<String>>
    decreases defs.len(),
{
    if defs.len() == 0 {
        None
    } else if defs.last().0 == uid {
        Some(defs.last().1)
    } else {
        last_def(defs.drop_last(), uid)
    }
}

/// `table` keys `defs` by uid: each uid once, with the last definition the
/// list gives it, and every uid of the list present.
pub open spec fn keyed_by_uid(table: Seq<(i64, Option<String>)>, defs: Seq<(i64, Option<String>)>) -> bool {
    &&& crate::assets::uids_distinct(table)
    &&& forall|i: int| 0 <= i < table.len() ==> last_def(defs, (#[trigger] table[i]).0) == Some(table[i].1)
    &&& forall|u: i64| #[trigger] last_def(defs, u) is Some ==> exists|i: int| 0 <= i < table.len() && table[i].0 == u
}

fn clone_path(p: &Option<String>) -> (r: Option<String>)
    ensures
        r == *p,
{
    match p {
        Some(s) => Some(s.clone()),
        None => None,
    }
}

/// The tileset definitions keyed by uid, the last definition of a uid winning.
fn defs_by_uid(defs: &[(i64, Option<String>)]) -> (r: Vec<(i64, Option<String>)>)
    ensures
        keyed_by_uid(r@, defs@),
{
    let mut out: Vec<(i64, Option<String>)> = Vec::new();
    let mut i: usize = 0;
    while i < defs.len()
        invariant
            i <= defs@.len(),
            keyed_by_uid(out@, defs@.take(i as int)),
        decreases defs@.len() - i,
    {
        let uid = defs[i].0;
        let val = clone_path(&defs[i].1);
        let ghost p = defs@.take(i as int);
        let ghost p1 = defs@.take(i + 1);
        proof {
            assert(p1.drop_last() =~= p);
            assert(p1.last() == (uid, val));
        }
        let mut found: Option<usize> = None;
        let mut j: usize = 0;
        while j < out.len()
            invariant
                j <= out@.len(),
                match found {
                    Some(k) => k < out@.len() && out@[k as int].0 == uid,
                    None => forall|k: int| 0 <= k < j ==> out@[k].0 != uid,
                },
            decreases out@.len() - j,
        {
            if found.is_none() && out[j].0 == uid {
                found = Some(j);
            }
            j = j + 1;
        }
        let ghost before = out@;
        match found {
            Some(k) => {
                out.set(k, (uid, val));
                assert forall|a: int| 0 <= a < out@.len() implies last_def(p1, (#[trigger] out@[a]).0) == Some(out@[a].1) by {
                    if a != k {
                        assert(out@[a] == before[a]);
                        assert(before[a].0 != uid);
                    }
                }
                assert forall|u: i64| #[trigger] last_def(p1, u) is Some implies exists|a: int| 0 <= a < out@.len() && out@[a].0 == u by {
                    if u != uid {
                        assert(last_def(p, u) is Some);
                        let a = choose|a: int| 0 <= a < before.len() && before[a].0 == u;
                        assert(out@[a].0 == u);
                    } else {
                        assert(out@[k as int].0 == u);
                    }
                }
            },
            None => {
                out.push((uid, val));
                assert forall|a: int| 0 <= a < out@.len() implies last_def(p1, (#[trigger] out@[a]).0) == Some(out@[a].1) by {
                    if a < before.len() {
                        assert(out@[a] == before[a]);
                    }
                }
                assert forall|u: i64| #[trigger] last_def(p1, u) is Some implies exists|a: int| 0 <= a < out@.len() && out@[a].0 == u by {
                    if u != uid {
                        assert(last_def(p, u) is Some);
                        let a = choose|a: int| 0 <= a < before.len() && before[a].0 == u;
                        assert(out@[a].0 == u);
                    } else {
                        assert(out@[before.len() as int].0 == u);
                    }
                }
            },
        }
        i = i + 1;
    }
    assert(defs@.take(defs@.len() as int) =~= defs@);
    out
}

/// Whether a tileset definition names the image path `p`.
pub open spec fn names_path(entry: (i64, Option<String>), p: Seq<char>) -> bool {
    match entry.1 {
        Some(q) => q@ == p,
        None => false,
    }
}

/// The image paths a table of tileset definitions names, each once.
pub open spec fn path_set_of(paths: Seq<String>, table: Seq<(i64, Option<String>)>) -> bool {
    &&& forall|a: int, b: int| 0 <= a < b < paths.len() ==> #[trigger] paths[a]@ != #[trigger] paths[b]@
    &&& forall|p: Seq<char>|
        #![trigger path_listed(paths, p)]
        #![trigger table_names(table, p)]
        path_listed(paths, p) <==> table_names(table, p)
}

/// Whether `p` is among the paths.
pub open spec fn path_listed(paths: Seq<String>, p: Seq<char>) -> bool {
    exists|a: int| 0 <= a < paths.len() && #[trigger] paths[a]@ == p
}

/// Whether some definition of the table names `p`.
pub open spec fn table_names(table: Seq<(i64, Option<String>)>, p: Seq<char>) -> bool {
    exists|i: int| 0 <= i < table.len() && names_path(#[trigger] table[i], p)
}

fn path_set(table: &[(i64, Option<String>)]) -> (r: Vec<String>)
    ensures
        path_set_of(r@, table@),
{
    let mut out: Vec<String> = Vec::new();
    let mut i: usize = 0;
    while i < table.len()
        invariant
            i <= table@.len(),
            path_set_of(out@, table@.take(i as int)),
        decreases table@.len() - i,
    {
        let ghost t1 = table@.take(i + 1);
        let ghost t0 = table@.take(i as int);
        proof {
            assert forall|k: int| 0 <= k < i implies t1[k] == #[trigger] t0[k] by {}
            assert(t1[i as int] == table@[i as int]);
        }
        match &table[i].1 {
            None => {
                assert forall|p: Seq<char>| path_listed(out@, p) <==> table_names(t1, p) by {
                    if exists|k: int| 0 <= k < t1.len() && names_path(#[trigger] t1[k], p) {
                        let k = choose|k: int| 0 <= k < t1.len() && names_path(#[trigger] t1[k], p);
                        assert(t0[k] == t1[k]);
                    }
                    if exists|k: int| 0 <= k < t0.len() && names_path(#[trigger] t0[k], p) {
                        let k = choose|k: int| 0 <= k < t0.len() && names_path(#[trigger] t0[k], p);
                        assert(t1[k] == t0[k]);
                    }
                }
            },
            Some(q) => {
                let mut seen = false;
                let mut j: usize = 0;
                while j < out.len()
                    invariant
                        j <= out@.len(),
                        seen <==> exists|a: int| 0 <= a < j && out@[a]@ == q@,
                    decreases out@.len() - j,
                {
                    if str_equal(out[j].as_str(), q.as_str()) {
                        seen = true;
                    }
                    j = j + 1;
                }
                let ghost before = out@;
                if !seen {
                    out.push(q.clone());
                    assert forall|a: int, b: int| 0 <= a < b < out@.len() implies #[trigger] out@[a]@ != #[trigger] out@[b]@ by {
                        if b == before.len() {
                            assert(out@[a] == before[a]);
                        } else {
                            assert(out@[a] == before[a] && out@[b] == before[b]);
                        }
                    }
                }
                assert forall|p: Seq<char>| path_listed(out@, p) <==> table_names(t1, p) by {
                    if exists|k: int| 0 <= k < t1.len() && names_path(#[trigger] t1[k], p) {
                        let k = choose|k: int| 0 <= k < t1.len() && names_path(#[trigger] t1[k], p);
                        if k < i {
                            assert(t0[k] == t1[k]);
                            assert(table_names(t0, p));
                            assert(path_listed(before, p));
                            let a = choose|a: int| 0 <= a < before.len() && #[trigger] before[a]@ == p;
                            assert(out@[a] == before[a]);
                        } else {
                            assert(t1[k] == table@[i as int]);
                            assert(q@ == p);
                            if !seen {
                                assert(out@[before.len() as int]@ == p);
                            } else {
                                let a = choose|a: int| 0 <= a < before.len() && before[a]@ == q@;
                                assert(out@[a]@ == p);
                            }
                        }
                    }
                    if exists|a: int| 0 <= a < out@.len() && #[trigger] out@[a]@ == p {
                        let a = choose|a: int| 0 <= a < out@.len() && #[trigger] out@[a]@ == p;
                        if a < before.len() {
                            assert(out@[a] == before[a]);
                            assert(path_listed(before, p));
                            assert(table_names(t0, p));
                            let k = choose|k: int| 0 <= k < t0.len() && names_path(#[trigger] t0[k], p);
                            assert(t1[k] == t0[k]);
                        } else {
                            assert(t1[i as int].1 == Some(*q));
                        }
                    }
                }
            },
        }
        i = i + 1;
    }
    assert(table@.take(table@.len() as int) =~= table@);
    out
}

/// The iids of the levels, copied.
fn level_iid_texts(levels: &[LevelFile]) -> (r: Vec<String>)
    ensures
        texts(r@) == levels@.map_values(|l: LevelFile| l.iid@),
{
    let mut out: Vec<String> = Vec::new();
    let mut i: usize = 0;
    while i < levels.len()
        invariant
            i <= levels@.len(),
            texts(out@) == levels@.take(i as int).map_values(|l: LevelFile| l.iid@),
        decreases levels@.len() - i,
    {
        let ghost before = out@;
        let name = levels[i].iid.clone();
        out.push(name);
        proof {
            assert(out@ == before.push(name));
            assert(levels@.take(i + 1) =~= levels@.take(i as int).push(levels@[i as int]));
            assert(texts(out@) =~= texts(before).push(name@));
        }
        i = i + 1;
        assert(texts(out@) =~= levels@.take(i as int).map_values(|l: LevelFile| l.iid@));
    }
    assert(levels@.take(levels@.len() as int) =~= levels@);
    out
}

/// Loads the tables of a parsed project file, in the loader's order: the
/// project iid; the fields of the world a project without worlds stands for;
/// the level files of a project with external levels; then every world,
/// level, layer (from the last) and entity, each stopping at the first that
/// fails; and last the tileset image paths.
pub fn read_project(file: &ProjectFile) -> (r: Result<ProjectTables, LdtkProjectLoaderError>)
    requires
        offsets_negatable(file.layers@),
    ensures
        uuid_parse(file.iid@) is None ==> r matches Err(LdtkProjectLoaderError::IidError(_)),
        uuid_parse(file.iid@) is Some && !world_fields_present(*file) ==> (r matches Err(
            LdtkProjectLoaderError::FieldIsNone(s),
        ) && s@ == missing_world_field(*file)),
        uuid_parse(file.iid@) is Some && world_fields_present(*file) && !levels_sourced(*file) ==> (r matches Err(
            LdtkProjectLoaderError::FieldIsNone(s),
        ) && s@ == "external_rel_path"@),
        uuid_parse(file.iid@) is Some && world_fields_present(*file) && levels_sourced(*file) ==> ({
            let ws = project_worlds(*file);
            let rs = file.layers@.reverse();
            if !worlds_good(*file) {
                r matches Err(e) && exists|i: int| first_bad(ws, |w| world_good(w), i) && world_error(ws[i], e)
            } else if !levels_good(*file) {
                r matches Err(e) && exists|i: int| first_bad(file.levels@, |l: LevelFile| level_good(level_view(l)), i)
                    && level_error(level_view(file.levels@[i]), e)
            } else if !layers_good(*file) {
                r matches Err(e) && exists|i: int| first_bad(rs, |l: LayerFile| layer_good(l), i) && layer_error(rs[i], e)
            } else if !entities_good(*file) {
                r matches Err(e) && exists|i: int| first_bad(file.entities@, |x: EntityFile| entity_good(x), i)
                    && entity_error(file.entities@[i], e)
            } else {
                r matches Ok(t) && project_tables(*file, t)
            }
        }),
{
    let iid = match parse_iid(file.iid.as_str()) {
        Ok(v) => v,
        Err(e) => return Err(LdtkProjectLoaderError::IidError(e)),
    };
    if file.worlds.len() == 0 {
        match implied_world(
            file.default_level_height,
            file.default_level_width,
            file.world_grid_width,
            file.world_grid_height,
        ) {
            Ok(_) => {},
            Err(e) => return Err(e),
        }
    }
    let mut i: usize = 0;
    while i < file.levels.len()
        invariant
            i <= file.levels@.len(),
            uuid_parse(file.iid@) == Some(iid),
            world_fields_present(*file),
            file.external_levels ==> forall|j: int| 0 <= j < i ==> (#[trigger] file.levels@[j]).external_rel_path is Some,
        decreases file.levels@.len() - i,
    {
        let path = match &file.levels[i].external_rel_path {
            Some(p) => Some(p.clone()),
            None => None,
        };
        match level_source(file.external_levels, path) {
            Ok(_) => {},
            Err(e) => return Err(e),
        }
        i = i + 1;
    }
    let worlds = if file.worlds.len() == 0 {
        let level_iids = level_iid_texts(file.levels.as_slice());
        match read_world(file.iid.as_str(), level_iids.as_slice(), file.world_layout.is_some()) {
            Ok(w) => {
                let mut v: Vec<(u128, Vec<u128>)> = Vec::new();
                v.push(w);
                v
            },
            Err(e) => {
                assert(first_bad(project_worlds(*file), |w| world_good(w), 0));
                return Err(e);
            },
        }
    } else {
        match read_worlds(file.worlds.as_slice()) {
            Ok(v) => v,
            Err(e) => return Err(e),
        }
    };
    let levels = match read_levels(file.levels.as_slice()) {
        Ok(v) => v,
        Err(e) => return Err(e),
    };
    let layers = match read_layers(file.layers.as_slice()) {
        Ok(v) => v,
        Err(e) => return Err(e),
    };
    let entities = match read_entities(file.entities.as_slice()) {
        Ok(v) => v,
        Err(e) => return Err(e),
    };
    let world_details = world_details_of(file);
    let level_details = level_details_of(file.levels.as_slice());
    let layer_details = layer_details_of(file.layers.as_slice());
    let entity_details = entity_details_of(file.entities.as_slice(), iid);
    let tileset_defs = defs_by_uid(file.tileset_defs.as_slice());
    let paths = path_set(tileset_defs.as_slice());
    Ok(ProjectTables {
        iid,
        worlds,
        levels,
        layers,
        entities,
        tileset_paths: paths,
        world_details,
        level_details,
        layer_details,
        entity_details,
        json_version: file.json_version.clone(),
        layer_defs: uid_set(file.layer_def_uids.as_slice()),
        tileset_defs,
    })
}

} // verus!
