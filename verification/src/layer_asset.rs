use vstd::prelude::*;

use crate::iid::{distinct, parse_all, parse_iid, parse_iid_set, uuid_parse};
use crate::text::str_equal;

verus! {

/// The four kinds of LDtk layer.
#[derive(Clone, Copy, Debug, PartialEq, Eq)]
pub enum LdtkLayerType {
    IntGrid,
    Entities,
    Tiles,
    Autolayer,
}

/// Why a layer instance could not be read.
#[derive(Debug)]
pub enum LdtkLayerAssetError {
    /// The layer's own iid, or an entity iid in it, is not an iid.
    IidError(uuid::Error),
    /// The layer type is none of the four that LDtk writes.
    UnknownLayerType(String),
    /// An entity layer holds tiles.
    EntityLayerWithTiles(u128),
    /// An int grid or auto layer holds entities or grid tiles.
    IntGridWithEntitiesOrGridTiles(u128),
    /// A tiles layer holds auto-layer tiles or entities.
    TilesWithAutoLayerOrEntities(u128),
    /// The layer asset of a handle is not loaded.
    BadHandle(u64),
}

/// The name LDtk writes for each layer type.
pub open spec fn ldtk_layer_type_name(t: LdtkLayerType) -> Seq<char> {
    match t {
        LdtkLayerType::IntGrid => "IntGrid"@,
        LdtkLayerType::Entities => "Entities"@,
        LdtkLayerType::Tiles => "Tiles"@,
        LdtkLayerType::Autolayer => "AutoLayer"@,
    }
}

/// The layer type whose LDtk name is `name`, if any.
pub open spec fn layer_type_named(name: Seq<char>) -> Option<LdtkLayerType> {
    if name == "IntGrid"@ {
        Some(LdtkLayerType::IntGrid)
    } else if name == "Entities"@ {
        Some(LdtkLayerType::Entities)
    } else if name == "Tiles"@ {
        Some(LdtkLayerType::Tiles)
    } else if name == "AutoLayer"@ {
        Some(LdtkLayerType::Autolayer)
    } else {
        None
    }
}

impl LdtkLayerType {
    /// Reads a layer type from the name LDtk writes for it.
    pub fn new(ldtk_type: &str) -> (r: Result<LdtkLayerType, LdtkLayerAssetError>)
        ensures
            layer_type_named(ldtk_type@) matches Some(t) ==> (r matches Ok(u) && u == t),
            layer_type_named(ldtk_type@) is None ==> (r matches Err(
                LdtkLayerAssetError::UnknownLayerType(s),
            ) && s@ == ldtk_type@),
    {
        if str_equal(ldtk_type, "IntGrid") {
            Ok(LdtkLayerType::IntGrid)
        } else if str_equal(ldtk_type, "Entities") {
            Ok(LdtkLayerType::Entities)
        } else if str_equal(ldtk_type, "Tiles") {
            Ok(LdtkLayerType::Tiles)
        } else if str_equal(ldtk_type, "AutoLayer") {
            Ok(LdtkLayerType::Autolayer)
        } else {
            Err(LdtkLayerAssetError::UnknownLayerType(ldtk_type.to_string()))
        }
    }
}

/// Reading the LDtk name of a layer type gives that type back.
pub proof fn law_layer_type_name_round_trip(t: LdtkLayerType)
    ensures
        layer_type_named(ldtk_layer_type_name(t)) == Some(t),
{
    reveal_strlit("IntGrid");
    reveal_strlit("Entities");
    reveal_strlit("Tiles");
    reveal_strlit("AutoLayer");
    assert("IntGrid"@[0] == 'I');
    assert("Entities"@[0] == 'E');
    assert("Tiles"@[0] == 'T');
    assert("AutoLayer"@[0] == 'A');
}

/// Where the tiles of a layer come from.
#[derive(Clone, Copy, Debug, PartialEq, Eq)]
pub enum TileSource {
    /// The auto-layer tiles (int grid and auto layers).
    AutoLayerTiles,
    /// The grid tiles (tiles layers).
    GridTiles,
    /// No tiles (entity layers).
    NoTiles,
}

/// What a layer instance holds, once its type and contents agree.
#[derive(Debug)]
pub struct LayerContents {
    pub layer_type: LdtkLayerType,
    pub iid: u128,
    /// The iids of the entities of an entity layer, in order; empty otherwise.
    pub children: Vec<u128>,
    pub tiles: TileSource,
    /// The tileset image to draw the layer from; a layer without one gets no image.
    pub tileset_rel_path: Option<String>,
}

/// How the contents of a layer of type `t` with the given numbers of
/// auto-layer tiles, grid tiles and entities are read, or which mismatch
/// error they give (carrying the layer iid).
pub open spec fn layer_shape(t: LdtkLayerType, auto_tiles: nat, grid_tiles: nat, entities: nat) -> Option<TileSource> {
    match t {
        LdtkLayerType::IntGrid | LdtkLayerType::Autolayer => if grid_tiles == 0 && entities == 0 {
            Some(TileSource::AutoLayerTiles)
        } else {
            None
        },
        LdtkLayerType::Tiles => if auto_tiles == 0 && entities == 0 {
            Some(TileSource::GridTiles)
        } else {
            None
        },
        LdtkLayerType::Entities => if auto_tiles == 0 && grid_tiles == 0 {
            Some(TileSource::NoTiles)
        } else {
            None
        },
    }
}

/// Reads the identity and contents of an LDtk layer instance: its type name,
/// its iid, the numbers of auto-layer and grid tiles, and the iids of its
/// entities, and the path of its tileset image. The type is read first, then
/// the iid; then a type whose contents do not fit is an error, and an entity
/// layer reads its entity iids as a set. A layer that is read gets an image
/// exactly when it names a tileset path: the path is handed on as it is.
pub fn read_layer_contents(
    layer_instance_type: &str,
    iid: &str,
    auto_layer_tiles: usize,
    grid_tiles: usize,
    entity_iids: &[String],
    tileset_rel_path: Option<String>,
) -> (r: Result<LayerContents, LdtkLayerAssetError>)
    ensures
        layer_type_named(layer_instance_type@) is None ==> (r matches Err(
            LdtkLayerAssetError::UnknownLayerType(s),
        ) && s@ == layer_instance_type@),
        layer_type_named(layer_instance_type@) is Some && uuid_parse(iid@) is None ==> r matches Err(
            LdtkLayerAssetError::IidError(_),
        ),
        layer_type_named(layer_instance_type@) is Some && uuid_parse(iid@) is Some ==> ({
            let t = layer_type_named(layer_instance_type@)->0;
            let v = uuid_parse(iid@)->0;
            match layer_shape(t, auto_layer_tiles as nat, grid_tiles as nat, entity_iids@.len()) {
            None => match t {
                LdtkLayerType::IntGrid | LdtkLayerType::Autolayer => r matches Err(
                    LdtkLayerAssetError::IntGridWithEntitiesOrGridTiles(x),
                ) && x == v,
                LdtkLayerType::Tiles => r matches Err(
                    LdtkLayerAssetError::TilesWithAutoLayerOrEntities(x),
                ) && x == v,
                LdtkLayerType::Entities => r matches Err(LdtkLayerAssetError::EntityLayerWithTiles(x))
                    && x == v,
            },
            Some(source) => if source == TileSource::NoTiles {
                match parse_all(entity_iids@.map_values(|s: String| s@)) {
                    Ok(children) => r matches Ok(c) && c.layer_type == t && c.iid == v && c.tiles
                        == source && c.children@ == distinct(children) && c.tileset_rel_path == tileset_rel_path,
                    Err(_) => r matches Err(LdtkLayerAssetError::IidError(_)),
                }
            } else {
                r matches Ok(c) && c.layer_type == t && c.iid == v && c.tiles == source
                    && c.children@.len() == 0 && c.tileset_rel_path == tileset_rel_path
            },
        }}),
{
    let layer_type = match LdtkLayerType::new(layer_instance_type) {
        Ok(t) => t,
        Err(e) => {
            assert(layer_type_named(layer_instance_type@) is None);
            return Err(e);
        },
    };
    let iid = match parse_iid(iid) {
        Ok(v) => v,
        Err(e) => return Err(LdtkLayerAssetError::IidError(e)),
    };
    let n_entities = entity_iids.len();
    match layer_type {
        LdtkLayerType::IntGrid | LdtkLayerType::Autolayer => {
            if grid_tiles == 0 && n_entities == 0 {
                Ok(LayerContents { layer_type, iid, children: Vec::new(), tiles: TileSource::AutoLayerTiles, tileset_rel_path })
            } else {
                Err(LdtkLayerAssetError::IntGridWithEntitiesOrGridTiles(iid))
            }
        },
        LdtkLayerType::Tiles => {
            if auto_layer_tiles == 0 && n_entities == 0 {
                Ok(LayerContents { layer_type, iid, children: Vec::new(), tiles: TileSource::GridTiles, tileset_rel_path })
            } else {
                Err(LdtkLayerAssetError::TilesWithAutoLayerOrEntities(iid))
            }
        },
        LdtkLayerType::Entities => {
            if auto_layer_tiles == 0 && grid_tiles == 0 {
                match parse_iid_set(entity_iids) {
                    Ok(children) => Ok(LayerContents { layer_type, iid, children, tiles: TileSource::NoTiles, tileset_rel_path }),
                    Err(e) => Err(LdtkLayerAssetError::IidError(e)),
                }
            } else {
                Err(LdtkLayerAssetError::EntityLayerWithTiles(iid))
            }
        },
    }
}

/// The total pixel offset of a layer, with the y axis pointing up.
pub fn px_total_offset(x: i64, y: i64) -> (r: (i64, i64))
    requires
        y > i64::MIN,
    ensures
        r.0 == x,
        r.1 == -y,
{
    (x, -y)
}

} // verus!
