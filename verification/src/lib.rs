use vstd::prelude::*;

pub mod assets;
pub mod collections;
pub mod entity_tile;
pub mod field_instances;
pub mod filter;
pub mod grid_values;
pub mod finalize;
pub mod hierarchy;
pub mod iid;
pub mod iid_registry;
pub mod layer_asset;
pub mod layer_tiles;
pub mod level_background;
pub mod location;
pub mod pattern;
pub mod pixels;
pub mod plugins;
pub mod project;
pub mod project_hierarchy;
pub mod seqs;
pub mod tags;
pub mod text;
pub mod tile;

verus! {
}
