use vstd::prelude::*;

verus! {

/// The instance identifier of an LDtk item, carried by its entity.
#[derive(Clone, Copy, Debug, PartialEq, Eq, Structural)]
pub struct ShieldtankIid(pub u128);

impl ShieldtankIid {
    /// The 128-bit value of the iid.
    pub open spec fn value(&self) -> u128 {
        self.0
    }

    /// The component for this iid.
    pub fn new(iid: u128) -> (r: Self)
        ensures
            r.value() == iid,
    {
        ShieldtankIid(iid)
    }

    /// The 128-bit value of the iid.
    pub fn get(&self) -> (r: u128)
        ensures
            r == self.value(),
    {
        self.0
    }
}

impl From<u128> for ShieldtankIid {
    /// The component for this iid.
    fn from(iid: u128) -> (r: Self) {
        ShieldtankIid(iid)
    }
}

impl vstd::std_specs::convert::FromSpecImpl<u128> for ShieldtankIid {
    open spec fn obeys_from_spec() -> bool {
        true
    }

    open spec fn from_spec(v: u128) -> ShieldtankIid {
        ShieldtankIid(v)
    }
}

impl PartialEq<u128> for ShieldtankIid {
    /// Whether this is the iid with the given 128-bit value.
    fn eq(&self, other: &u128) -> (r: bool) {
        self.0 == *other
    }
}

impl vstd::std_specs::cmp::PartialEqSpecImpl<u128> for ShieldtankIid {
    open spec fn obeys_eq_spec() -> bool {
        true
    }

    open spec fn eq_spec(&self, other: &u128) -> bool {
        self.0 == *other
    }
}

/// Comparing an iid component with a 128-bit value compares the iid.
pub fn iid_is(component: &ShieldtankIid, value: u128) -> (r: bool)
    ensures
        r == (component.value() == value),
{
    *component == value
}

/// Marks an entity whose transform the library sets.
#[derive(Clone, Copy, Debug, Default)]
pub struct TransformAutomation;

/// Marks a level whose background the library draws.
#[derive(Clone, Copy, Debug, Default)]
pub struct LevelBackgroundAutomation;

/// Marks a layer whose int grid the library reads.
#[derive(Clone, Copy, Debug, Default)]
pub struct IntGridAutomation;

/// Marks a layer whose tiles the library draws.
#[derive(Clone, Copy, Debug, Default)]
pub struct TilesAutomation;

/// Sets up LDtk entities.
#[derive(Clone, Copy, Debug, Default)]
pub struct ShieldtankEntityPlugin;

/// Registers entity definitions.
pub struct EntityDefinitionPlugin;

/// Registers field instances.
pub struct FieldInstancesPlugin;

/// Registers world bounds.
pub struct GlobalBoundsPlugin;

/// Keeps the iid registry.
pub struct IidPlugin;

/// Sets up LDtk layers.
pub struct ShieldtankLayerPlugin;

/// Registers layer definitions.
pub struct LayerDefinitionPlugin;

/// Sets up LDtk levels.
pub struct ShieldtankLevelPlugin;

/// Sets up the finalize and spawn systems of all items.
pub struct ComponentPlugin;

/// Sets up LDtk projects.
pub struct LdtkProjectPlugin;

/// Registers the parent and child relations of items.
pub struct RelationsPlugin;

/// Spawns the children of items.
pub struct SpawnChildrenPlugin;

/// Registers tileset definitions.
pub struct TilesetDefinitionPlugin;

/// Sets up LDtk worlds.
pub struct ShieldtankWorldPlugin;

} // verus!
