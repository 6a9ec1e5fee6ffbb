use vstd::prelude::*;

use crate::assets::{def_path, image_at, resolve_entity_tile, LdtkEntityError, TilesetTables};

verus! {

/// The region of a tileset an entity is drawn with, in pixels, and the uid of
/// the tileset definition.
#[derive(Clone, Copy, Debug, PartialEq, Eq)]
pub struct TileRect {
    pub location: (i64, i64),
    pub size: (i64, i64),
    pub tileset_uid: i64,
}

/// What the tile system reads of an entity asset.
#[derive(Clone, Copy, Debug, PartialEq, Eq)]
pub struct EntityTileAsset {
    pub project_iid: u128,
    pub tile: Option<TileRect>,
}

/// What the tile system does to an ECS entity.
#[derive(Clone, Copy, Debug, PartialEq, Eq)]
pub enum TileAction {
    /// The tile and the handle of its tileset image (by asset key) are inserted.
    Insert { entity: u64, tile: TileRect, image: u64 },
    /// The entity's sprite (its own when `existing`, else a new default one)
    /// gets the tile's size as its custom size and the rectangle with corners
    /// `rect_min` and `rect_max` as its region of the image.
    SetSprite { entity: u64, custom_size: (i64, i64), rect_min: (i128, i128), rect_max: (i128, i128), existing: bool },
    /// The tile and the sprite are removed.
    Remove { entity: u64 },
}

/// The value of the first entry for `key`, if any.
pub open spec fn asset_at(assets: Seq<(u64, EntityTileAsset)>, key: u64) -> Option<EntityTileAsset>
    decreases assets.len(),
{
    if assets.len() == 0 {
        None
    } else if assets[0].0 == key {
        Some(assets[0].1)
    } else {
        asset_at(assets.drop_first(), key)
    }
}

/// The tileset tables of the first project with this iid, if any.
pub open spec fn project_at(projects: Seq<(u128, TilesetTables)>, iid: u128) -> Option<TilesetTables>
    decreases projects.len(),
{
    if projects.len() == 0 {
        None
    } else if projects[0].0 == iid {
        Some(projects[0].1)
    } else {
        project_at(projects.drop_first(), iid)
    }
}

/// Whether the entity can carry a sprite, and whether it has one, if it can.
pub open spec fn sprite_at(sprites: Seq<(u64, bool)>, entity: u64) -> Option<bool>
    decreases sprites.len(),
{
    if sprites.len() == 0 {
        None
    } else if sprites[0].0 == entity {
        Some(sprites[0].1)
    } else {
        sprite_at(sprites.drop_first(), entity)
    }
}

pub open spec fn min_int(a: int, b: int) -> int {
    if a <= b { a } else { b }
}

pub open spec fn max_int(a: int, b: int) -> int {
    if a <= b { b } else { a }
}

/// The sprite settings for a tile: its size, and the rectangle from its
/// location over its size, as the corners it has in either order.
pub open spec fn sprite_for_tile(entity: u64, t: TileRect, existing: bool) -> TileAction {
    let far = (t.location.0 + t.size.0, t.location.1 + t.size.1);
    TileAction::SetSprite {
        entity,
        custom_size: t.size,
        rect_min: (min_int(t.location.0 as int, far.0) as i128, min_int(t.location.1 as int, far.1) as i128),
        rect_max: (max_int(t.location.0 as int, far.0) as i128, max_int(t.location.1 as int, far.1) as i128),
        existing,
    }
}

/// What one modification event (entity, asset key) does, and whether it
/// fails: an asset that is not loaded fails; one without a tile has its tile
/// and sprite removed; otherwise its project, tileset definition, image path
/// and image must be found, the tile and image are inserted, and the entity
/// must be able to carry a sprite, which is then set.
pub open spec fn tile_event(
    ev: (u64, u64),
    assets: Seq<(u64, EntityTileAsset)>,
    projects: Seq<(u128, TilesetTables)>,
    sprites: Seq<(u64, bool)>,
) -> (Seq<TileAction>, bool) {
    match asset_at(assets, ev.1) {
        None => (seq![], true),
        Some(a) => match a.tile {
            None => (seq![TileAction::Remove { entity: ev.0 }], false),
            Some(t) => match project_at(projects, a.project_iid) {
                None => (seq![], true),
                Some(p) => match def_path(p.defs(), t.tileset_uid) {
                    Some(Some(path)) => match image_at(p.images(), path@) {
                        Some(image) => {
                            let insert = TileAction::Insert { entity: ev.0, tile: t, image };
                            match sprite_at(sprites, ev.0) {
                                None => (seq![insert], true),
                                Some(existing) => (seq![insert, sprite_for_tile(ev.0, t, existing)], false),
                            }
                        },
                        None => (seq![], true),
                    },
                    _ => (seq![], true),
                },
            },
        },
    }
}

/// The error a failing event gives, by the first check it fails.
pub open spec fn tile_event_error(
    ev: (u64, u64),
    assets: Seq<(u64, EntityTileAsset)>,
    projects: Seq<(u128, TilesetTables)>,
    e: LdtkEntityError,
) -> bool {
    match asset_at(assets, ev.1) {
        None => e == LdtkEntityError::BadHandle(ev.1),
        Some(a) => match a.tile {
            None => false,
            Some(t) => match project_at(projects, a.project_iid) {
                None => e == LdtkEntityError::BadProjectIid(a.project_iid),
                Some(p) => match def_path(p.defs(), t.tileset_uid) {
                    None => e == LdtkEntityError::BadTilesetDefUid(t.tileset_uid),
                    Some(None) => e == LdtkEntityError::RelPathIsNone,
                    Some(Some(path)) => match image_at(p.images(), path@) {
                        None => e matches LdtkEntityError::BadRelPath(q) && q@ == path@,
                        Some(_) => e == LdtkEntityError::QueryEntityError(ev.0),
                    },
                },
            },
        },
    }
}

/// The actions of the events in order, up to and including the first that
/// fails, and that event's position.
pub open spec fn tile_events(
    events: Seq<(u64, u64)>,
    assets: Seq<(u64, EntityTileAsset)>,
    projects: Seq<(u128, TilesetTables)>,
    sprites: Seq<(u64, bool)>,
) -> (Seq<TileAction>, Option<int>)
    decreases events.len(),
{
    if events.len() == 0 {
        (seq![], None)
    } else {
        let first = tile_event(events[0], assets, projects, sprites);
        if first.1 {
            (first.0, Some(0))
        } else {
            let rest = tile_events(events.drop_first(), assets, projects, sprites);
            (first.0 + rest.0, match rest.1 {
                Some(k) => Some(k + 1),
                None => None,
            })
        }
    }
}

/// What the tile system did, up to the first error.
#[derive(Debug)]
pub struct TileOutcome {
    pub actions: Vec<TileAction>,
    pub error: Option<LdtkEntityError>,
}

fn find_asset(assets: &[(u64, EntityTileAsset)], key: u64) -> (r: Option<EntityTileAsset>)
    ensures
        r == asset_at(assets@, key),
{
    let mut i: usize = 0;
    assert(assets@.skip(0) =~= assets@);
    while i < assets.len()
        invariant
            i <= assets@.len(),
            asset_at(assets@, key) == asset_at(assets@.skip(i as int), key),
        decreases assets@.len() - i,
    {
        proof {
            assert(assets@.skip(i as int).drop_first() =~= assets@.skip(i + 1));
        }
        if assets[i].0 == key {
            return Some(assets[i].1);
        }
        i = i + 1;
    }
    None
}

fn find_project(projects: &[(u128, TilesetTables)], iid: u128) -> (r: Option<&TilesetTables>)
    ensures
        match project_at(projects@, iid) {
            Some(t) => r == Some(&t),
            None => r is None,
        },
{
    let mut i: usize = 0;
    assert(projects@.skip(0) =~= projects@);
    while i < projects.len()
        invariant
            i <= projects@.len(),
            project_at(projects@, iid) == project_at(projects@.skip(i as int), iid),
        decreases projects@.len() - i,
    {
        proof {
            assert(projects@.skip(i as int).drop_first() =~= projects@.skip(i + 1));
        }
        if projects[i].0 == iid {
            return Some(&projects[i].1);
        }
        i = i + 1;
    }
    None
}

fn find_sprite(sprites: &[(u64, bool)], entity: u64) -> (r: Option<bool>)
    ensures
        r == sprite_at(sprites@, entity),
{
    let mut i: usize = 0;
    assert(sprites@.skip(0) =~= sprites@);
    while i < sprites.len()
        invariant
            i <= sprites@.len(),
            sprite_at(sprites@, entity) == sprite_at(sprites@.skip(i as int), entity),
        decreases sprites@.len() - i,
    {
        proof {
            assert(sprites@.skip(i as int).drop_first() =~= sprites@.skip(i + 1));
        }
        if sprites[i].0 == entity {
            return Some(sprites[i].1);
        }
        i = i + 1;
    }
    None
}

/// The sprite settings for a tile.
fn sprite_action(entity: u64, t: TileRect, existing: bool) -> (r: TileAction)
    ensures
        r == sprite_for_tile(entity, t, existing),
{
    let (lx, ly) = (t.location.0 as i128, t.location.1 as i128);
    let (fx, fy) = (lx + t.size.0 as i128, ly + t.size.1 as i128);
    TileAction::SetSprite {
        entity,
        custom_size: t.size,
        rect_min: (if lx <= fx { lx } else { fx }, if ly <= fy { ly } else { fy }),
        rect_max: (if lx <= fx { fx } else { lx }, if ly <= fy { fy } else { ly }),
        existing,
    }
}

/// Handles one modification event: its actions, or its error (after the
/// actions it already took).
fn handle_tile_event(
    ev: (u64, u64),
    assets: &[(u64, EntityTileAsset)],
    projects: &[(u128, TilesetTables)],
    sprites: &[(u64, bool)],
    actions: &mut Vec<TileAction>,
) -> (r: Option<LdtkEntityError>)
    ensures
        final(actions)@ == old(actions)@ + tile_event(ev, assets@, projects@, sprites@).0,
        r is Some <==> tile_event(ev, assets@, projects@, sprites@).1,
        r matches Some(e) ==> tile_event_error(ev, assets@, projects@, e),
{
    let (entity, handle) = ev;
    let ghost before = actions@;
    let asset = match find_asset(assets, handle) {
        None => {
            assert(before + seq![] =~= before);
            return Some(LdtkEntityError::BadHandle(handle));
        },
        Some(a) => a,
    };
    let t = match asset.tile {
        None => {
            actions.push(TileAction::Remove { entity });
            assert(actions@ =~= before + seq![TileAction::Remove { entity }]);
            return None;
        },
        Some(t) => t,
    };
    let project = find_project(projects, asset.project_iid);
    let image = match resolve_entity_tile(asset.project_iid, project, t.tileset_uid) {
        Err(e) => {
            assert(before + seq![] =~= before);
            return Some(e);
        },
        Ok(k) => k,
    };
    let insert = TileAction::Insert { entity, tile: t, image };
    actions.push(insert);
    match find_sprite(sprites, entity) {
        None => {
            assert(actions@ =~= before + seq![insert]);
            Some(LdtkEntityError::QueryEntityError(entity))
        },
        Some(existing) => {
            let s = sprite_action(entity, t, existing);
            actions.push(s);
            assert(actions@ =~= before + seq![insert, s]);
            None
        },
    }
}

/// Handles the modification events of entity assets in order, each an (ECS
/// entity, asset key) pair, given the loaded assets by key, the projects'
/// tileset tables by project iid, and the entities that can carry a sprite
/// (with whether they have one). The first event that fails ends the
/// handling: the actions it took before failing stay, and its error is the
/// outcome's.
pub fn entity_tile_system(
    events: &[(u64, u64)],
    assets: &[(u64, EntityTileAsset)],
    projects: &[(u128, TilesetTables)],
    sprites: &[(u64, bool)],
) -> (r: TileOutcome)
    ensures
        r.actions@ == tile_events(events@, assets@, projects@, sprites@).0,
        match tile_events(events@, assets@, projects@, sprites@).1 {
            Some(k) => r.error matches Some(e) && 0 <= k < events@.len() && tile_event_error(events@[k], assets@, projects@, e),
            None => r.error is None,
        },
{
    let mut actions: Vec<TileAction> = Vec::new();
    let mut i: usize = 0;
    assert(events@.skip(0) =~= events@);
    while i < events.len()
        invariant
            i <= events@.len(),
            tile_events(events@, assets@, projects@, sprites@).0 == actions@ + tile_events(
                events@.skip(i as int),
                assets@,
                projects@,
                sprites@,
            ).0,
            tile_events(events@, assets@, projects@, sprites@).1 == match tile_events(
                events@.skip(i as int),
                assets@,
                projects@,
                sprites@,
            ).1 {
                Some(k) => Some(k + i),
                None => None,
            },
        decreases events@.len() - i,
    {
        let ev = events[i];
        let ghost before = actions@;
        proof {
            assert(events@.skip(i as int).drop_first() =~= events@.skip(i + 1));
            assert(events@.skip(i as int)[0] == ev);
        }
        let failed = handle_tile_event(ev, assets, projects, sprites, &mut actions);
        match failed {
            Some(e) => {
                return TileOutcome { actions, error: Some(e) };
            },
            None => {
                proof {
                    let first = tile_event(ev, assets@, projects@, sprites@);
                    let rest = tile_events(events@.skip(i + 1), assets@, projects@, sprites@);
                    assert(before + (first.0 + rest.0) =~= actions@ + rest.0);
                }
            },
        }
        i = i + 1;
    }
    proof {
        assert(actions@ + Seq::<TileAction>::empty() =~= actions@);
    }
    TileOutcome { actions, error: None }
}

} // verus!

verus! {

proof fn lemma_tile_event_sprite_flag(
    ev: (u64, u64),
    assets: Seq<(u64, EntityTileAsset)>,
    projects: Seq<(u128, TilesetTables)>,
    sprites: Seq<(u64, bool)>,
    j: int,
)
    requires
        0 <= j < tile_event(ev, assets, projects, sprites).0.len(),
    ensures
        tile_event(ev, assets, projects, sprites).0[j] matches TileAction::SetSprite { entity, existing, .. } ==> entity
            == ev.0 && sprite_at(sprites, entity) == Some(existing),
{
}

/// Whenever the tile system sets an entity's sprite, it says it changes the
/// entity's own sprite exactly when the entity has one, and a new sprite is
/// inserted otherwise: the flag is the entity's own.
pub proof fn law_sprite_is_the_entitys_own_exactly_when_it_has_one(
    events: Seq<(u64, u64)>,
    assets: Seq<(u64, EntityTileAsset)>,
    projects: Seq<(u128, TilesetTables)>,
    sprites: Seq<(u64, bool)>,
    j: int,
)
    requires
        0 <= j < tile_events(events, assets, projects, sprites).0.len(),
    ensures
        tile_events(events, assets, projects, sprites).0[j] matches TileAction::SetSprite { entity, existing, .. }
            ==> sprite_at(sprites, entity) == Some(existing),
    decreases events.len(),
{
    if events.len() > 0 {
        let first = tile_event(events[0], assets, projects, sprites);
        if j < first.0.len() {
            lemma_tile_event_sprite_flag(events[0], assets, projects, sprites, j);
        } else {
            let rest = tile_events(events.drop_first(), assets, projects, sprites);
            assert(tile_events(events, assets, projects, sprites).0[j] == rest.0[j - first.0.len()]);
            law_sprite_is_the_entitys_own_exactly_when_it_has_one(
                events.drop_first(),
                assets,
                projects,
                sprites,
                j - first.0.len(),
            );
        }
    }
}

} // verus!

verus! {

/// The event's asset is loaded and has no tile.
pub open spec fn removal_called_for(ev: (u64, u64), assets: Seq<(u64, EntityTileAsset)>) -> bool {
    match asset_at(assets, ev.1) {
        Some(x) => x.tile is None,
        None => false,
    }
}

/// The event's asset has exactly this tile, and its project's tileset
/// definition for the tile names a path from which this image was loaded.
pub open spec fn insert_called_for(
    ev: (u64, u64),
    assets: Seq<(u64, EntityTileAsset)>,
    projects: Seq<(u128, TilesetTables)>,
    tile: TileRect,
    image: u64,
) -> bool {
    match asset_at(assets, ev.1) {
        Some(x) => x.tile == Some(tile) && match project_at(projects, x.project_iid) {
            Some(p) => match def_path(p.defs(), tile.tileset_uid) {
                Some(Some(path)) => image_at(p.images(), path@) == Some(image),
                _ => false,
            },
            None => false,
        },
        None => false,
    }
}

/// An action acts on the event's entity, as the event's asset calls for.
pub open spec fn action_called_for(
    act: TileAction,
    ev: (u64, u64),
    assets: Seq<(u64, EntityTileAsset)>,
    projects: Seq<(u128, TilesetTables)>,
) -> bool {
    match act {
        TileAction::Remove { entity } => entity == ev.0 && removal_called_for(ev, assets),
        TileAction::Insert { entity, tile, image } => entity == ev.0 && insert_called_for(ev, assets, projects, tile, image),
        TileAction::SetSprite { entity, .. } => entity == ev.0,
    }
}

proof fn lemma_tile_event_sources(
    ev: (u64, u64),
    assets: Seq<(u64, EntityTileAsset)>,
    projects: Seq<(u128, TilesetTables)>,
    sprites: Seq<(u64, bool)>,
    j: int,
)
    requires
        0 <= j < tile_event(ev, assets, projects, sprites).0.len(),
    ensures
        action_called_for(tile_event(ev, assets, projects, sprites).0[j], ev, assets, projects),
{
}

/// Every action of the tile system acts on the entity of one of the events,
/// as that event's asset calls for: a tile and sprite are removed only from
/// an entity whose asset has no tile, and a tile is inserted only with the
/// asset's own tile and the image its project's tileset definition names.
pub proof fn law_tiles_come_from_the_entitys_asset(
    events: Seq<(u64, u64)>,
    assets: Seq<(u64, EntityTileAsset)>,
    projects: Seq<(u128, TilesetTables)>,
    sprites: Seq<(u64, bool)>,
    j: int,
)
    requires
        0 <= j < tile_events(events, assets, projects, sprites).0.len(),
    ensures
        exists|i: int|
            0 <= i < events.len() && action_called_for(
                tile_events(events, assets, projects, sprites).0[j],
                #[trigger] events[i],
                assets,
                projects,
            ),
    decreases events.len(),
{
    let first = tile_event(events[0], assets, projects, sprites);
    if j < first.0.len() {
        lemma_tile_event_sources(events[0], assets, projects, sprites, j);
        assert(tile_events(events, assets, projects, sprites).0[j] == first.0[j]);
    } else {
        let rest_events = events.drop_first();
        let rest = tile_events(rest_events, assets, projects, sprites);
        assert(tile_events(events, assets, projects, sprites).0[j] == rest.0[j - first.0.len()]);
        law_tiles_come_from_the_entitys_asset(rest_events, assets, projects, sprites, j - first.0.len());
        let i = choose|i: int|
            0 <= i < rest_events.len() && action_called_for(rest.0[j - first.0.len()], #[trigger] rest_events[i], assets, projects);
        assert(events[i + 1] == rest_events[i]);
    }
}

} // verus!
