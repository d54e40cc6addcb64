//! The cached map and gameplay tilemap of a scene.

use vstd::prelude::*;

verus! {

/// The map entity, its map asset handle and the gameplay tilemap entity, as last seen in
/// the scene. `E` is the entity type and `H` the handle type.
pub struct TiledCoordsContext<E, H> {
    pub map_entity: Option<E>,
    pub map_handle: Option<H>,
    pub gameplay_tilemap_entity: Option<E>,
}

impl<E, H> TiledCoordsContext<E, H> {
    /// A context that has seen nothing yet.
    pub fn new() -> (context: Self)
        ensures
            context.map_entity is None,
            context.map_handle is None,
            context.gameplay_tilemap_entity is None,
    {
        TiledCoordsContext { map_entity: None, map_handle: None, gameplay_tilemap_entity: None }
    }
}

/// Updates the context from the scene.
///
/// `maps` holds each map entity of the scene with its map handle; `gameplay` holds the
/// tilemap entities marked as the gameplay tilemap, in query order. The map entry is taken
/// only when the scene holds exactly one map; otherwise the previous map entry stays. The
/// gameplay tilemap becomes the first of `gameplay`, or nothing when it is empty.
pub fn refresh_tiled_coords_context<E: Copy, H>(
    context: &mut TiledCoordsContext<E, H>,
    maps: Vec<(E, H)>,
    gameplay: Vec<E>,
)
    ensures
        maps@.len() == 1 ==> final(context).map_entity == Some(maps@[0].0)
            && final(context).map_handle == Some(maps@[0].1),
        maps@.len() != 1 ==> final(context).map_entity == old(context).map_entity
            && final(context).map_handle == old(context).map_handle,
        final(context).gameplay_tilemap_entity == (if gameplay@.len() > 0 {
            Some(gameplay@[0])
        } else {
            None
        }),
{
    let mut maps = maps;
    if maps.len() == 1 {
        let (entity, handle) = maps.pop().unwrap();
        context.map_entity = Some(entity);
        context.map_handle = Some(handle);
    }
    context.gameplay_tilemap_entity = if gameplay.len() > 0 {
        Some(gameplay[0])
    } else {
        None
    };
}

} // verus!
