//! Tiled object-grid cells, before the layer Y flip to tile positions.

use vstd::prelude::*;

use crate::tile_index::{
    flip_fits_i32, spec_tiled_layer_to_bevy_tile, tiled_layer_to_bevy_tile, TilePos, TilemapSize,
};

verus! {

/// Cell on Tiled's object grid (object pixels divided by the cell size), **before**
/// [`tiled_layer_to_bevy_tile`]. Convert with [`ObjectGridCell::to_tile_pos`].
#[derive(Clone, Copy, Debug, PartialEq, Eq, Structural)]
pub struct ObjectGridCell {
    pub x: i32,
    pub y: i32,
}

/// The grid shape of a tilemap, as far as the object grid depends on it.
#[derive(Clone, Copy, Debug, PartialEq, Eq, Structural)]
pub enum TilemapKind {
    /// Orthogonal maps.
    Square,
    /// Hexagonal maps.
    Hexagon,
    /// Diamond isometric maps.
    Isometric,
}

/// Pixel width and height of one object-grid cell.
pub open spec fn spec_object_grid_cell_size(kind: TilemapKind, tile_width: u32, tile_height: u32) -> (
    u32,
    u32,
) {
    match kind {
        TilemapKind::Isometric => (tile_height, tile_height),
        _ => (tile_width, tile_height),
    }
}

/// Pixel width and height of one object-grid cell on a map of the given kind.
///
/// On diamond isometric maps Tiled places objects on a grid of square cells whose side is
/// the map `tile_height`, for both axes. On other maps a cell is one tile:
/// `tile_width` across and `tile_height` down.
pub fn object_grid_cell_size(kind: TilemapKind, tile_width: u32, tile_height: u32) -> (size: (
    u32,
    u32,
))
    ensures
        size == spec_object_grid_cell_size(kind, tile_width, tile_height),
        kind == TilemapKind::Isometric ==> size == (tile_height, tile_height),
        kind != TilemapKind::Isometric ==> size == (tile_width, tile_height),
{
    match kind {
        TilemapKind::Isometric => (tile_height, tile_height),
        _ => (tile_width, tile_height),
    }
}

/// On a diamond isometric map the object-grid cell is a square whose side is the map
/// `tile_height`; on every other map (orthogonal or hexagonal) it is one tile,
/// `tile_width` across and `tile_height` down.
pub proof fn lemma_object_grid_cell_size_per_kind(kind: TilemapKind, tile_width: u32, tile_height: u32)
    ensures
        kind == TilemapKind::Isometric ==> spec_object_grid_cell_size(kind, tile_width, tile_height)
            == (tile_height, tile_height),
        kind == TilemapKind::Square ==> spec_object_grid_cell_size(kind, tile_width, tile_height)
            == (tile_width, tile_height),
        kind == TilemapKind::Hexagon ==> spec_object_grid_cell_size(kind, tile_width, tile_height)
            == (tile_width, tile_height),
{
}

impl ObjectGridCell {
    /// Applies the Tiled to tilemap row flip and the bounds check.
    pub fn to_tile_pos(self, map_size: &TilemapSize) -> (tile: Option<TilePos>)
        requires
            flip_fits_i32(self.y as int, *map_size),
        ensures
            tile == spec_tiled_layer_to_bevy_tile(self.x as int, self.y as int, *map_size),
    {
        tiled_layer_to_bevy_tile(self.x, self.y, map_size)
    }
}

} // verus!
