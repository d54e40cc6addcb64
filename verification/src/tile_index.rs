//! Tiled layer cell indices to tile positions.

use vstd::prelude::*;

verus! {

/// Size of a tilemap in tiles.
#[derive(Clone, Copy, Debug, PartialEq, Eq, Structural)]
pub struct TilemapSize {
    pub x: u32,
    pub y: u32,
}

/// A tile position in the tilemap grid. `y` grows in the tilemap's direction, which
/// is the reverse of Tiled's layer rows.
#[derive(Clone, Copy, Debug, PartialEq, Eq, Structural)]
pub struct TilePos {
    pub x: u32,
    pub y: u32,
}

/// `true` when a position lies inside a map of the given size.
pub open spec fn spec_within_map_bounds(pos: TilePos, map_size: TilemapSize) -> bool {
    pos.x < map_size.x && pos.y < map_size.y
}

/// The tile position for a signed pair of indices, when both lie inside the map.
pub open spec fn spec_from_i32_pair(x: int, y: int, map_size: TilemapSize) -> Option<TilePos> {
    if 0 <= x < map_size.x && 0 <= y < map_size.y {
        Some(TilePos { x: x as u32, y: y as u32 })
    } else {
        None
    }
}

/// The value that Rust's `as i32` gives for a `u32`: the same bits read as two's complement.
pub open spec fn spec_u32_as_i32(v: u32) -> int {
    if v <= i32::MAX {
        v as int
    } else {
        v - 0x1_0000_0000
    }
}

/// The tilemap row that holds Tiled layer row `tiled_y` (before the bounds check).
pub open spec fn spec_flipped_row(tiled_y: int, map_size: TilemapSize) -> int {
    spec_u32_as_i32(map_size.y) - 1 - tiled_y
}

/// Each step of the flip, `(map_size.y as i32 - 1) - tiled_y`, stays inside `i32`: the
/// inputs on which the flip does not overflow.
pub open spec fn flip_fits_i32(tiled_y: int, map_size: TilemapSize) -> bool {
    &&& i32::MIN <= spec_u32_as_i32(map_size.y) - 1
    &&& i32::MIN <= spec_flipped_row(tiled_y, map_size) <= i32::MAX
}

/// The tile position for a Tiled layer cell: the column stays, the row is flipped.
pub open spec fn spec_tiled_layer_to_bevy_tile(
    tiled_x: int,
    tiled_y: int,
    map_size: TilemapSize,
) -> Option<TilePos> {
    spec_from_i32_pair(tiled_x, spec_flipped_row(tiled_y, map_size), map_size)
}

impl TilePos {
    /// A tile position from its two indices.
    pub fn new(x: u32, y: u32) -> (pos: TilePos)
        ensures
            pos == (TilePos { x, y }),
    {
        TilePos { x, y }
    }

    /// Checks whether this position lies within a tilemap of the given size.
    pub fn within_map_bounds(&self, map_size: &TilemapSize) -> (inside: bool)
        ensures
            inside == spec_within_map_bounds(*self, *map_size),
    {
        self.x < map_size.x && self.y < map_size.y
    }

    /// The tile position for a signed pair of indices, or `None` when either index is
    /// negative or lies outside the map.
    pub fn from_i32_pair(x: i32, y: i32, map_size: &TilemapSize) -> (pos: Option<TilePos>)
        ensures
            pos == spec_from_i32_pair(x as int, y as int, *map_size),
    {
        if x < 0 || y < 0 {
            None
        } else {
            let tile_pos = TilePos { x: x as u32, y: y as u32 };
            if tile_pos.within_map_bounds(map_size) {
                Some(tile_pos)
            } else {
                None
            }
        }
    }
}

/// `v as i32`, with what it gives stated.
fn u32_as_i32(v: u32) -> (r: i32)
    ensures
        r == spec_u32_as_i32(v),
{
    let r = v as i32;
    assert(v <= 0x7fff_ffff ==> r == v) by (bit_vector)
        requires
            r == v as i32,
    ;
    assert(v > 0x7fff_ffff ==> r == v - 0x1_0000_0000) by (bit_vector)
        requires
            r == v as i32,
    ;
    r
}

/// Converts a Tiled layer cell index to a tile position.
///
/// `tiled_x` and `tiled_y` are the indices stored in the layer data. The row is flipped:
/// the tilemap row is `map_size.y - 1 - tiled_y`. The result is `None` when the cell lies
/// outside the map.
pub fn tiled_layer_to_bevy_tile(tiled_x: i32, tiled_y: i32, map_size: &TilemapSize) -> (tile:
    Option<TilePos>)
    requires
        flip_fits_i32(tiled_y as int, *map_size),
    ensures
        tile == spec_tiled_layer_to_bevy_tile(tiled_x as int, tiled_y as int, *map_size),
{
    let bevy_y = u32_as_i32(map_size.y) - 1 - tiled_y;
    TilePos::from_i32_pair(tiled_x, bevy_y, map_size)
}

/// A Tiled layer cell has a tile position exactly when it lies inside the map: its column
/// is in `0..map_size.x` and its row in `0..map_size.y`. The column is kept and the row
/// becomes `map_size.y - 1 - tiled_y`. This holds on maps whose height fits in `i32`.
pub proof fn lemma_layer_to_tile_accepts_exactly_map_cells(
    tiled_x: int,
    tiled_y: int,
    map_size: TilemapSize,
)
    requires
        map_size.y <= i32::MAX,
    ensures
        spec_tiled_layer_to_bevy_tile(tiled_x, tiled_y, map_size) is Some <==> (0 <= tiled_x
            < map_size.x && 0 <= tiled_y < map_size.y),
        spec_tiled_layer_to_bevy_tile(tiled_x, tiled_y, map_size) matches Some(tile) ==> tile.x
            == tiled_x && tile.y == map_size.y - 1 - tiled_y,
{
}

/// The row flip undoes itself: the tile position found for a Tiled cell, read back as a
/// Tiled cell, gives the tile position with the original indices. This holds on maps
/// whose height fits in `i32`.
pub proof fn lemma_layer_to_tile_flip_is_involution(
    tiled_x: int,
    tiled_y: int,
    map_size: TilemapSize,
)
    requires
        map_size.y <= i32::MAX,
        spec_tiled_layer_to_bevy_tile(tiled_x, tiled_y, map_size) is Some,
    ensures
        ({
            let tile = spec_tiled_layer_to_bevy_tile(tiled_x, tiled_y, map_size)->0;
            &&& flip_fits_i32(tile.y as int, map_size)
            &&& spec_tiled_layer_to_bevy_tile(tile.x as int, tile.y as int, map_size) == Some(
                TilePos { x: tiled_x as u32, y: tiled_y as u32 },
            )
        }),
{
}

/// Two different Tiled cells inside a map never land on the same tile position.
pub proof fn lemma_layer_to_tile_is_injective(
    x1: int,
    y1: int,
    x2: int,
    y2: int,
    map_size: TilemapSize,
)
    requires
        spec_tiled_layer_to_bevy_tile(x1, y1, map_size) is Some,
        spec_tiled_layer_to_bevy_tile(x1, y1, map_size) == spec_tiled_layer_to_bevy_tile(
            x2,
            y2,
            map_size,
        ),
    ensures
        x1 == x2 && y1 == y2,
{
}

} // verus!
