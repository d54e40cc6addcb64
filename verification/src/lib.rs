//! Coordinate rules for Tiled maps drawn as Bevy tilemaps.
//!
//! The library links three spaces: Tiled layer and object-grid cells, logical tile
//! positions on a tilemap, and world positions. This crate holds the integer and
//! structural rules of those links, each with a contract: the Y flip from Tiled layer
//! indices to tile positions with its bounds check, the object-grid cell size per map
//! kind, the search for a layer inside nested groups with the offsets along the way, and
//! the refresh rule of the cached map context.

pub mod context;
pub mod layer;
pub mod object_grid;
pub mod tile_index;

pub use context::{refresh_tiled_coords_context, TiledCoordsContext};
pub use layer::{find_layer_path, layer_offsets_to, offsets_along_path, LayerNode};
pub use object_grid::{object_grid_cell_size, ObjectGridCell, TilemapKind};
pub use tile_index::{tiled_layer_to_bevy_tile, TilePos, TilemapSize};
