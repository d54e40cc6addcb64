# bevy_tiled_coords

Coordinate helpers for Tiled maps drawn with Bevy tilemaps.

- `src/` is the verified library (Verus): the Tiled-layer to tile-position row flip with
  its bounds check, the object-grid cell size per map kind, the depth-first search for a
  layer inside nested groups (with the offsets met on the way), and the refresh rule of the
  cached map context. Each public function states its result in its contract; the laws of
  the flip and of the layer search are proof functions beside them.
- `app/` is the Bevy side: the public API in Bevy and Tiled types, the `f32` arithmetic
  (world positions, y-sort depth, offset sums), the ECS plugins and systems. It converts
  Bevy and Tiled values to the library's plain values and calls the library.
- `tests/` runs the library on concrete values.
