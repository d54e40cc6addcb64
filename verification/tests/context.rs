use bevy_tiled_coords::context::{refresh_tiled_coords_context, TiledCoordsContext};

#[test]
fn refresh_takes_the_single_map() {
    let mut context: TiledCoordsContext<u64, &str> = TiledCoordsContext::new();
    refresh_tiled_coords_context(&mut context, vec![(7, "map.tmx")], vec![11, 12]);
    assert_eq!(context.map_entity, Some(7));
    assert_eq!(context.map_handle, Some("map.tmx"));
    assert_eq!(context.gameplay_tilemap_entity, Some(11));
}

#[test]
fn refresh_keeps_map_when_not_exactly_one() {
    let mut context: TiledCoordsContext<u64, &str> = TiledCoordsContext::new();
    refresh_tiled_coords_context(&mut context, vec![(7, "a.tmx")], vec![3]);
    refresh_tiled_coords_context(&mut context, vec![(8, "b.tmx"), (9, "c.tmx")], vec![]);
    assert_eq!(context.map_entity, Some(7));
    assert_eq!(context.map_handle, Some("a.tmx"));
    assert_eq!(context.gameplay_tilemap_entity, None);
    refresh_tiled_coords_context(&mut context, vec![], vec![4]);
    assert_eq!(context.map_entity, Some(7));
    assert_eq!(context.gameplay_tilemap_entity, Some(4));
}

#[test]
fn refresh_on_empty_scene_from_new() {
    let mut context: TiledCoordsContext<u64, &str> = TiledCoordsContext::new();
    refresh_tiled_coords_context(&mut context, vec![], vec![]);
    assert_eq!(context.map_entity, None);
    assert_eq!(context.map_handle, None);
    assert_eq!(context.gameplay_tilemap_entity, None);
}
