use bevy_tiled_coords::layer::{find_layer_path, layer_offsets_to, offsets_along_path, LayerNode};

fn leaf(id: u32, offset: (f32, f32)) -> LayerNode<(f32, f32)> {
    LayerNode { id, offset, children: Vec::new() }
}

fn group(id: u32, offset: (f32, f32), children: Vec<LayerNode<(f32, f32)>>) -> LayerNode<(f32, f32)> {
    LayerNode { id, offset, children }
}

fn sum(offsets: &[(f32, f32)]) -> (f32, f32) {
    offsets.iter().fold((0.0, 0.0), |acc, o| (acc.0 + o.0, acc.1 + o.1))
}

#[test]
fn accumulated_offset_includes_group() {
    // A tile layer, then a group shifted 16 px down that holds object layer 2.
    let layers = vec![leaf(1, (0.0, 0.0)), group(3, (0.0, 16.0), vec![leaf(2, (0.0, 0.0))])];
    let offsets = layer_offsets_to(&layers, 2).unwrap();
    assert_eq!(sum(&offsets), (0.0, 16.0));
}

#[test]
fn layer_search_top_level() {
    let layers = vec![leaf(1, (1.0, 0.0)), leaf(2, (0.0, 2.0))];
    assert_eq!(find_layer_path(&layers, 2), Some(vec![1]));
    assert_eq!(layer_offsets_to(&layers, 2), Some(vec![(0.0, 2.0)]));
}

#[test]
fn layer_search_missing_id() {
    let layers = vec![leaf(1, (1.0, 0.0)), group(4, (0.0, 0.0), vec![leaf(5, (0.0, 0.0))])];
    assert_eq!(find_layer_path(&layers, 9), None);
    assert_eq!(layer_offsets_to(&layers, 9), None);
    let empty: Vec<LayerNode<(f32, f32)>> = Vec::new();
    assert_eq!(find_layer_path(&empty, 1), None);
}

#[test]
fn layer_search_nested_groups_accumulate() {
    let layers = vec![group(
        1,
        (4.0, 8.0),
        vec![leaf(2, (1.0, 1.0)), group(3, (2.0, -4.0), vec![leaf(7, (0.5, 0.25))])],
    )];
    assert_eq!(find_layer_path(&layers, 7), Some(vec![0, 1, 0]));
    let offsets = layer_offsets_to(&layers, 7).unwrap();
    assert_eq!(offsets, vec![(4.0, 8.0), (2.0, -4.0), (0.5, 0.25)]);
    assert_eq!(sum(&offsets), (6.5, 4.25));
    // A group can be the layer sought.
    assert_eq!(find_layer_path(&layers, 3), Some(vec![0, 1]));
}

#[test]
fn layer_search_takes_first_in_depth_first_order() {
    // Id 5 appears inside the first group and again at the top level after it:
    // the walk reaches the nested one first.
    let layers = vec![
        group(1, (0.0, 0.0), vec![leaf(2, (0.0, 0.0)), leaf(5, (1.0, 0.0))]),
        leaf(5, (2.0, 0.0)),
    ];
    assert_eq!(find_layer_path(&layers, 5), Some(vec![0, 1]));
    // A group with the id is found before a layer inside it with the same id.
    let layers = vec![group(6, (0.0, 0.0), vec![leaf(6, (3.0, 0.0))])];
    assert_eq!(find_layer_path(&layers, 6), Some(vec![0]));
}

#[test]
fn offsets_along_given_path() {
    let layers = vec![
        leaf(1, (0.0, 0.0)),
        group(2, (1.0, 2.0), vec![leaf(3, (3.0, 4.0)), leaf(4, (5.0, 6.0))]),
    ];
    assert_eq!(offsets_along_path(&layers, &vec![1, 1]), vec![(1.0, 2.0), (5.0, 6.0)]);
    assert_eq!(offsets_along_path(&layers, &vec![0]), vec![(0.0, 0.0)]);
}
