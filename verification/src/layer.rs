//! Finding a layer inside nested layer groups.

use vstd::prelude::*;

verus! {

/// One layer of a map, as the layer search reads it: its id, the value it adds to the
/// accumulated offset (its own `offset_x` / `offset_y`), and, for a group layer, the
/// layers inside it in file order. A layer that is not a group has no children.
pub struct LayerNode<T> {
    pub id: u32,
    pub offset: T,
    pub children: Vec<LayerNode<T>>,
}

/// The layer that `path` leads to: `path[0]` indexes `layers`, each further entry indexes
/// the children of the layer reached so far. `None` when the path is empty or an index is
/// out of range.
pub open spec fn spec_layer_at<T>(layers: Seq<LayerNode<T>>, path: Seq<usize>) -> Option<
    LayerNode<T>,
>
    decreases path.len(),
{
    if path.len() == 0 || path[0] >= layers.len() {
        None
    } else if path.len() == 1 {
        Some(layers[path[0] as int])
    } else {
        spec_layer_at(layers[path[0] as int].children@, path.drop_first())
    }
}

/// `path` leads to a layer whose id is `layer_id`.
pub open spec fn addresses_layer<T>(layers: Seq<LayerNode<T>>, path: Seq<usize>, layer_id: u32) -> bool {
    spec_layer_at(layers, path) matches Some(node) && node.id == layer_id
}

/// `p` comes before `q` in a depth-first walk that visits a layer before the layers inside
/// it: either `p` is a proper prefix of `q`, or at the first index where they differ `p`
/// is smaller.
pub open spec fn walk_precedes(p: Seq<usize>, q: Seq<usize>) -> bool
    decreases p.len(),
{
    if p.len() == 0 {
        q.len() > 0
    } else if q.len() == 0 {
        false
    } else if p[0] != q[0] {
        p[0] < q[0]
    } else {
        walk_precedes(p.drop_first(), q.drop_first())
    }
}

/// The path to the first layer with id `layer_id` in a depth-first walk of
/// `layers[start..]` and the groups inside them.
pub open spec fn spec_find_layer_from<T>(layers: Seq<LayerNode<T>>, layer_id: u32, start: int) -> Option<
    Seq<usize>,
>
    decreases layers, layers.len() - start,
{
    if start < 0 || start >= layers.len() {
        None
    } else if layers[start].id == layer_id {
        Some(seq![start as usize])
    } else {
        match spec_find_layer_from(layers[start].children@, layer_id, 0) {
            Some(inner) => Some(seq![start as usize] + inner),
            None => spec_find_layer_from(layers, layer_id, start + 1),
        }
    }
}

/// The path to the first layer with id `layer_id` in a depth-first walk of the map.
pub open spec fn spec_find_layer<T>(layers: Seq<LayerNode<T>>, layer_id: u32) -> Option<Seq<usize>> {
    spec_find_layer_from(layers, layer_id, 0)
}

/// The view of an optional path.
pub open spec fn path_view(path: Option<Vec<usize>>) -> Option<Seq<usize>> {
    match path {
        Some(v) => Some(v@),
        None => None,
    }
}

/// The depth-first search behind [`find_layer_path`].
fn search_layers<T>(layers: &Vec<LayerNode<T>>, layer_id: u32) -> (path: Option<Vec<usize>>)
    ensures
        path_view(path) == spec_find_layer(layers@, layer_id),
    decreases layers@,
{
    let n = layers.len();
    let mut i: usize = 0;
    while i < n
        invariant
            n == layers@.len(),
            i <= n,
            spec_find_layer(layers@, layer_id) == spec_find_layer_from(layers@, layer_id, i as int),
        decreases n - i,
    {
        let node = &layers[i];
        if node.id == layer_id {
            let mut found: Vec<usize> = Vec::new();
            found.push(i);
            assert(found@ =~= seq![i]);
            return Some(found);
        }
        match search_layers(&node.children, layer_id) {
            Some(mut inner) => {
                let mut found: Vec<usize> = Vec::new();
                found.push(i);
                let ghost inner_view = inner@;
                found.append(&mut inner);
                assert(found@ =~= seq![i] + inner_view);
                return Some(found);
            },
            None => {},
        }
        i = i + 1;
    }
    None
}

/// Path to the first layer with id `layer_id`, in a depth-first walk that visits each
/// layer before the layers inside its group: `path[0]` indexes `layers`, each further
/// entry indexes the layers of the group reached so far. `None` when no layer has that id.
pub fn find_layer_path<T>(layers: &Vec<LayerNode<T>>, layer_id: u32) -> (path: Option<
    Vec<usize>,
>)
    ensures
        path_view(path) == spec_find_layer(layers@, layer_id),
        path is Some <==> exists|p: Seq<usize>| addresses_layer(layers@, p, layer_id),
        path matches Some(p) ==> addresses_layer(layers@, p@, layer_id),
        path matches Some(p) ==> forall|other: Seq<usize>|
            addresses_layer(layers@, other, layer_id) ==> other == p@ || walk_precedes(p@, other),
{
    let path = search_layers(layers, layer_id);
    proof {
        assert(layers@.len() == layers.len());
        lemma_find_layer_is_first_match(layers@, layer_id);
    }
    path
}

/// The offsets of the layers that `path` passes through, from the outermost group down to
/// the layer it leads to.
pub open spec fn spec_offsets_along<T>(layers: Seq<LayerNode<T>>, path: Seq<usize>) -> Seq<T>
    decreases path.len(),
{
    if path.len() == 0 || path[0] >= layers.len() {
        seq![]
    } else {
        seq![layers[path[0] as int].offset] + spec_offsets_along(
            layers[path[0] as int].children@,
            path.drop_first(),
        )
    }
}

/// Offsets of the layers along `path`, from the outermost group down to the layer that
/// the path leads to.
pub fn offsets_along_path<T: Copy>(layers: &Vec<LayerNode<T>>, path: &Vec<usize>) -> (offsets:
    Vec<T>)
    requires
        spec_layer_at(layers@, path@) is Some,
    ensures
        offsets@ == spec_offsets_along(layers@, path@),
        offsets@.len() == path@.len(),
        forall|j: int|
            1 <= j <= path@.len() ==> ((#[trigger] spec_layer_at(layers@, path@.take(j))) matches Some(
                node,
            ) && offsets@[j - 1] == node.offset),
{
    proof {
        lemma_offsets_are_those_passed(layers@, path@);
    }
    let mut offsets: Vec<T> = Vec::new();
    let mut level: &Vec<LayerNode<T>> = layers;
    let n = path.len();
    let mut k: usize = 0;
    assert(path@.skip(0) =~= path@);
    while k < n
        invariant
            n == path@.len(),
            k <= n,
            offsets@.len() == k,
            k < n ==> spec_layer_at(level@, path@.skip(k as int)) is Some,
            offsets@ + spec_offsets_along(level@, path@.skip(k as int)) == spec_offsets_along(
                layers@,
                path@,
            ),
        decreases n - k,
    {
        let ghost rest = path@.skip(k as int);
        let idx = path[k];
        assert(rest[0] == idx);
        let node = &level[idx];
        offsets.push(node.offset);
        level = &node.children;
        assert(rest.drop_first() =~= path@.skip(k + 1));
        k = k + 1;
    }
    assert(path@.skip(n as int) =~= Seq::<usize>::empty());
    offsets
}

/// Offsets of the layers from the outermost group down to the first layer with id
/// `layer_id` (see [`find_layer_path`]); summing them gives the layer's accumulated offset.
/// `None` when no layer has that id.
pub fn layer_offsets_to<T: Copy>(layers: &Vec<LayerNode<T>>, layer_id: u32) -> (offsets: Option<
    Vec<T>,
>)
    ensures
        offsets is Some <==> exists|p: Seq<usize>| addresses_layer(layers@, p, layer_id),
        offsets is Some <==> spec_find_layer(layers@, layer_id) is Some,
        offsets matches Some(o) ==> o@ == spec_offsets_along(
            layers@,
            spec_find_layer(layers@, layer_id)->0,
        ),
{
    match find_layer_path(layers, layer_id) {
        Some(path) => {
            Some(offsets_along_path(layers, &path))
        },
        None => None,
    }
}

/// Along a path that leads to a layer there is one offset per path entry, and offset
/// number `j - 1` is the offset of the layer reached by the first `j` entries of the path:
/// the offsets are exactly those of the groups the path passes through and of the layer
/// it leads to, outermost first.
pub proof fn lemma_offsets_are_those_passed<T>(layers: Seq<LayerNode<T>>, path: Seq<usize>)
    requires
        spec_layer_at(layers, path) is Some,
    ensures
        spec_offsets_along(layers, path).len() == path.len(),
        forall|j: int|
            1 <= j <= path.len() ==> ((#[trigger] spec_layer_at(layers, path.take(j))) matches Some(
                node,
            ) && spec_offsets_along(layers, path)[j - 1] == node.offset),
    decreases path.len(),
{
    let i = path[0];
    let rest = path.drop_first();
    let children = layers[i as int].children@;
    let inner = spec_offsets_along(children, rest);
    let full = spec_offsets_along(layers, path);
    assert(full == seq![layers[i as int].offset] + inner);
    if path.len() > 1 {
        lemma_offsets_are_those_passed(children, rest);
    } else {
        assert(inner.len() == 0);
    }
    assert forall|j: int| 1 <= j <= path.len() implies ((#[trigger] spec_layer_at(
        layers,
        path.take(j),
    )) matches Some(node) && full[j - 1] == node.offset) by {
        if j == 1 {
            assert(path.take(1) =~= seq![i]);
        } else {
            let prefix = path.take(j);
            assert(prefix.drop_first() =~= rest.take(j - 1));
            assert(prefix[0] == i);
            assert(spec_layer_at(layers, prefix) == spec_layer_at(children, rest.take(j - 1)));
            assert(full[j - 1] == inner[j - 2]);
        }
    }
}

/// Reading the path `[i] + rest` is reading `rest` inside layer `i`.
proof fn lemma_layer_at_prepend<T>(layers: Seq<LayerNode<T>>, i: usize, rest: Seq<usize>)
    requires
        i < layers.len(),
        rest.len() > 0,
    ensures
        spec_layer_at(layers, seq![i] + rest) == spec_layer_at(layers[i as int].children@, rest),
{
    assert((seq![i] + rest).drop_first() =~= rest);
}

/// Putting the same index in front of two paths keeps their walk order.
proof fn lemma_walk_precedes_prepend(i: usize, p: Seq<usize>, q: Seq<usize>)
    ensures
        walk_precedes(seq![i] + p, seq![i] + q) == walk_precedes(p, q),
{
    assert((seq![i] + p).drop_first() =~= p);
    assert((seq![i] + q).drop_first() =~= q);
}

/// What the search from `start` finds is a path, starting at `start` or later, to a layer
/// with the id sought.
proof fn lemma_find_from_sound<T>(layers: Seq<LayerNode<T>>, layer_id: u32, start: int)
    requires
        layers.len() <= usize::MAX,
    ensures
        spec_find_layer_from(layers, layer_id, start) matches Some(path) ==> {
            &&& path.len() > 0
            &&& start <= path[0]
            &&& addresses_layer(layers, path, layer_id)
        },
    decreases layers, layers.len() - start,
{
    if start < 0 || start >= layers.len() {
    } else if layers[start].id == layer_id {
    } else {
        assert(layers[start].children@.len() == layers[start].children.len());
        lemma_find_from_sound(layers[start].children@, layer_id, 0);
        match spec_find_layer_from(layers[start].children@, layer_id, 0) {
            Some(inner) => {
                lemma_layer_at_prepend(layers, start as usize, inner);
                assert((seq![start as usize] + inner)[0] == start);
            },
            None => {
                lemma_find_from_sound(layers, layer_id, start + 1);
            },
        }
    }
}

/// Every path, starting at `start` or later, to a layer with the id sought is either the
/// path that the search from `start` finds or comes after it in the walk.
proof fn lemma_find_from_first<T>(
    layers: Seq<LayerNode<T>>,
    layer_id: u32,
    start: int,
    other: Seq<usize>,
)
    requires
        layers.len() <= usize::MAX,
        0 <= start,
        other.len() > 0,
        start <= other[0],
        addresses_layer(layers, other, layer_id),
    ensures
        spec_find_layer_from(layers, layer_id, start) matches Some(path) && (path == other
            || walk_precedes(path, other)),
    decreases layers, layers.len() - start,
{
    let s = start as usize;
    if layers[start].id == layer_id {
        let found = seq![s];
        if other[0] == s {
            if other.len() > 1 {
                assert(walk_precedes(found.drop_first(), other.drop_first()));
            } else {
                assert(other =~= found);
            }
        }
    } else {
        let children = layers[start].children@;
        assert(children.len() == layers[start].children.len());
        if other[0] == s {
            let rest = other.drop_first();
            assert(other.len() > 1);
            assert(other =~= seq![s] + rest);
            lemma_layer_at_prepend(layers, s, rest);
            lemma_find_from_first(children, layer_id, 0, rest);
            let inner = spec_find_layer_from(children, layer_id, 0)->0;
            lemma_walk_precedes_prepend(s, inner, rest);
        } else {
            match spec_find_layer_from(children, layer_id, 0) {
                Some(inner) => {
                    let found = seq![s] + inner;
                    assert(found[0] == s);
                },
                None => {
                    lemma_find_from_first(layers, layer_id, start + 1, other);
                },
            }
        }
    }
}

/// The layer search finds a layer exactly when one with the id exists, and then it finds
/// the first one in a depth-first walk that visits each layer before the layers inside
/// it: the path it returns leads to a layer with that id, and every other path to such
/// a layer comes after it in the walk.
pub proof fn lemma_find_layer_is_first_match<T>(layers: Seq<LayerNode<T>>, layer_id: u32)
    requires
        layers.len() <= usize::MAX,
    ensures
        spec_find_layer(layers, layer_id) is Some <==> exists|path: Seq<usize>|
            addresses_layer(layers, path, layer_id),
        spec_find_layer(layers, layer_id) matches Some(path) ==> addresses_layer(
            layers,
            path,
            layer_id,
        ),
        spec_find_layer(layers, layer_id) matches Some(path) ==> forall|other: Seq<usize>|
            addresses_layer(layers, other, layer_id) ==> other == path || walk_precedes(
                path,
                other,
            ),
{
    lemma_find_from_sound(layers, layer_id, 0);
    assert forall|other: Seq<usize>| addresses_layer(layers, other, layer_id) implies (
    spec_find_layer(layers, layer_id) matches Some(path) && (path == other || walk_precedes(
        path,
        other,
    ))) by {
        lemma_find_from_first(layers, layer_id, 0, other);
    }
}

} // verus!
