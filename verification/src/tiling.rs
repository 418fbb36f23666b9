//! The tile pool: how many tiles a layer needs, and the spawning of those
//! that are missing.

use vstd::prelude::*;
use vstd::arithmetic::div_mod::lemma_div_multiples_vanish_quotient;
use crate::offset::{scaled_width, sprite_scaled_width};
use crate::scene::{Camera, LayerComponents, Scene, Sprite, Tile, Transform, WindowSize};
use crate::units::UNIT;

verus! {

/// Number of tiles, each `tile_width` units wide, that cover a viewport
/// `viewport_width` pixels wide: as many as fit into it, and two more, so
/// that one spare tile lies beyond each edge wherever the layer has scrolled
/// to. A tile without width needs no tiles.
pub open spec fn desired_count(viewport_width: int, tile_width: int) -> int {
    if tile_width > 0 {
        (viewport_width * UNIT) / tile_width + 2
    } else {
        0
    }
}

/// Number of tiles among the first `upto` of the list that belong to `layer`.
/// For the tile at index `upto` this is its place among its layer's tiles,
/// counted from the left and from zero.
pub open spec fn child_count(tiles: Seq<Tile>, layer: int, upto: int) -> nat
    decreases upto,
{
    if upto <= 0 {
        0
    } else {
        let before = child_count(tiles, layer, upto - 1);
        if upto <= tiles.len() && tiles[upto - 1].parent == layer {
            before + 1
        } else {
            before
        }
    }
}

/// The tile that the pool spawns for a layer: it shares the layer's material
/// and waits at the layer's origin for the layout to place it.
pub open spec fn spawned_tile(layer: int, entity: LayerComponents) -> Tile {
    Tile {
        parent: layer as usize,
        material: entity.material,
        transform: Some(Transform::spec_identity()),
    }
}

/// Number of tiles that layer number `layer` lacks. A layer that is not in
/// the scene, or whose camera is not, lacks none; nor does one that has as
/// many tiles as it needs, or more.
pub open spec fn missing_count(
    cameras: Seq<Camera>,
    layers: Seq<LayerComponents>,
    tiles: Seq<Tile>,
    layer: int,
) -> int {
    if 0 <= layer < layers.len() && layers[layer].parent < cameras.len() {
        let entity = layers[layer];
        let desired = desired_count(
            cameras[entity.parent as int].size.width as int,
            scaled_width(entity.sprite.width, entity.transform.scale),
        );
        let current = child_count(tiles, layer, tiles.len() as int);
        if desired > current {
            desired - current
        } else {
            0
        }
    } else {
        0
    }
}

/// The tiles after the pool has looked at layer number `layer`: those that
/// were there, in their order, and behind them the tiles that it lacked.
pub open spec fn reconciled(
    cameras: Seq<Camera>,
    layers: Seq<LayerComponents>,
    tiles: Seq<Tile>,
    layer: int,
) -> Seq<Tile> {
    let missing = missing_count(cameras, layers, tiles, layer);
    tiles + Seq::new(missing as nat, |i: int| spawned_tile(layer, layers[layer]))
}

/// The tiles after the pool has looked at the first `upto` layers, one after
/// the other.
pub open spec fn reconciled_upto(
    cameras: Seq<Camera>,
    layers: Seq<LayerComponents>,
    tiles: Seq<Tile>,
    upto: int,
) -> Seq<Tile>
    decreases upto,
{
    if upto <= 0 {
        tiles
    } else {
        reconciled(cameras, layers, reconciled_upto(cameras, layers, tiles, upto - 1), upto - 1)
    }
}

/// What lies behind the first `upto` tiles of a list has no part in a count
/// over them.
pub proof fn lemma_child_count_prefix(tiles: Seq<Tile>, more: Seq<Tile>, layer: int, upto: int)
    requires
        upto <= tiles.len(),
    ensures
        child_count(tiles + more, layer, upto) == child_count(tiles, layer, upto),
    decreases upto,
{
    if upto > 0 {
        lemma_child_count_prefix(tiles, more, layer, upto - 1);
    }
}

/// Looking at one layer gives that layer the tiles it lacked and changes no
/// other layer's count.
pub proof fn lemma_reconciled_count(
    cameras: Seq<Camera>,
    layers: Seq<LayerComponents>,
    tiles: Seq<Tile>,
    layer: int,
    other: int,
)
    requires
        0 <= layer <= usize::MAX,
    ensures
        child_count(
            reconciled(cameras, layers, tiles, layer),
            other,
            reconciled(cameras, layers, tiles, layer).len() as int,
        ) == child_count(tiles, other, tiles.len() as int) + if other == layer {
            missing_count(cameras, layers, tiles, layer)
        } else {
            0
        },
{
    let missing = missing_count(cameras, layers, tiles, layer);
    let more = Seq::new(missing as nat, |i: int| spawned_tile(layer, layers[layer]));
    lemma_child_count_spawned(tiles, more, layer, other, missing);
}

proof fn lemma_child_count_spawned(
    tiles: Seq<Tile>,
    more: Seq<Tile>,
    layer: int,
    other: int,
    upto: int,
)
    requires
        0 <= upto <= more.len(),
        forall|i: int| 0 <= i < more.len() ==> more[i].parent == layer,
    ensures
        child_count(tiles + more, other, tiles.len() + upto) == child_count(
            tiles,
            other,
            tiles.len() as int,
        ) + if other == layer {
            upto
        } else {
            0
        },
    decreases upto,
{
    if upto == 0 {
        lemma_child_count_prefix(tiles, more, other, tiles.len() as int);
    } else {
        lemma_child_count_spawned(tiles, more, layer, other, upto - 1);
        assert((tiles + more)[tiles.len() + upto - 1] == more[upto - 1]);
    }
}

/// After the pool has looked at the first `upto` layers, each of them has
/// the tiles it had and those it lacked, so at least as many as it needs,
/// and every other layer has the tiles it had.
pub proof fn lemma_reconciled_upto_counts(
    cameras: Seq<Camera>,
    layers: Seq<LayerComponents>,
    tiles: Seq<Tile>,
    upto: int,
    layer: int,
)
    requires
        0 <= upto <= layers.len() <= usize::MAX,
    ensures
        child_count(
            reconciled_upto(cameras, layers, tiles, upto),
            layer,
            reconciled_upto(cameras, layers, tiles, upto).len() as int,
        ) == child_count(tiles, layer, tiles.len() as int) + if 0 <= layer < upto {
            missing_count(cameras, layers, tiles, layer)
        } else {
            0
        },
    decreases upto,
{
    if upto > 0 {
        let before = reconciled_upto(cameras, layers, tiles, upto - 1);
        lemma_reconciled_upto_counts(cameras, layers, tiles, upto - 1, layer);
        lemma_reconciled_upto_counts(cameras, layers, tiles, upto - 1, upto - 1);
        lemma_reconciled_count(cameras, layers, before, upto - 1, layer);
    }
}

/// The pool never removes a tile: the tiles that were there stand first in
/// the result, in their order.
pub proof fn lemma_reconciled_upto_keeps(
    cameras: Seq<Camera>,
    layers: Seq<LayerComponents>,
    tiles: Seq<Tile>,
    upto: int,
)
    ensures
        tiles.is_prefix_of(reconciled_upto(cameras, layers, tiles, upto)),
    decreases upto,
{
    if upto > 0 {
        lemma_reconciled_upto_keeps(cameras, layers, tiles, upto - 1);
    }
}

/// For tiles a whole number of pixels wide the count is the number of
/// tiles that fit into the viewport, both in pixels, and two.
pub proof fn lemma_desired_count_of_whole_pixels(viewport_width: int, tile_pixels: int)
    requires
        0 <= viewport_width,
        0 < tile_pixels,
    ensures
        desired_count(viewport_width, tile_pixels * UNIT) == viewport_width / tile_pixels + 2,
{
    lemma_div_multiples_vanish_quotient(UNIT as int, viewport_width, tile_pixels);
    assert(viewport_width * UNIT == UNIT * viewport_width) by (nonlinear_arith);
    assert(tile_pixels * UNIT == UNIT * tile_pixels) by (nonlinear_arith);
}

/// Number of tiles, each `tile_width` units wide, that a layer needs under a
/// viewport `viewport_width` pixels wide. With a tile width of zero or below
/// nothing is divided and the answer is zero.
pub fn desired_tile_count(viewport_width: u32, tile_width: i128) -> (count: u64)
    ensures
        count == desired_count(viewport_width as int, tile_width as int),
        tile_width > 0 ==> count == (viewport_width * UNIT) / (tile_width as int) + 2,
        tile_width <= 0 ==> count == 0,
{
    if tile_width > 0 {
        assert(viewport_width * UNIT == viewport_width * 65536);
        let span: i128 = (viewport_width as i128) * (UNIT as i128);
        assert(0 <= span / tile_width <= span) by (nonlinear_arith)
            requires
                0 <= span,
                0 < tile_width,
        ;
        match span.checked_div_euclid(tile_width) {
            Some(fitting) => fitting as u64 + 2,
            None => 0,
        }
    } else {
        0
    }
}

/// Calculates the number of tiles that the effect needs for a sprite drawn
/// with the given transform in the given window.
pub fn desired_children_count(window: &WindowSize, sprite: &Sprite, transform: &Transform) -> (count:
    u64)
    ensures
        count == desired_count(
            window.width as int,
            scaled_width(sprite.width, transform.scale),
        ),
{
    let tex_width = sprite_scaled_width(sprite, transform);
    desired_tile_count(window.width, tex_width)
}

/// Counts the tiles of a layer.
pub fn count_children(tiles: &Vec<Tile>, layer: usize) -> (count: usize)
    ensures
        count == child_count(tiles@, layer as int, tiles@.len() as int),
{
    let mut count: usize = 0;
    let mut index: usize = 0;
    while index < tiles.len()
        invariant
            index <= tiles@.len(),
            count <= index,
            count == child_count(tiles@, layer as int, index as int),
        decreases tiles@.len() - index,
    {
        if tiles[index].parent == layer {
            count += 1;
        }
        index += 1;
    }
    count
}

/// Spawns the tiles that layer number `layer` lacks and says how many they
/// were. Tiles are never removed: a layer with more tiles than it needs
/// keeps them all.
pub fn reconcile_tile_count(scene: &mut Scene, layer: usize) -> (created: u64)
    ensures
        final(scene).cameras@ == old(scene).cameras@,
        final(scene).layers@ == old(scene).layers@,
        created == missing_count(
            old(scene).cameras@,
            old(scene).layers@,
            old(scene).tiles@,
            layer as int,
        ),
        final(scene).tiles@ == reconciled(
            old(scene).cameras@,
            old(scene).layers@,
            old(scene).tiles@,
            layer as int,
        ),
{
    if layer >= scene.layers.len() {
        assert(scene.tiles@ =~= reconciled(
            old(scene).cameras@,
            old(scene).layers@,
            old(scene).tiles@,
            layer as int,
        ));
        return 0;
    }
    let entity = scene.layers[layer];
    if entity.parent >= scene.cameras.len() {
        assert(scene.tiles@ =~= reconciled(
            old(scene).cameras@,
            old(scene).layers@,
            old(scene).tiles@,
            layer as int,
        ));
        return 0;
    }
    let window = scene.cameras[entity.parent].size;
    let desired_children = desired_children_count(&window, &entity.sprite, &entity.transform);
    let current_children = count_children(&scene.tiles, layer) as u64;
    let to_add: u64 = if desired_children > current_children {
        desired_children - current_children
    } else {
        0
    };
    let mut added: u64 = 0;
    while added < to_add
        invariant
            added <= to_add,
            scene.cameras@ == old(scene).cameras@,
            scene.layers@ == old(scene).layers@,
            scene.tiles@ == old(scene).tiles@ + Seq::new(
                added as nat,
                |i: int| spawned_tile(layer as int, entity),
            ),
        decreases to_add - added,
    {
        scene.tiles.push(
            Tile {
                parent: layer,
                material: entity.material,
                transform: Some(Transform::identity()),
            },
        );
        added += 1;
        assert(scene.tiles@ =~= old(scene).tiles@ + Seq::new(
            added as nat,
            |i: int| spawned_tile(layer as int, entity),
        ));
    }
    to_add
}

/// Manages the number of tiles that each layer repeats, based on the size of
/// its camera's window.
pub fn children_count_system(scene: &mut Scene)
    ensures
        final(scene).cameras@ == old(scene).cameras@,
        final(scene).layers@ == old(scene).layers@,
        final(scene).tiles@ == reconciled_upto(
            old(scene).cameras@,
            old(scene).layers@,
            old(scene).tiles@,
            old(scene).layers@.len() as int,
        ),
{
    let count = scene.layers.len();
    let mut layer: usize = 0;
    while layer < count
        invariant
            layer <= count,
            count == scene.layers@.len(),
            scene.cameras@ == old(scene).cameras@,
            scene.layers@ == old(scene).layers@,
            scene.tiles@ == reconciled_upto(
                old(scene).cameras@,
                old(scene).layers@,
                old(scene).tiles@,
                layer as int,
            ),
        decreases count - layer,
    {
        reconcile_tile_count(scene, layer);
        layer += 1;
    }
}

} // verus!
