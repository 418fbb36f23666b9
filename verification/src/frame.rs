//! One frame: the four steps in the order in which each needs the one
//! before it.

use vstd::prelude::*;
use crate::layout::{
    children_layout_system, laid_out, lemma_child_count_by_parents, lemma_layout_idempotent,
    tile_column,
};
use crate::offset::{layer_movement_system, layer_x, left_edge, moved_layers};
use crate::scene::{Camera, LayerComponents, Scene, Tile, WindowSize};
use crate::tiling::{
    child_count, children_count_system, desired_count, lemma_reconciled_upto_counts,
    missing_count, reconciled, reconciled_upto,
};
use crate::units::UNIT;
use crate::window_size::{tracked_cameras, window_size};

verus! {

/// Brings the scene up to date for one frame. The viewports are refreshed
/// first, since the tile pool sizes itself by them; the pool runs before the
/// layout, since new tiles need a place; the layers are shifted last.
pub fn update(scene: &mut Scene, windows: &Vec<Option<WindowSize>>)
    ensures
        final(scene).cameras@ == tracked_cameras(windows@, old(scene).cameras@),
        final(scene).layers@ == moved_layers(final(scene).cameras@, old(scene).layers@),
        final(scene).tiles@ == laid_out(
            old(scene).layers@,
            reconciled_upto(
                final(scene).cameras@,
                old(scene).layers@,
                old(scene).tiles@,
                old(scene).layers@.len() as int,
            ),
        ),
{
    window_size(scene, windows);
    children_count_system(scene);
    children_layout_system(scene);
    layer_movement_system(scene);
}

/// The tiles that a layer needs cover its viewport wherever the camera
/// stands: laid out from the layer's position at the width they have on
/// screen, the first of them begins at the viewport's left edge or to the
/// left of it, and the last of them ends beyond its right edge.
pub proof fn lemma_tiles_cover_viewport(
    viewport_width: u32,
    camera_x: int,
    speed: int,
    tile_width: int,
)
    requires
        tile_width > 0,
    ensures
        layer_x(viewport_width, camera_x, speed, tile_width) <= left_edge(viewport_width),
        layer_x(viewport_width, camera_x, speed, tile_width) + tile_column(
            desired_count(viewport_width as int, tile_width),
            tile_width,
        ) > left_edge(viewport_width) + viewport_width * UNIT,
{
    let span = viewport_width * UNIT;
    let fitting = span / tile_width;
    assert((fitting + 2) * tile_width > span + tile_width) by (nonlinear_arith)
        requires
            tile_width > 0,
            fitting == span / tile_width,
    ;
}

/// Two lists of layers that the tile pool and the layout cannot tell apart:
/// they agree on each layer's camera, image, material and scale.
pub open spec fn same_tiling(a: Seq<LayerComponents>, b: Seq<LayerComponents>) -> bool {
    &&& a.len() == b.len()
    &&& forall|i: int|
        0 <= i < a.len() ==> {
            &&& (#[trigger] a[i]).parent == b[i].parent
            &&& a[i].sprite == b[i].sprite
            &&& a[i].material == b[i].material
            &&& a[i].transform.scale == b[i].transform.scale
        }
}

proof fn lemma_reconciled_by_tiling(
    cameras: Seq<Camera>,
    a: Seq<LayerComponents>,
    b: Seq<LayerComponents>,
    tiles: Seq<Tile>,
    upto: int,
)
    requires
        same_tiling(a, b),
        upto <= a.len(),
    ensures
        reconciled_upto(cameras, a, tiles, upto) == reconciled_upto(cameras, b, tiles, upto),
    decreases upto,
{
    if upto > 0 {
        lemma_reconciled_by_tiling(cameras, a, b, tiles, upto - 1);
        let before = reconciled_upto(cameras, a, tiles, upto - 1);
        assert(a[upto - 1].parent == b[upto - 1].parent);
        assert(reconciled(cameras, a, before, upto - 1) =~= reconciled(
            cameras,
            b,
            before,
            upto - 1,
        ));
    }
}

proof fn lemma_reconciled_when_complete(
    cameras: Seq<Camera>,
    layers: Seq<LayerComponents>,
    tiles: Seq<Tile>,
    upto: int,
)
    requires
        forall|layer: int| 0 <= layer < upto ==> missing_count(cameras, layers, tiles, layer) == 0,
    ensures
        reconciled_upto(cameras, layers, tiles, upto) == tiles,
    decreases upto,
{
    if upto > 0 {
        lemma_reconciled_when_complete(cameras, layers, tiles, upto - 1);
        assert(reconciled(cameras, layers, tiles, upto - 1) =~= tiles);
    }
}

/// A frame is a function of what it is given and keeps no account of the
/// frames before it: while neither the windows nor the cameras change, a
/// second frame leaves everything as the first one left it.
pub proof fn lemma_update_settles(
    windows: Seq<Option<WindowSize>>,
    cameras: Seq<Camera>,
    layers: Seq<LayerComponents>,
    tiles: Seq<Tile>,
)
    requires
        layers.len() <= usize::MAX,
    ensures
        ({
            let count = layers.len() as int;
            let cameras_once = tracked_cameras(windows, cameras);
            let layers_once = moved_layers(cameras_once, layers);
            let tiles_once = laid_out(layers, reconciled_upto(cameras_once, layers, tiles, count));
            &&& tracked_cameras(windows, cameras_once) == cameras_once
            &&& moved_layers(cameras_once, layers_once) == layers_once
            &&& laid_out(
                layers_once,
                reconciled_upto(cameras_once, layers_once, tiles_once, count),
            ) == tiles_once
        }),
{
    let count = layers.len() as int;
    let cameras_once = tracked_cameras(windows, cameras);
    let layers_once = moved_layers(cameras_once, layers);
    let filled = reconciled_upto(cameras_once, layers, tiles, count);
    let tiles_once = laid_out(layers, filled);
    assert(tracked_cameras(windows, cameras_once) =~= cameras_once);
    assert(moved_layers(cameras_once, layers_once) =~= layers_once);
    assert(same_tiling(layers_once, layers));
    assert forall|layer: int| 0 <= layer < count implies missing_count(
        cameras_once,
        layers,
        tiles_once,
        layer,
    ) == 0 by {
        lemma_reconciled_upto_counts(cameras_once, layers, tiles, count, layer);
        lemma_child_count_by_parents(tiles_once, filled, layer, filled.len() as int);
    }
    lemma_reconciled_when_complete(cameras_once, layers, tiles_once, count);
    lemma_reconciled_by_tiling(cameras_once, layers_once, layers, tiles_once, count);
    assert(laid_out(layers_once, tiles_once) =~= laid_out(layers, tiles_once));
    lemma_layout_idempotent(layers, filled);
}

} // verus!
