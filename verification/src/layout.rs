//! The layout engine: the tiles of a layer side by side, left to right.

use vstd::prelude::*;
use crate::offset::{scaled_width, shifted, sprite_scaled_width};
use crate::scene::{LayerComponents, Scene, Tile, Transform, Vec3};
use crate::tiling::child_count;
use crate::units::BACKGROUND_DEPTH;

verus! {

/// Left edge, in units, of the tile with the given place in its layer: one
/// tile width, which is in units too, for each tile to its left.
pub open spec fn tile_column(place: int, tile_width: int) -> int {
    place * tile_width
}

/// Tile number `index` after the layout: moved to its column and to the
/// background depth, its height and everything else as before. The column
/// goes by the tile's place among the tiles of its layer and by the width of
/// that layer's image at the tile's own scale; positions are local to the
/// layer, so the layer's scale has no part in them. A tile stays as it is
/// where its layer is not in the scene, where it has no transform, and where
/// its column lies beyond the largest coordinate.
pub open spec fn laid_out_tile(layers: Seq<LayerComponents>, tiles: Seq<Tile>, index: int) -> Tile {
    let tile = tiles[index];
    if tile.parent < layers.len() && tile.transform is Some {
        let entity = layers[tile.parent as int];
        let transform = tile.transform->Some_0;
        let column = tile_column(
            child_count(tiles, tile.parent as int, index) as int,
            scaled_width(entity.sprite.width, transform.scale),
        );
        Tile { transform: Some(shifted(transform, column)), ..tile }
    } else {
        tile
    }
}

/// The tiles after the layout of one layer: its tiles are placed, all others
/// are as before.
pub open spec fn laid_out_layer(layers: Seq<LayerComponents>, tiles: Seq<Tile>, layer: int) -> Seq<
    Tile,
> {
    Seq::new(
        tiles.len(),
        |i: int|
            if tiles[i].parent == layer {
                laid_out_tile(layers, tiles, i)
            } else {
                tiles[i]
            },
    )
}

/// The tiles after the layout of every layer.
pub open spec fn laid_out(layers: Seq<LayerComponents>, tiles: Seq<Tile>) -> Seq<Tile> {
    Seq::new(tiles.len(), |i: int| laid_out_tile(layers, tiles, i))
}

/// The first tile of a layer stands at the layer's origin, and each tile
/// stands one tile width to the right of the tile before it: there is no gap
/// between neighbours and no overlap.
pub proof fn lemma_columns_adjoin(place: int, tile_width: int)
    ensures
        tile_column(0, tile_width) == 0,
        tile_column(place + 1, tile_width) == tile_column(place, tile_width) + tile_width,
{
    assert((place + 1) * tile_width == place * tile_width + tile_width) by (nonlinear_arith);
}

/// Two lists of tiles that agree on who owns each tile agree on every count
/// of a layer's tiles.
pub proof fn lemma_child_count_by_parents(a: Seq<Tile>, b: Seq<Tile>, layer: int, upto: int)
    requires
        a.len() == b.len(),
        forall|i: int| 0 <= i < a.len() ==> a[i].parent == b[i].parent,
    ensures
        child_count(a, layer, upto) == child_count(b, layer, upto),
    decreases upto,
{
    if upto > 0 {
        lemma_child_count_by_parents(a, b, layer, upto - 1);
    }
}

/// The layout is idempotent: laying out tiles that are laid out already
/// moves none of them.
pub proof fn lemma_layout_idempotent(layers: Seq<LayerComponents>, tiles: Seq<Tile>)
    ensures
        laid_out(layers, laid_out(layers, tiles)) == laid_out(layers, tiles),
{
    let once = laid_out(layers, tiles);
    let twice = laid_out(layers, once);
    assert forall|i: int| 0 <= i < once.len() implies twice[i] == once[i] by {
        lemma_child_count_by_parents(once, tiles, once[i].parent as int, i);
    }
    assert(twice =~= once);
}

/// Positions the tiles of layer number `layer` next to each other, in the
/// order in which they stand in the scene.
pub fn layout_tiles(scene: &mut Scene, layer: usize)
    ensures
        final(scene).cameras@ == old(scene).cameras@,
        final(scene).layers@ == old(scene).layers@,
        final(scene).tiles@ == laid_out_layer(
            old(scene).layers@,
            old(scene).tiles@,
            layer as int,
        ),
{
    if layer >= scene.layers.len() {
        assert(scene.tiles@ =~= laid_out_layer(
            old(scene).layers@,
            old(scene).tiles@,
            layer as int,
        ));
        return;
    }
    let entity = scene.layers[layer];
    let count = scene.tiles.len();
    let mut place: usize = 0;
    let mut index: usize = 0;
    while index < count
        invariant
            index <= count,
            count == scene.tiles@.len(),
            scene.tiles@.len() == old(scene).tiles@.len(),
            scene.cameras@ == old(scene).cameras@,
            scene.layers@ == old(scene).layers@,
            layer < scene.layers@.len(),
            entity == scene.layers@[layer as int],
            place <= index,
            place == child_count(old(scene).tiles@, layer as int, index as int),
            forall|i: int|
                0 <= i < index ==> scene.tiles@[i] == laid_out_layer(
                    old(scene).layers@,
                    old(scene).tiles@,
                    layer as int,
                )[i],
            forall|i: int| index <= i < count ==> scene.tiles@[i] == old(scene).tiles@[i],
        decreases count - index,
    {
        let tile = scene.tiles[index];
        if tile.parent == layer {
            match tile.transform {
                Some(transform) => {
                    let width = sprite_scaled_width(&entity.sprite, &transform);
                    assert(0 <= place * width) by (nonlinear_arith)
                        requires
                            0 <= place,
                            0 <= width,
                    ;
                    match (place as i128).checked_mul(width) {
                        Some(column) => {
                            if column <= i64::MAX as i128 {
                                scene.tiles[index] = Tile {
                                    transform: Some(
                                        Transform {
                                            translation: Vec3 {
                                                x: column as i64,
                                                y: transform.translation.y,
                                                z: BACKGROUND_DEPTH,
                                            },
                                            scale: transform.scale,
                                        },
                                    ),
                                    ..tile
                                };
                            }
                        },
                        None => {},
                    }
                },
                None => {},
            }
            place += 1;
        }
        index += 1;
    }
    assert(scene.tiles@ =~= laid_out_layer(old(scene).layers@, old(scene).tiles@, layer as int));
}

/// Sets the position of every tile of every layer.
pub fn children_layout_system(scene: &mut Scene)
    ensures
        final(scene).cameras@ == old(scene).cameras@,
        final(scene).layers@ == old(scene).layers@,
        final(scene).tiles@ == laid_out(old(scene).layers@, old(scene).tiles@),
{
    let count = scene.layers.len();
    let mut layer: usize = 0;
    while layer < count
        invariant
            layer <= count,
            count == scene.layers@.len(),
            scene.cameras@ == old(scene).cameras@,
            scene.layers@ == old(scene).layers@,
            scene.tiles@.len() == old(scene).tiles@.len(),
            forall|i: int|
                0 <= i < scene.tiles@.len() ==> scene.tiles@[i] == if old(scene).tiles@[i].parent
                    < layer {
                    laid_out_tile(old(scene).layers@, old(scene).tiles@, i)
                } else {
                    old(scene).tiles@[i]
                },
        decreases count - layer,
    {
        let ghost before = scene.tiles@;
        layout_tiles(scene, layer);
        proof {
            assert forall|i: int| 0 <= i < scene.tiles@.len() implies scene.tiles@[i] == if old(
                scene,
            ).tiles@[i].parent < layer + 1 {
                laid_out_tile(old(scene).layers@, old(scene).tiles@, i)
            } else {
                old(scene).tiles@[i]
            } by {
                lemma_child_count_by_parents(before, old(scene).tiles@, layer as int, i);
            }
        }
        layer += 1;
    }
    assert(scene.tiles@ =~= laid_out(old(scene).layers@, old(scene).tiles@));
}

} // verus!
