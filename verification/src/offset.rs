//! The offset engine: how far a layer is shifted against its camera.

use vstd::prelude::*;
use vstd::arithmetic::div_mod::{lemma_div_multiples_vanish, lemma_mod_multiples_vanish};
use crate::scene::{Camera, Layer, LayerComponents, Scene, Sprite, Transform, Vec3, WindowSize};
use crate::units::{BACKGROUND_DEPTH, HALF_UNIT, UNIT};

verus! {

/// Width on screen, in units, of an image `width` pixels wide that is
/// stretched by `scale`: their product. A scale of zero or below gives no
/// width at all.
pub open spec fn scaled_width(width: u32, scale: i64) -> int {
    if scale > 0 {
        width * scale
    } else {
        0
    }
}

/// Position, in units, of the left edge of a viewport `viewport_width` pixels
/// wide when the origin is the centre of the screen: minus half the width.
pub open spec fn left_edge(viewport_width: u32) -> int {
    -(viewport_width * UNIT) / 2
}

/// Distance that a layer of the given speed has scrolled when the camera
/// stands at `camera_x`: their product, rounded down to a whole unit.
pub open spec fn scrolled(camera_x: int, speed: int) -> int {
    (camera_x * speed) / (UNIT as int)
}

/// The scrolled distance wrapped into the width of one tile, by the
/// Euclidean remainder: never negative, whichever way the camera moved.
/// `tile_width` is in units. Without a positive tile width there is nothing
/// to wrap into, and the offset is zero.
pub open spec fn wrapped_offset(camera_x: int, speed: int, tile_width: int) -> int {
    if tile_width > 0 {
        scrolled(camera_x, speed) % tile_width
    } else {
        0
    }
}

/// Horizontal position of a layer: the left edge of the viewport, moved left
/// by the wrapped offset.
pub open spec fn layer_x(viewport_width: u32, camera_x: int, speed: int, tile_width: int) -> int {
    left_edge(viewport_width) - wrapped_offset(camera_x, speed, tile_width)
}

/// The transform moved to `x` and to the background depth; its height and
/// its scale stay. Where `x` is no coordinate, because it lies beyond the
/// smallest or the largest, the transform stays as it is.
pub open spec fn shifted(transform: Transform, x: int) -> Transform {
    if i64::MIN <= x <= i64::MAX {
        Transform {
            translation: Vec3 { x: x as i64, y: transform.translation.y, z: BACKGROUND_DEPTH },
            scale: transform.scale,
        }
    } else {
        transform
    }
}

/// A scaled width is never negative, and no wider than the widest image at
/// the largest scale.
pub proof fn lemma_scaled_width_bounds(width: u32, scale: i64)
    ensures
        0 <= scaled_width(width, scale) <= u32::MAX * i64::MAX,
{
    if scale > 0 {
        assert(0 <= width * scale <= 0xffff_ffff * 0x7fff_ffff_ffff_ffff) by (nonlinear_arith)
            requires
                0 <= width <= 0xffff_ffff,
                0 < scale <= 0x7fff_ffff_ffff_ffff,
        ;
    }
}

/// Gets the width of the sprite on screen, in units, with the transform's
/// scale taken into account.
pub fn sprite_scaled_width(sprite: &Sprite, transform: &Transform) -> (width: i128)
    ensures
        width == scaled_width(sprite.width, transform.scale),
{
    proof {
        lemma_scaled_width_bounds(sprite.width, transform.scale);
    }
    if transform.scale > 0 {
        (sprite.width as i128) * (transform.scale as i128)
    } else {
        0
    }
}

/// Calculates an offset that puts a layer at the left edge of the viewport,
/// since the camera is centred on the origin.
pub fn camera_left_edge_offset(window: &WindowSize) -> (offset: i64)
    ensures
        offset == left_edge(window.width),
        2 * offset == -(window.width * UNIT),
{
    -((window.width as i64) * HALF_UNIT)
}

/// The distance scrolled by a layer of speed `speed` under a camera at
/// `camera_x`, wrapped into the width of one tile, which is `tile_width`
/// units wide. A tile width of zero or below gives zero.
pub fn layer_offset_wrapped(camera_x: i64, speed: i64, tile_width: i128) -> (wrapped: i128)
    ensures
        wrapped == wrapped_offset(camera_x as int, speed as int, tile_width as int),
        tile_width > 0 ==> 0 <= wrapped < tile_width,
        tile_width <= 0 ==> wrapped == 0,
{
    if tile_width <= 0 {
        return 0;
    }
    assert(-0x4000_0000_0000_0000_0000_0000_0000_0000 <= camera_x * speed
        <= 0x4000_0000_0000_0000_0000_0000_0000_0000) by (nonlinear_arith)
        requires
            -0x8000_0000_0000_0000 <= camera_x <= 0x8000_0000_0000_0000,
            -0x8000_0000_0000_0000 <= speed <= 0x8000_0000_0000_0000,
    ;
    let product: i128 = (camera_x as i128) * (speed as i128);
    match product.checked_div_euclid(UNIT as i128) {
        Some(raw) => match raw.checked_rem_euclid(tile_width) {
            Some(rest) => rest,
            None => 0,
        },
        None => 0,
    }
}

/// Horizontal position of a layer of speed `speed` under a camera at
/// `camera_x`, in a viewport `viewport_width` pixels wide, when its tiles are
/// `tile_width` units wide: minus half the viewport's width, minus the
/// wrapped offset. There is none where that lies beyond the smallest
/// coordinate, which takes a tile wider than a hundred million million
/// pixels.
pub fn layer_offset(viewport_width: u32, camera_x: i64, speed: i64, tile_width: i128) -> (x: Option<
    i64,
>)
    ensures
        x is Some <==> i64::MIN <= layer_x(
            viewport_width,
            camera_x as int,
            speed as int,
            tile_width as int,
        ),
        x is Some ==> x->Some_0 == layer_x(
            viewport_width,
            camera_x as int,
            speed as int,
            tile_width as int,
        ),
        x is Some ==> 2 * x->Some_0 == -(viewport_width * UNIT) - 2 * wrapped_offset(
            camera_x as int,
            speed as int,
            tile_width as int,
        ),
{
    let left_side: i64 = -((viewport_width as i64) * HALF_UNIT);
    let wrapped = layer_offset_wrapped(camera_x, speed, tile_width);
    if wrapped <= (left_side as i128) - (i64::MIN as i128) {
        Some(((left_side as i128) - wrapped) as i64)
    } else {
        None
    }
}

/// How far to shift the layer because of the camera's position: the wrapped
/// offset, counted to the left.
pub fn camera_sprite_offset(
    camera: &Vec3,
    layer: &Layer,
    sprite: &Sprite,
    transform: &Transform,
) -> (offset: i128)
    ensures
        offset == -wrapped_offset(
            camera.x as int,
            layer.speed as int,
            scaled_width(sprite.width, transform.scale),
        ),
        offset <= 0,
        offset == 0 || -scaled_width(sprite.width, transform.scale) < offset,
{
    let sprite_width = sprite_scaled_width(sprite, transform);
    -layer_offset_wrapped(camera.x, layer.speed, sprite_width)
}

/// The layer as the offset engine leaves it: shifted to `layer_x` and pushed
/// back to the background depth if its camera is in the scene, untouched if
/// it is not.
pub open spec fn moved_layer(cameras: Seq<Camera>, entity: LayerComponents) -> LayerComponents {
    if entity.parent < cameras.len() {
        let camera = cameras[entity.parent as int];
        LayerComponents {
            transform: shifted(
                entity.transform,
                layer_x(
                    camera.size.width,
                    camera.transform.translation.x as int,
                    entity.layer.speed as int,
                    scaled_width(entity.sprite.width, entity.transform.scale),
                ),
            ),
            ..entity
        }
    } else {
        entity
    }
}

/// Every layer of the list after the offset engine has passed over it.
pub open spec fn moved_layers(cameras: Seq<Camera>, layers: Seq<LayerComponents>) -> Seq<
    LayerComponents,
> {
    Seq::new(layers.len(), |i: int| moved_layer(cameras, layers[i]))
}

/// A layer lies less than one tile width to the left of the viewport's left
/// edge, and never to its right.
pub proof fn lemma_layer_x_bounds(viewport_width: u32, camera_x: int, speed: int, tile_width: int)
    ensures
        layer_x(viewport_width, camera_x, speed, tile_width) <= left_edge(viewport_width) <= 0,
        tile_width > 0 ==> left_edge(viewport_width) - tile_width < layer_x(
            viewport_width,
            camera_x,
            speed,
            tile_width,
        ),
        tile_width <= 0 ==> layer_x(viewport_width, camera_x, speed, tile_width) == left_edge(
            viewport_width,
        ),
{
}

/// A layer that moves at the camera's full rate starts over with each tile
/// width that the camera travels, in either direction: its wrapped offset is
/// the same after any whole number of tile widths.
pub proof fn lemma_offset_repeats(camera_x: int, tile_width: int, turns: int)
    requires
        tile_width > 0,
    ensures
        wrapped_offset(camera_x + turns * tile_width, UNIT as int, tile_width) == wrapped_offset(
            camera_x,
            UNIT as int,
            tile_width,
        ),
{
    let moved = camera_x + turns * tile_width;
    assert(scrolled(camera_x, UNIT as int) == camera_x) by {
        lemma_div_multiples_vanish(camera_x, UNIT as int);
        assert(camera_x * UNIT == UNIT * camera_x) by (nonlinear_arith);
    }
    assert(scrolled(moved, UNIT as int) == moved) by {
        lemma_div_multiples_vanish(moved, UNIT as int);
        assert(moved * UNIT == UNIT * moved) by (nonlinear_arith);
    }
    assert(moved % tile_width == camera_x % tile_width) by {
        lemma_mod_multiples_vanish(turns, camera_x, tile_width);
        assert(tile_width * turns + camera_x == moved) by (nonlinear_arith)
            requires
                moved == camera_x + turns * tile_width,
        ;
    }
}

/// Moves the layer according to the camera's position. Layers of different
/// speeds move at different rates, which gives the parallax effect; once a
/// layer has moved by the width of its sprite it starts over.
pub fn move_layer_position(
    window: &WindowSize,
    camera: &Vec3,
    sprite: &Sprite,
    layer: &Layer,
    transform: &mut Transform,
)
    ensures
        *final(transform) == shifted(
            *old(transform),
            layer_x(
                window.width,
                camera.x as int,
                layer.speed as int,
                scaled_width(sprite.width, old(transform).scale),
            ),
        ),
{
    let offset = camera_left_edge_offset(window);
    let camera_x = camera_sprite_offset(camera, layer, sprite, transform);
    proof {
        lemma_scaled_width_bounds(sprite.width, transform.scale);
    }
    let x: i128 = (offset as i128) + camera_x;
    if x >= i64::MIN as i128 {
        transform.translation = Vec3 {
            x: x as i64,
            y: transform.translation.y,
            z: BACKGROUND_DEPTH,
        };
    }
}

/// Matches every layer to its camera. A layer whose camera is not in the
/// scene is left as it is.
pub fn layer_movement_system(scene: &mut Scene)
    ensures
        final(scene).cameras@ == old(scene).cameras@,
        final(scene).tiles@ == old(scene).tiles@,
        final(scene).layers@ == moved_layers(old(scene).cameras@, old(scene).layers@),
{
    let count = scene.layers.len();
    let mut index: usize = 0;
    while index < count
        invariant
            index <= count,
            count == scene.layers@.len(),
            scene.layers@.len() == old(scene).layers@.len(),
            scene.cameras@ == old(scene).cameras@,
            scene.tiles@ == old(scene).tiles@,
            forall|i: int|
                0 <= i < index ==> scene.layers@[i] == moved_layer(
                    old(scene).cameras@,
                    old(scene).layers@[i],
                ),
            forall|i: int| index <= i < count ==> scene.layers@[i] == old(scene).layers@[i],
        decreases count - index,
    {
        let entity = scene.layers[index];
        if entity.parent < scene.cameras.len() {
            let camera = scene.cameras[entity.parent];
            let mut transform = entity.transform;
            move_layer_position(
                &camera.size,
                &camera.transform.translation,
                &entity.sprite,
                &entity.layer,
                &mut transform,
            );
            scene.layers[index] = LayerComponents { transform, ..entity };
        }
        index += 1;
    }
    assert(scene.layers@ =~= moved_layers(old(scene).cameras@, old(scene).layers@));
}

} // verus!
