//! The records of a scene: cameras, layers and tiles, each naming its owner.

use vstd::prelude::*;
use crate::units::UNIT;

verus! {

/// Width and height of a camera's viewport, in whole pixels.
#[derive(Clone, Copy, Debug, PartialEq, Eq, Default)]
pub struct WindowSize {
    pub height: u32,
    pub width: u32,
}

/// A point in sub-pixel units.
#[derive(Clone, Copy, Debug, PartialEq, Eq)]
pub struct Vec3 {
    pub x: i64,
    pub y: i64,
    pub z: i64,
}

/// Where an entity stands relative to its owner, and the factor by which its
/// image is stretched horizontally (`UNIT` leaves it as it is).
#[derive(Clone, Copy, Debug, PartialEq, Eq)]
pub struct Transform {
    pub translation: Vec3,
    pub scale: i64,
}

/// The size of a tile's image before any stretching, in whole pixels.
#[derive(Clone, Copy, Debug, PartialEq, Eq, Default)]
pub struct Sprite {
    pub width: u32,
    pub height: u32,
}

/// One parallax background. `speed` is the share of the camera's movement
/// that the layer follows: zero keeps it still, `UNIT` moves it at the
/// camera's full rate.
#[derive(Clone, Copy, Debug, PartialEq, Eq, Default)]
pub struct Layer {
    pub speed: i64,
}

/// Everything a layer entity carries. `parent` is the index of the camera it
/// belongs to, `material` the handle of the image that its tiles share.
#[derive(Clone, Copy, Debug, PartialEq, Eq)]
pub struct LayerComponents {
    pub layer: Layer,
    pub parent: usize,
    pub transform: Transform,
    pub material: u64,
    pub sprite: Sprite,
}

/// A camera: the window it renders to, where it stands, and the viewport
/// size last observed for it.
#[derive(Clone, Copy, Debug, PartialEq, Eq)]
pub struct Camera {
    pub window: usize,
    pub transform: Transform,
    pub size: WindowSize,
}

/// One repetition of a layer's image. `parent` is the index of its layer.
/// A tile may lack a transform: it then has its place among the tiles of its
/// layer and counts as one of them, but there is nothing to move.
#[derive(Clone, Copy, Debug, PartialEq, Eq)]
pub struct Tile {
    pub parent: usize,
    pub material: u64,
    pub transform: Option<Transform>,
}

/// The entity registry. An entity's identifier is its index in its list, and
/// lists only ever grow at the end, so identifiers are stable.
#[derive(Clone, Debug, PartialEq, Eq)]
pub struct Scene {
    pub cameras: Vec<Camera>,
    pub layers: Vec<LayerComponents>,
    pub tiles: Vec<Tile>,
}

impl Transform {
    /// The transform of an entity at its owner's origin, not stretched.
    pub open spec fn spec_identity() -> Transform {
        Transform { translation: Vec3 { x: 0, y: 0, z: 0 }, scale: UNIT }
    }

    #[verifier::when_used_as_spec(spec_identity)]
    pub fn identity() -> (t: Transform)
        ensures
            t == Transform::spec_identity(),
    {
        Transform { translation: Vec3 { x: 0, y: 0, z: 0 }, scale: UNIT }
    }
}

impl Default for Transform {
    fn default() -> (t: Transform)
        ensures
            t == Transform::spec_identity(),
    {
        Transform::identity()
    }
}

impl Scene {
    /// A scene without entities.
    pub fn new() -> (scene: Scene)
        ensures
            scene.cameras@.len() == 0,
            scene.layers@.len() == 0,
            scene.tiles@.len() == 0,
    {
        Scene { cameras: Vec::new(), layers: Vec::new(), tiles: Vec::new() }
    }

    /// Adds a camera and returns its identifier.
    pub fn spawn_camera(&mut self, camera: Camera) -> (id: usize)
        ensures
            id == old(self).cameras@.len(),
            final(self).cameras@ == old(self).cameras@.push(camera),
            final(self).layers@ == old(self).layers@,
            final(self).tiles@ == old(self).tiles@,
    {
        let id = self.cameras.len();
        self.cameras.push(camera);
        id
    }

    /// Adds a layer and returns its identifier. The layer has no tiles yet.
    pub fn spawn_layer(&mut self, entity: LayerComponents) -> (id: usize)
        ensures
            id == old(self).layers@.len(),
            final(self).layers@ == old(self).layers@.push(entity),
            final(self).cameras@ == old(self).cameras@,
            final(self).tiles@ == old(self).tiles@,
    {
        let id = self.layers.len();
        self.layers.push(entity);
        id
    }
}

} // verus!
