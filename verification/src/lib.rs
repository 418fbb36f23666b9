//! Parallax scrolling for tiled 2D backgrounds.
//!
//! A scene holds cameras, background layers and the tiles that repeat each
//! layer's image. Once per frame the scene is brought up to date in four
//! steps: the viewport of each camera is refreshed, each layer gets enough
//! tiles to cover its viewport, the tiles are laid out side by side, and each
//! layer is shifted against its camera, wrapped into one tile width.
//!
//! All lengths and positions are exact fixed-point integers, so each step is a
//! function of its inputs alone and nothing drifts over a long session.

pub mod units;
pub mod scene;
pub mod offset;
pub mod tiling;
pub mod layout;
pub mod window_size;
pub mod frame;

pub use frame::update;
pub use layout::{children_layout_system, layout_tiles};
pub use offset::{
    camera_left_edge_offset, camera_sprite_offset, layer_movement_system, layer_offset,
    layer_offset_wrapped, move_layer_position, sprite_scaled_width,
};
pub use scene::{Camera, Layer, LayerComponents, Scene, Sprite, Tile, Transform, Vec3, WindowSize};
pub use tiling::{
    children_count_system, count_children, desired_children_count, desired_tile_count,
    reconcile_tile_count,
};
pub use units::{BACKGROUND_DEPTH, UNIT};
