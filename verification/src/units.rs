//! The fixed-point scale that positions and factors are measured in.

use vstd::prelude::*;

verus! {

/// Sub-pixel units in one pixel. Positions are whole numbers of these units;
/// a factor such as a scroll speed or a display scale is the number of units
/// that stands for it, so `UNIT` itself is the factor one.
pub const UNIT: i64 = 65536;

/// Half a pixel.
pub const HALF_UNIT: i64 = 32768;

/// Depth at which every layer and every tile is drawn: 999 pixels behind the
/// plane of the foreground sprites.
pub const BACKGROUND_DEPTH: i64 = -65470464;

} // verus!
