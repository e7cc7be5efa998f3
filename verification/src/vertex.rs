//! The vertex value type and the fixed-point coordinate scale.

use vstd::prelude::*;

verus! {

/// Number of fixed-point subunits per world unit. A position of `1500`
/// subunits is one and a half world units.
pub const COORD_SCALE: i64 = 1000;

/// Vertical offset, in subunits, added to the currently selected tile's
/// geometry as a highlight cue (a quarter of a world unit).
pub const SELECT_LIFT: i64 = 250;

/// A plain mesh vertex: a 3-D position and a 2-D texture coordinate, both in
/// fixed-point subunits (`COORD_SCALE` subunits per unit).
#[derive(Clone, Copy, Debug, PartialEq, Eq, Structural)]
pub struct Vertex {
    pub pos_x: i64,
    pub pos_y: i64,
    pub pos_z: i64,
    pub tex_u: i64,
    pub tex_v: i64,
}

/// A stable handle to a texture: an identity used as the batching key, and
/// the pixel dimensions used to size quad sprites.
#[derive(Clone, Copy, Debug, PartialEq, Eq, Structural)]
pub struct TextureHandle {
    pub id: u64,
    pub width: u32,
    pub height: u32,
}

} // verus!
