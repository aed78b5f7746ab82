//! Fragments: the rasterizer's per-pixel output.

use crate::geom::{Color, Vec3};
use vstd::prelude::*;

verus! {

/// One covered pixel: its integer coordinate, the interpolated depth
/// (fixed-point, smaller is nearer), the interpolated world-space normal
/// and position for lighting, and the base color.
#[derive(Clone, Copy, PartialEq, Eq, Structural, Debug)]
pub struct Fragment {
    pub x: usize,
    pub y: usize,
    pub depth: i64,
    pub normal: Vec3,
    pub world_position: Vec3,
    pub color: Color,
}

} // verus!
