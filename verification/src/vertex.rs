//! Vertex records, before and after the vertex shader stage.

use crate::geom::{Color, Vec3};
use vstd::prelude::*;

verus! {

/// A model-space vertex: position, unit-direction normal and base color.
#[derive(Clone, Copy, PartialEq, Eq, Structural, Debug)]
pub struct Vertex {
    pub position: Vec3,
    pub normal: Vec3,
    pub color: Color,
}

impl Vertex {
    pub fn new(position: Vec3, normal: Vec3, color: Color) -> (v: Vertex)
        ensures
            v == (Vertex { position, normal, color }),
    {
        Vertex { position, normal, color }
    }
}

/// The vertex shader's output: a fresh record carrying the accumulated
/// attributes forward — screen-space position (x, y in pixels, z the
/// depth), world-space position for lighting, re-normalized world-space
/// normal, and the base color.
#[derive(Clone, Copy, PartialEq, Eq, Structural, Debug)]
pub struct ShadedVertex {
    pub position: Vec3,
    pub world_position: Vec3,
    pub normal: Vec3,
    pub color: Color,
}

} // verus!
