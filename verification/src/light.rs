//! A point light source.

use crate::geom::Vec3;
use vstd::prelude::*;

verus! {

/// A point light at a world-space position, with unit intensity.
#[derive(Clone, Copy, PartialEq, Eq, Structural, Debug)]
pub struct Light {
    pub position: Vec3,
}

impl Light {
    pub fn new(position: Vec3) -> (l: Light)
        ensures
            l == (Light { position }),
    {
        Light { position }
    }
}

} // verus!
