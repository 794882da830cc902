//! The point where a ray packet met a surface.
use vstd::prelude::*;
use crate::math::Wec3;
use crate::ray::WRay;

verus! {

/// A hit of four lanes at once.
#[derive(Clone, Copy, Debug, PartialEq, Eq)]
pub struct WShadingPoint {
    /// The packet that arrived. Its radiance already holds what the surface
    /// emits toward the ray.
    pub ray: WRay,
    /// Surface normal of each lane.
    pub normal: Wec3,
}

} // verus!
