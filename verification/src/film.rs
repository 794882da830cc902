//! What the integrator writes for the film.
use vstd::prelude::*;
use crate::math::{Scalar, Vec3};
use crate::spectrum::Srgb;

verus! {

/// One value for one channel of the image.
#[derive(Clone, Copy, Debug, PartialEq, Eq, Structural)]
pub enum ChannelSample {
    /// Radiance of a finished path.
    Color(Srgb),
    /// Coverage of the pixel by geometry.
    Alpha(Scalar),
    /// Radiance of a camera ray that left the scene without scattering.
    Background(Srgb),
    /// Surface normal at the first hit.
    WorldNormal(Vec3),
}

impl ChannelSample {
    /// True for the samples that end a path: `Color` and `Background`.
    pub open spec fn spec_is_terminal(self) -> bool {
        self is Color || self is Background
    }

    /// Tests for a sample that ends a path.
    #[verifier::when_used_as_spec(spec_is_terminal)]
    pub fn is_terminal(self) -> (r: bool)
        ensures
            r == self.is_terminal(),
    {
        match self {
            ChannelSample::Color(_) => true,
            ChannelSample::Background(_) => true,
            _ => false,
        }
    }
}

} // verus!
