//! What a surface answers when it is asked to scatter a packet.
use vstd::prelude::*;
use crate::math::{Scalar, Vec3, WScalar, Wec3, LANES};
use crate::spectrum::{Srgb, WSrgb};

verus! {

/// A sampled scattering of one lane, with the arithmetic already done.
#[derive(Clone, Copy, Debug, PartialEq, Eq, Structural)]
pub struct ScatteringEvent {
    /// Where the scattered ray starts.
    pub origin: Vec3,
    /// Sampled direction.
    pub wi: Vec3,
    /// Path weight after this scattering; see [`WScatteringEvent`].
    pub throughput: Srgb,
    /// Share of the strongest channel that the path has already lost.
    pub absorbed: Scalar,
}

/// A sampled scattering of four lanes, with the arithmetic already done.
#[derive(Clone, Copy, Debug, PartialEq, Eq)]
pub struct WScatteringEvent {
    /// Where the scattered rays start.
    pub origin: Wec3,
    /// Sampled direction of each lane.
    pub wi: Wec3,
    /// Path weight of each lane after this scattering: the weight before,
    /// times the surface's response and the cosine to the normal, over the
    /// sampling density, and over the roulette's survival probability where
    /// the roulette is engaged. A lane whose sample was singular may hold a
    /// NaN here.
    pub throughput: WSrgb,
    /// One minus the largest channel of the weight before: the share of the
    /// strongest channel that the path has already lost.
    pub absorbed: WScalar,
}

impl WScatteringEvent {
    /// The scattering of lane `i`.
    pub open spec fn lane(self, i: int) -> ScatteringEvent {
        ScatteringEvent {
            origin: self.origin.lane(i),
            wi: self.wi.lane(i),
            throughput: self.throughput.lane(i),
            absorbed: self.absorbed.lane(i),
        }
    }

    /// The scattering of lane `i`.
    pub fn get(&self, i: usize) -> (e: ScatteringEvent)
        requires
            i < LANES,
        ensures
            e == self.lane(i as int),
    {
        ScatteringEvent {
            origin: self.origin.get(i),
            wi: self.wi.get(i),
            throughput: self.throughput.get(i),
            absorbed: self.absorbed.get(i),
        }
    }
}

/// The scattering of lane `i`, where there is one.
pub open spec fn lane_event(event: Option<WScatteringEvent>, i: int) -> Option<ScatteringEvent> {
    match event {
        Some(e) => Some(e.lane(i)),
        None => None,
    }
}

} // verus!
