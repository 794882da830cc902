//! Rays: one lane alone, and four lanes as a packet.
use vstd::prelude::*;
use crate::math::{Vec2u, Vec3, Wec3, LANES};
use crate::spectrum::{Srgb, WSrgb};

verus! {

/// One ray and the state of the path it continues.
#[derive(Clone, Copy, Debug, PartialEq, Eq, Structural)]
pub struct Ray {
    pub origin: Vec3,
    /// Direction of travel.
    pub dir: Vec3,
    /// Light gathered along the path so far.
    pub radiance: Srgb,
    /// Weight that light found from here on is multiplied by.
    pub throughput: Srgb,
    /// A lane that is not valid carries no path: it gives no sample and is
    /// not traced further.
    pub valid: bool,
    /// The pixel that the path belongs to.
    pub tile_coord: Vec2u,
}

impl Ray {
    /// A camera ray: no light gathered yet, weight one in every channel.
    pub fn new(origin: Vec3, dir: Vec3, tile_coord: Vec2u) -> (ray: Ray)
        ensures
            ray == (Ray {
                origin,
                dir,
                radiance: Srgb {
                    r: crate::math::Scalar { bits: crate::math::ZERO_BITS },
                    g: crate::math::Scalar { bits: crate::math::ZERO_BITS },
                    b: crate::math::Scalar { bits: crate::math::ZERO_BITS },
                },
                throughput: Srgb {
                    r: crate::math::Scalar { bits: crate::math::ONE_BITS },
                    g: crate::math::Scalar { bits: crate::math::ONE_BITS },
                    b: crate::math::Scalar { bits: crate::math::ONE_BITS },
                },
                valid: true,
                tile_coord,
            }),
            ray.throughput.is_weight(),
    {
        Ray {
            origin,
            dir,
            radiance: Srgb::black(),
            throughput: Srgb::white(),
            valid: true,
            tile_coord,
        }
    }
}

impl Ray {
    /// A lane without a path: not valid, everything else zero.
    pub fn idle() -> (ray: Ray)
        ensures
            ray == (Ray {
                origin: Vec3 {
                    x: crate::math::Scalar { bits: crate::math::ZERO_BITS },
                    y: crate::math::Scalar { bits: crate::math::ZERO_BITS },
                    z: crate::math::Scalar { bits: crate::math::ZERO_BITS },
                },
                dir: Vec3 {
                    x: crate::math::Scalar { bits: crate::math::ZERO_BITS },
                    y: crate::math::Scalar { bits: crate::math::ZERO_BITS },
                    z: crate::math::Scalar { bits: crate::math::ZERO_BITS },
                },
                radiance: Srgb {
                    r: crate::math::Scalar { bits: crate::math::ZERO_BITS },
                    g: crate::math::Scalar { bits: crate::math::ZERO_BITS },
                    b: crate::math::Scalar { bits: crate::math::ZERO_BITS },
                },
                throughput: Srgb {
                    r: crate::math::Scalar { bits: crate::math::ZERO_BITS },
                    g: crate::math::Scalar { bits: crate::math::ZERO_BITS },
                    b: crate::math::Scalar { bits: crate::math::ZERO_BITS },
                },
                valid: false,
                tile_coord: Vec2u { x: 0, y: 0 },
            }),
    {
        let zero = crate::math::Scalar::zero();
        let origin = Vec3 { x: zero, y: zero, z: zero };
        Ray {
            origin,
            dir: origin,
            radiance: Srgb::black(),
            throughput: Srgb::black(),
            valid: false,
            tile_coord: Vec2u { x: 0, y: 0 },
        }
    }
}

/// Four rays side by side, stored field by field.
#[derive(Clone, Copy, Debug, PartialEq, Eq)]
pub struct WRay {
    pub origin: Wec3,
    pub dir: Wec3,
    pub radiance: WSrgb,
    pub throughput: WSrgb,
    pub valid: [bool; 4],
    pub tile_coord: [Vec2u; 4],
}

impl WRay {
    /// The ray in lane `i`.
    pub open spec fn lane(self, i: int) -> Ray {
        Ray {
            origin: self.origin.lane(i),
            dir: self.dir.lane(i),
            radiance: self.radiance.lane(i),
            throughput: self.throughput.lane(i),
            valid: self.valid[i],
            tile_coord: self.tile_coord[i],
        }
    }

    /// Number of valid lanes among the first `n`.
    pub open spec fn valid_count(self, n: int) -> nat
        decreases n,
    {
        if n <= 0 {
            0
        } else {
            self.valid_count(n - 1) + if self.valid[n - 1] {
                1nat
            } else {
                0nat
            }
        }
    }

    /// The ray in lane `i`.
    pub fn get(&self, i: usize) -> (ray: Ray)
        requires
            i < LANES,
        ensures
            ray == self.lane(i as int),
    {
        Ray {
            origin: self.origin.get(i),
            dir: self.dir.get(i),
            radiance: self.radiance.get(i),
            throughput: self.throughput.get(i),
            valid: self.valid[i],
            tile_coord: self.tile_coord[i],
        }
    }

    /// Packs four rays, lane by lane.
    pub fn from_lanes(rays: [Ray; 4]) -> (w: WRay)
        ensures
            forall|i: int| 0 <= i < LANES ==> w.lane(i) == rays[i],
    {
        WRay {
            origin: Wec3::from_lanes(
                [rays[0].origin, rays[1].origin, rays[2].origin, rays[3].origin],
            ),
            dir: Wec3::from_lanes([rays[0].dir, rays[1].dir, rays[2].dir, rays[3].dir]),
            radiance: WSrgb::from_lanes(
                [rays[0].radiance, rays[1].radiance, rays[2].radiance, rays[3].radiance],
            ),
            throughput: WSrgb::from_lanes(
                [rays[0].throughput, rays[1].throughput, rays[2].throughput, rays[3].throughput],
            ),
            valid: [rays[0].valid, rays[1].valid, rays[2].valid, rays[3].valid],
            tile_coord: [
                rays[0].tile_coord,
                rays[1].tile_coord,
                rays[2].tile_coord,
                rays[3].tile_coord,
            ],
        }
    }

    /// Packs the rays from `start` on into one packet for the next round.
    /// Lane `i` holds ray `start + i`; where the rays run out, the lane is
    /// not valid.
    pub fn gather(rays: &[Ray], start: usize) -> (w: WRay)
        ensures
            forall|i: int|
                0 <= i < LANES && start + i < rays.len() ==> w.lane(i) == rays[start + i],
            forall|i: int| 0 <= i < LANES && start + i >= rays.len() ==> !w.lane(i).valid,
    {
        let mut lanes: [Ray; 4] = [Ray::idle(), Ray::idle(), Ray::idle(), Ray::idle()];
        let mut i: usize = 0;
        while i < LANES
            invariant
                i <= LANES,
                forall|k: int| 0 <= k < i && start + k < rays.len() ==> lanes[k] == rays[start + k],
                forall|k: int| 0 <= k < LANES && (k >= i || start + k >= rays.len()) ==> !lanes[k].valid,
            decreases LANES - i,
        {
            if start < rays.len() && i < rays.len() - start {
                lanes[i] = rays[start + i];
            }
            i += 1;
        }
        WRay::from_lanes(lanes)
    }

    /// The four rays, lane by lane.
    pub fn lanes(&self) -> (rays: [Ray; 4])
        ensures
            forall|i: int| 0 <= i < LANES ==> rays[i] == self.lane(i),
    {
        [self.get(0), self.get(1), self.get(2), self.get(3)]
    }
}

} // verus!
