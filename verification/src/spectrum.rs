//! Colour triples: radiance and path weight.
use vstd::prelude::*;
use crate::math::{Scalar, WScalar, LANES};

verus! {

/// A colour with red, green and blue channels.
#[derive(Clone, Copy, Debug, PartialEq, Eq, Structural)]
pub struct Srgb {
    pub r: Scalar,
    pub g: Scalar,
    pub b: Scalar,
}

impl Srgb {
    /// True when at least one channel is a NaN.
    pub open spec fn spec_is_nan(self) -> bool {
        self.r.is_nan() || self.g.is_nan() || self.b.is_nan()
    }

    /// Tests whether at least one channel is a NaN.
    #[verifier::when_used_as_spec(spec_is_nan)]
    pub fn is_nan(self) -> (r: bool)
        ensures
            r == self.is_nan(),
    {
        self.r.is_nan() || self.g.is_nan() || self.b.is_nan()
    }

    /// True for a usable path weight: no channel is a NaN and none is below
    /// zero.
    pub open spec fn spec_is_weight(self) -> bool {
        &&& !self.is_nan()
        &&& !self.r.is_negative()
        &&& !self.g.is_negative()
        &&& !self.b.is_negative()
    }

    /// Tests for a usable path weight.
    #[verifier::when_used_as_spec(spec_is_weight)]
    pub fn is_weight(self) -> (r: bool)
        ensures
            r == self.is_weight(),
    {
        !self.is_nan() && !self.r.is_negative() && !self.g.is_negative() && !self.b.is_negative()
    }

    /// The largest channel.
    pub open spec fn spec_max_channel(self) -> Scalar {
        self.r.max(self.g).max(self.b)
    }

    /// The largest channel. Where no channel is a NaN, the result is one of
    /// the three and none of them is larger.
    #[verifier::when_used_as_spec(spec_max_channel)]
    pub fn max_channel(self) -> (m: Scalar)
        ensures
            m == self.max_channel(),
            m == self.r || m == self.g || m == self.b,
            !self.is_nan() ==> !m.lt(self.r) && !m.lt(self.g) && !m.lt(self.b),
    {
        self.r.max(self.g).max(self.b)
    }

    /// All channels zero.
    pub fn black() -> (c: Srgb)
        ensures
            c == (Srgb { r: Scalar { bits: 0 }, g: Scalar { bits: 0 }, b: Scalar { bits: 0 } }),
    {
        Srgb { r: Scalar::zero(), g: Scalar::zero(), b: Scalar::zero() }
    }

    /// All channels 1.0: the weight of a path that has not scattered yet.
    pub fn white() -> (c: Srgb)
        ensures
            c.r.bits == crate::math::ONE_BITS,
            c.g.bits == crate::math::ONE_BITS,
            c.b.bits == crate::math::ONE_BITS,
    {
        Srgb { r: Scalar::one(), g: Scalar::one(), b: Scalar::one() }
    }
}

/// Four colours, one per lane, stored channel by channel.
#[derive(Clone, Copy, Debug, PartialEq, Eq)]
pub struct WSrgb {
    pub r: WScalar,
    pub g: WScalar,
    pub b: WScalar,
}

impl WSrgb {
    /// The colour in lane `i`.
    pub open spec fn lane(self, i: int) -> Srgb {
        Srgb { r: self.r.lane(i), g: self.g.lane(i), b: self.b.lane(i) }
    }

    /// The colour in lane `i`.
    pub fn get(&self, i: usize) -> (c: Srgb)
        requires
            i < LANES,
        ensures
            c == self.lane(i as int),
    {
        Srgb { r: self.r.get(i), g: self.g.get(i), b: self.b.get(i) }
    }

    /// Packs four colours, lane by lane.
    pub fn from_lanes(c: [Srgb; 4]) -> (w: WSrgb)
        ensures
            forall|i: int| 0 <= i < LANES ==> w.lane(i) == c[i],
    {
        WSrgb {
            r: WScalar { lanes: [c[0].r, c[1].r, c[2].r, c[3].r] },
            g: WScalar { lanes: [c[0].g, c[1].g, c[2].g, c[3].g] },
            b: WScalar { lanes: [c[0].b, c[1].b, c[2].b, c[3].b] },
        }
    }

    /// The same colour in every lane.
    pub fn splat(c: Srgb) -> (w: WSrgb)
        ensures
            forall|i: int| 0 <= i < LANES ==> w.lane(i) == c,
    {
        WSrgb { r: WScalar::splat(c.r), g: WScalar::splat(c.g), b: WScalar::splat(c.b) }
    }

    /// The largest channel of each lane.
    pub fn max_channel(&self) -> (m: WScalar)
        ensures
            forall|i: int| 0 <= i < LANES ==> m.lane(i) == self.lane(i).max_channel(),
    {
        WScalar {
            lanes: [
                self.get(0).max_channel(),
                self.get(1).max_channel(),
                self.get(2).max_channel(),
                self.get(3).max_channel(),
            ],
        }
    }
}

} // verus!
