//! Numbers by bit pattern, small vectors, and their four-lane packets.
use vstd::prelude::*;

verus! {

/// Number of lanes in a packet.
pub const LANES: usize = 4;

/// Bit pattern of positive zero.
pub const ZERO_BITS: u32 = 0;

/// Bit pattern of 1.0.
pub const ONE_BITS: u32 = 0x3f80_0000;

/// The sign bit of a binary32 pattern.
pub const SIGN_BIT: u32 = 0x8000_0000;

/// Bit pattern of positive infinity; every larger magnitude is a NaN.
pub const INFINITY_BITS: u32 = 0x7f80_0000;

/// A real number in IEEE 754 binary32 form, held by its bit pattern.
///
/// `==` on this type compares bit patterns: it tells the two zeros apart and
/// finds a NaN equal to itself. The order of the numbers is [`Scalar::lt`].
#[derive(Clone, Copy, Debug, PartialEq, Eq, Structural)]
pub struct Scalar {
    pub bits: u32,
}

impl Scalar {
    /// True when the sign bit is set (also for a negative zero or a NaN).
    pub open spec fn sign(self) -> bool {
        self.bits >= SIGN_BIT
    }

    /// The pattern without its sign bit.
    pub open spec fn magnitude(self) -> u32 {
        if self.bits >= SIGN_BIT {
            (self.bits - SIGN_BIT) as u32
        } else {
            self.bits
        }
    }

    /// True for a NaN: exponent all ones, fraction not zero.
    pub open spec fn spec_is_nan(self) -> bool {
        self.magnitude() > INFINITY_BITS
    }

    /// Place of a number in the order of the reals: for two numbers that are
    /// not NaN, the smaller has the smaller rank, and both zeros have rank 0.
    pub open spec fn rank(self) -> int {
        if self.sign() {
            -(self.magnitude() as int)
        } else {
            self.magnitude() as int
        }
    }

    /// `self < other` as IEEE 754 defines it: false when either is a NaN.
    pub open spec fn spec_lt(self, other: Scalar) -> bool {
        !self.is_nan() && !other.is_nan() && self.rank() < other.rank()
    }

    /// True for a number below zero. Neither zero is negative, nor is a NaN.
    pub open spec fn spec_is_negative(self) -> bool {
        !self.is_nan() && self.rank() < 0
    }

    /// Positive zero.
    pub fn zero() -> (r: Scalar)
        ensures
            r.bits == ZERO_BITS,
    {
        Scalar { bits: ZERO_BITS }
    }

    /// The number 1.0.
    pub fn one() -> (r: Scalar)
        ensures
            r.bits == ONE_BITS,
    {
        Scalar { bits: ONE_BITS }
    }

    /// Wraps a bit pattern.
    pub fn from_bits(bits: u32) -> (r: Scalar)
        ensures
            r.bits == bits,
    {
        Scalar { bits }
    }

    /// The bit pattern.
    pub fn to_bits(self) -> (r: u32)
        ensures
            r == self.bits,
    {
        self.bits
    }

    fn magnitude_bits(self) -> (r: u32)
        ensures
            r == self.magnitude(),
    {
        if self.bits >= SIGN_BIT {
            self.bits - SIGN_BIT
        } else {
            self.bits
        }
    }

    /// Tests for a NaN.
    #[verifier::when_used_as_spec(spec_is_nan)]
    pub fn is_nan(self) -> (r: bool)
        ensures
            r == self.is_nan(),
    {
        self.magnitude_bits() > INFINITY_BITS
    }

    /// Tests `self < other`.
    #[verifier::when_used_as_spec(spec_lt)]
    pub fn lt(self, other: Scalar) -> (r: bool)
        ensures
            r == self.lt(other),
    {
        let a: u32 = self.magnitude_bits();
        let b: u32 = other.magnitude_bits();
        if a > INFINITY_BITS || b > INFINITY_BITS {
            false
        } else if self.bits >= SIGN_BIT {
            if other.bits >= SIGN_BIT {
                b < a
            } else {
                a != 0 || b != 0
            }
        } else {
            other.bits < SIGN_BIT && a < b
        }
    }

    /// Tests for a number below zero.
    #[verifier::when_used_as_spec(spec_is_negative)]
    pub fn is_negative(self) -> (r: bool)
        ensures
            r == self.is_negative(),
    {
        let a: u32 = self.magnitude_bits();
        self.bits >= SIGN_BIT && a != 0 && a <= INFINITY_BITS
    }

    /// `self` held between `lo` and `hi`; a NaN counts as below `lo`.
    pub open spec fn spec_clamp(self, lo: Scalar, hi: Scalar) -> Scalar {
        if self.is_nan() || self.lt(lo) {
            lo
        } else if hi.lt(self) {
            hi
        } else {
            self
        }
    }

    /// Holds `self` between `lo` and `hi`. A NaN gives `lo`.
    #[verifier::when_used_as_spec(spec_clamp)]
    pub fn clamp(self, lo: Scalar, hi: Scalar) -> (r: Scalar)
        ensures
            r == self.clamp(lo, hi),
    {
        if self.is_nan() || self.lt(lo) {
            lo
        } else if hi.lt(self) {
            hi
        } else {
            self
        }
    }

    /// The larger of two numbers; `self` when they are equal or do not compare.
    pub open spec fn spec_max(self, other: Scalar) -> Scalar {
        if self.lt(other) {
            other
        } else {
            self
        }
    }

    /// The larger of two numbers; `self` when they are equal or do not compare.
    #[verifier::when_used_as_spec(spec_max)]
    pub fn max(self, other: Scalar) -> (r: Scalar)
        ensures
            r == self.max(other),
    {
        if self.lt(other) {
            other
        } else {
            self
        }
    }
}

/// Four numbers, one per lane.
#[derive(Clone, Copy, Debug, PartialEq, Eq)]
pub struct WScalar {
    pub lanes: [Scalar; 4],
}

impl WScalar {
    /// The number in lane `i`.
    pub open spec fn lane(self, i: int) -> Scalar {
        self.lanes[i]
    }

    /// The number in lane `i`.
    pub fn get(&self, i: usize) -> (r: Scalar)
        requires
            i < LANES,
        ensures
            r == self.lane(i as int),
    {
        self.lanes[i]
    }

    /// The same number in every lane.
    pub fn splat(x: Scalar) -> (r: WScalar)
        ensures
            forall|i: int| 0 <= i < LANES ==> r.lane(i) == x,
    {
        WScalar { lanes: [x, x, x, x] }
    }
}

/// A vector of three numbers.
#[derive(Clone, Copy, Debug, PartialEq, Eq, Structural)]
pub struct Vec3 {
    pub x: Scalar,
    pub y: Scalar,
    pub z: Scalar,
}

/// Four vectors, one per lane, stored component by component.
#[derive(Clone, Copy, Debug, PartialEq, Eq)]
pub struct Wec3 {
    pub x: WScalar,
    pub y: WScalar,
    pub z: WScalar,
}

impl Wec3 {
    /// The vector in lane `i`.
    pub open spec fn lane(self, i: int) -> Vec3 {
        Vec3 { x: self.x.lane(i), y: self.y.lane(i), z: self.z.lane(i) }
    }

    /// The vector in lane `i`.
    pub fn get(&self, i: usize) -> (r: Vec3)
        requires
            i < LANES,
        ensures
            r == self.lane(i as int),
    {
        Vec3 { x: self.x.get(i), y: self.y.get(i), z: self.z.get(i) }
    }

    /// Packs four vectors, lane by lane.
    pub fn from_lanes(v: [Vec3; 4]) -> (r: Wec3)
        ensures
            forall|i: int| 0 <= i < LANES ==> r.lane(i) == v[i],
    {
        Wec3 {
            x: WScalar { lanes: [v[0].x, v[1].x, v[2].x, v[3].x] },
            y: WScalar { lanes: [v[0].y, v[1].y, v[2].y, v[3].y] },
            z: WScalar { lanes: [v[0].z, v[1].z, v[2].z, v[3].z] },
        }
    }

    /// The same vector in every lane.
    pub fn splat(v: Vec3) -> (r: Wec3)
        ensures
            forall|i: int| 0 <= i < LANES ==> r.lane(i) == v,
    {
        Wec3 { x: WScalar::splat(v.x), y: WScalar::splat(v.y), z: WScalar::splat(v.z) }
    }
}

/// A pixel coordinate.
#[derive(Clone, Copy, Debug, PartialEq, Eq, Structural)]
pub struct Vec2u {
    pub x: usize,
    pub y: usize,
}

/// A size in pixels.
#[derive(Clone, Copy, Debug, PartialEq, Eq, Structural)]
pub struct Extent2u {
    pub w: usize,
    pub h: usize,
}

} // verus!
