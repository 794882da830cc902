//! The integrator: what becomes of each lane of a packet that met a surface.
use vstd::prelude::*;
use bumpalo::collections::Vec as BumpVec;
use crate::arena::{push_ray, push_sample, ray_items, ray_len, sample_items, sample_len};
use crate::film::ChannelSample;
use crate::hitable::WShadingPoint;
use crate::material::{lane_event, ScatteringEvent, WScatteringEvent};
use crate::math::{Scalar, Vec2u, Vec3, WScalar, LANES, ONE_BITS, ZERO_BITS};
use crate::ray::Ray;

verus! {

/// Bit pattern of 0.05, the least probability with which the roulette ends a
/// path.
pub const ROULETTE_FLOOR_BITS: u32 = 0x3d4c_cccd;

/// The roulette is idle up to this depth and engaged beyond it.
pub const ROULETTE_IDLE_DEPTH: usize = 2;

/// Most rays that one call of `integrate` adds: one for each lane.
pub const MAX_SPAWNED: usize = 4;

/// Most samples that one call of `integrate` adds: for each lane two for
/// compositing and one that ends the path.
pub const MAX_SAMPLES: usize = 12;

/// What becomes of one lane.
#[derive(Clone, Copy, Debug, PartialEq, Eq, Structural)]
pub enum LaneOutcome {
    /// The lane carried no path.
    Idle,
    /// The path ends here with this sample for this pixel.
    Finished(Vec2u, ChannelSample),
    /// The path goes on with this ray, one scattering deeper.
    Continued(Ray),
}

/// Unidirectional path tracing with Russian roulette.
#[derive(Clone, Copy, Debug, PartialEq, Eq, Structural)]
pub struct PathTracingIntegrator {
    /// A path that has scattered this often is not continued.
    pub max_bounces: usize,
}

/// The two samples that a lane gives for compositing when a camera ray
/// scatters: full coverage and the surface normal. Nothing in any other case.
pub open spec fn lane_auxiliary(depth: usize, ray: Ray, normal: Vec3, scattered: bool) -> Seq<
    (Vec2u, ChannelSample),
> {
    if ray.valid && scattered && depth == 0 {
        seq![
            (ray.tile_coord, ChannelSample::Alpha(Scalar { bits: ONE_BITS })),
            (ray.tile_coord, ChannelSample::WorldNormal(normal)),
        ]
    } else {
        Seq::empty()
    }
}

/// The compositing samples of the first `n` lanes, lane after lane.
pub open spec fn auxiliary_samples(
    depth: usize,
    intersection: WShadingPoint,
    scattered: bool,
    n: int,
) -> Seq<(Vec2u, ChannelSample)>
    decreases n,
{
    if n <= 0 {
        Seq::empty()
    } else {
        auxiliary_samples(depth, intersection, scattered, n - 1) + lane_auxiliary(
            depth,
            intersection.ray.lane(n - 1),
            intersection.normal.lane(n - 1),
            scattered,
        )
    }
}

/// The sample that ends a lane's path; nothing where the path does not end.
pub open spec fn outcome_samples(outcome: LaneOutcome) -> Seq<(Vec2u, ChannelSample)> {
    match outcome {
        LaneOutcome::Finished(pixel, sample) => seq![(pixel, sample)],
        _ => Seq::empty(),
    }
}

/// The ray with which a lane's path goes on; nothing where it does not.
pub open spec fn outcome_rays(outcome: LaneOutcome) -> Seq<Ray> {
    match outcome {
        LaneOutcome::Continued(ray) => seq![ray],
        _ => Seq::empty(),
    }
}

impl PathTracingIntegrator {
    /// Probability with which the roulette ends a path: none up to depth 2;
    /// beyond that the absorbed share, at least 0.05 and at most 1.
    pub open spec fn spec_roulette_probability(depth: usize, absorbed: Scalar) -> Scalar {
        if depth > ROULETTE_IDLE_DEPTH {
            absorbed.clamp(Scalar { bits: ROULETTE_FLOOR_BITS }, Scalar { bits: ONE_BITS })
        } else {
            Scalar { bits: ZERO_BITS }
        }
    }

    /// Probability with which the roulette ends a path at `depth`, given the
    /// share `absorbed` that the path's strongest channel has lost. The
    /// surviving path's weight is to be divided by one minus this number.
    #[verifier::when_used_as_spec(spec_roulette_probability)]
    pub fn roulette_probability(depth: usize, absorbed: Scalar) -> (p: Scalar)
        ensures
            p == Self::roulette_probability(depth, absorbed),
    {
        if depth > ROULETTE_IDLE_DEPTH {
            absorbed.clamp(Scalar::from_bits(ROULETTE_FLOOR_BITS), Scalar::one())
        } else {
            Scalar::zero()
        }
    }

    /// True when a lane takes one number from the random source: a valid
    /// lane that scattered and has bounces left.
    pub open spec fn spec_consumes_draw(&self, depth: usize, valid: bool, scattered: bool) -> bool {
        valid && scattered && depth < self.max_bounces
    }

    /// Tells whether a lane takes one number from the random source.
    #[verifier::when_used_as_spec(spec_consumes_draw)]
    pub fn consumes_draw(&self, depth: usize, valid: bool, scattered: bool) -> (r: bool)
        ensures
            r == self.consumes_draw(depth, valid, scattered),
    {
        valid && scattered && depth < self.max_bounces
    }

    /// True when a scattered path ends: it has no bounces left, or the
    /// roulette is engaged and the draw fell below its probability.
    pub open spec fn ends(&self, depth: usize, absorbed: Scalar, draw: Scalar) -> bool {
        depth >= self.max_bounces || (depth > ROULETTE_IDLE_DEPTH && draw.lt(
            Self::roulette_probability(depth, absorbed),
        ))
    }

    /// What becomes of one lane.
    pub open spec fn spec_lane_outcome(
        &self,
        depth: usize,
        ray: Ray,
        event: Option<ScatteringEvent>,
        draw: Scalar,
    ) -> LaneOutcome {
        if !ray.valid {
            LaneOutcome::Idle
        } else {
            match event {
                None => LaneOutcome::Finished(
                    ray.tile_coord,
                    if depth == 0 {
                        ChannelSample::Background(ray.radiance)
                    } else {
                        ChannelSample::Color(ray.radiance)
                    },
                ),
                Some(e) => if self.ends(depth, e.absorbed, draw) {
                    LaneOutcome::Finished(ray.tile_coord, ChannelSample::Color(ray.radiance))
                } else {
                    LaneOutcome::Continued(
                        Ray {
                            origin: e.origin,
                            dir: e.wi,
                            radiance: ray.radiance,
                            throughput: if e.throughput.is_nan() {
                                ray.throughput
                            } else {
                                e.throughput
                            },
                            valid: true,
                            tile_coord: ray.tile_coord,
                        },
                    )
                },
            }
        }
    }

    /// Decides what becomes of one lane.
    ///
    /// `ray` is the lane as it arrived, its radiance already holding what the
    /// surface emits. `event` is the sampled scattering, or `None` where the
    /// surface absorbed the path or the ray left the scene. `draw` is a
    /// uniform number from [0, 1); it is looked at only where
    /// [`Self::consumes_draw`] holds.
    #[verifier::when_used_as_spec(spec_lane_outcome)]
    pub fn lane_outcome(
        &self,
        depth: usize,
        ray: Ray,
        event: Option<ScatteringEvent>,
        draw: Scalar,
    ) -> (outcome: LaneOutcome)
        ensures
            outcome == self.lane_outcome(depth, ray, event, draw),
    {
        if !ray.valid {
            return LaneOutcome::Idle;
        }
        match event {
            None => {
                if depth == 0 {
                    LaneOutcome::Finished(ray.tile_coord, ChannelSample::Background(ray.radiance))
                } else {
                    LaneOutcome::Finished(ray.tile_coord, ChannelSample::Color(ray.radiance))
                }
            },
            Some(e) => {
                if depth >= self.max_bounces || (depth > ROULETTE_IDLE_DEPTH && draw.lt(
                    Self::roulette_probability(depth, e.absorbed),
                )) {
                    LaneOutcome::Finished(ray.tile_coord, ChannelSample::Color(ray.radiance))
                } else {
                    let mut next: Ray = ray;
                    next.origin = e.origin;
                    next.dir = e.wi;
                    if !e.throughput.is_nan() {
                        next.throughput = e.throughput;
                    }
                    LaneOutcome::Continued(next)
                }
            },
        }
    }
}

/// The samples that end paths, lane after lane.
pub open spec fn finished_samples(outcomes: Seq<LaneOutcome>) -> Seq<(Vec2u, ChannelSample)>
    decreases outcomes.len(),
{
    if outcomes.len() == 0 {
        Seq::empty()
    } else {
        finished_samples(outcomes.drop_last()) + outcome_samples(outcomes.last())
    }
}

/// The rays with which paths go on, lane after lane.
pub open spec fn continued_rays(outcomes: Seq<LaneOutcome>) -> Seq<Ray>
    decreases outcomes.len(),
{
    if outcomes.len() == 0 {
        Seq::empty()
    } else {
        continued_rays(outcomes.drop_last()) + outcome_rays(outcomes.last())
    }
}

/// A strategy that turns one packet at a surface into finished samples and
/// rays to trace further.
pub trait Integrator: Send + Sync {
    /// What becomes of each lane of the packet.
    spec fn outcomes(
        &self,
        depth: usize,
        intersection: WShadingPoint,
        event: Option<WScatteringEvent>,
        draws: WScalar,
    ) -> Seq<LaneOutcome>;

    /// The samples that the strategy writes besides those that end a path.
    spec fn auxiliary(
        &self,
        depth: usize,
        intersection: WShadingPoint,
        event: Option<WScatteringEvent>,
        draws: WScalar,
    ) -> Seq<(Vec2u, ChannelSample)>;

    /// Every valid lane is accounted for once: its path ends with one
    /// `Color` or `Background` sample or goes on with one valid ray, never
    /// both and never neither, and either belongs to the lane's pixel. A
    /// lane that is not valid gives nothing.
    proof fn lemma_lane_accounted_once(
        &self,
        depth: usize,
        intersection: WShadingPoint,
        event: Option<WScatteringEvent>,
        draws: WScalar,
        lane: int,
    )
        requires
            0 <= lane < LANES,
        ensures
            self.outcomes(depth, intersection, event, draws).len() == LANES,
            !intersection.ray.lane(lane).valid ==> self.outcomes(
                depth,
                intersection,
                event,
                draws,
            )[lane] is Idle,
            intersection.ray.lane(lane).valid ==> match self.outcomes(
                depth,
                intersection,
                event,
                draws,
            )[lane] {
                LaneOutcome::Idle => false,
                LaneOutcome::Finished(pixel, sample) => sample.is_terminal() && pixel
                    == intersection.ray.lane(lane).tile_coord,
                LaneOutcome::Continued(ray) => ray.valid && ray.tile_coord
                    == intersection.ray.lane(lane).tile_coord,
            },
    ;

    /// No sample that ends a path is among the auxiliary ones.
    proof fn lemma_auxiliary_ends_no_path(
        &self,
        depth: usize,
        intersection: WShadingPoint,
        event: Option<WScatteringEvent>,
        draws: WScalar,
        k: int,
    )
        requires
            0 <= k < self.auxiliary(depth, intersection, event, draws).len(),
        ensures
            !self.auxiliary(depth, intersection, event, draws)[k].1.is_terminal(),
    ;

    /// Integrates one packet that met a surface.
    ///
    /// `depth` counts the scatterings that the paths of the packet have
    /// behind them; a camera ray has depth 0. `intersection` holds the packet
    /// and the surface normal, the radiance of each lane already raised by
    /// what the surface emits. `scattering_event` is the sampled scattering,
    /// or `None` where the surface absorbed the paths or the rays left the
    /// scene. `draws` holds one uniform number from [0, 1) for each lane.
    ///
    /// The rays to trace further, at `depth + 1`, are added to
    /// `spawned_rays`, and the samples for the film to `output_samples`;
    /// what the buffers held stays in front.
    fn integrate(
        &self,
        depth: usize,
        intersection: WShadingPoint,
        scattering_event: Option<WScatteringEvent>,
        draws: WScalar,
        spawned_rays: &mut BumpVec<'_, Ray>,
        output_samples: &mut BumpVec<'_, (Vec2u, ChannelSample)>,
    )
        requires
            ray_items(*old(spawned_rays)).len() + continued_rays(
                self.outcomes(depth, intersection, scattering_event, draws),
            ).len() <= usize::MAX,
            sample_items(*old(output_samples)).len() + self.auxiliary(
                depth,
                intersection,
                scattering_event,
                draws,
            ).len() + finished_samples(
                self.outcomes(depth, intersection, scattering_event, draws),
            ).len() <= usize::MAX,
        ensures
            ray_items(*final(spawned_rays)) == ray_items(*old(spawned_rays)) + continued_rays(
                self.outcomes(depth, intersection, scattering_event, draws),
            ),
            sample_items(*final(output_samples)) == sample_items(*old(output_samples))
                + self.auxiliary(depth, intersection, scattering_event, draws) + finished_samples(
                self.outcomes(depth, intersection, scattering_event, draws),
            ),
    ;
}

impl Integrator for PathTracingIntegrator {
    open spec fn outcomes(
        &self,
        depth: usize,
        intersection: WShadingPoint,
        event: Option<WScatteringEvent>,
        draws: WScalar,
    ) -> Seq<LaneOutcome> {
        Seq::new(
            LANES as nat,
            |i: int|
                self.lane_outcome(
                    depth,
                    intersection.ray.lane(i),
                    lane_event(event, i),
                    draws.lane(i),
                ),
        )
    }

    open spec fn auxiliary(
        &self,
        depth: usize,
        intersection: WShadingPoint,
        event: Option<WScatteringEvent>,
        draws: WScalar,
    ) -> Seq<(Vec2u, ChannelSample)> {
        auxiliary_samples(depth, intersection, event is Some, LANES as int)
    }

    proof fn lemma_lane_accounted_once(
        &self,
        depth: usize,
        intersection: WShadingPoint,
        event: Option<WScatteringEvent>,
        draws: WScalar,
        lane: int,
    ) {
    }

    proof fn lemma_auxiliary_ends_no_path(
        &self,
        depth: usize,
        intersection: WShadingPoint,
        event: Option<WScatteringEvent>,
        draws: WScalar,
        k: int,
    ) {
        lemma_auxiliary_samples_not_terminal(depth, intersection, event is Some, LANES as int, k);
    }

    fn integrate(
        &self,
        depth: usize,
        intersection: WShadingPoint,
        scattering_event: Option<WScatteringEvent>,
        draws: WScalar,
        spawned_rays: &mut BumpVec<'_, Ray>,
        output_samples: &mut BumpVec<'_, (Vec2u, ChannelSample)>,
    ) {
        let scattered: bool = scattering_event.is_some();
        let ghost rays0 = ray_items(*spawned_rays);
        let ghost samples0 = sample_items(*output_samples);
        let ghost aux = auxiliary_samples(depth, intersection, scattered, LANES as int);
        let ghost outcomes = self.outcomes(depth, intersection, scattering_event, draws);
        let mut i: usize = 0;
        while i < LANES
            invariant
                i <= LANES,
                scattered == (scattering_event is Some),
                aux == auxiliary_samples(depth, intersection, scattered, LANES as int),
                samples0.len() + aux.len() <= usize::MAX,
                ray_items(*spawned_rays) == rays0,
                sample_items(*output_samples) == samples0 + auxiliary_samples(
                    depth,
                    intersection,
                    scattered,
                    i as int,
                ),
            decreases LANES - i,
        {
            let ray: Ray = intersection.ray.get(i);
            proof {
                lemma_auxiliary_samples_grow(depth, intersection, scattered, i + 1, LANES as int);
            }
            if ray.valid && scattered && depth == 0 {
                let normal: Vec3 = intersection.normal.get(i);
                push_sample(output_samples, (ray.tile_coord, ChannelSample::Alpha(Scalar::one())));
                push_sample(output_samples, (ray.tile_coord, ChannelSample::WorldNormal(normal)));
            }
            assert(sample_items(*output_samples) =~= samples0 + auxiliary_samples(
                depth,
                intersection,
                scattered,
                i + 1,
            ));
            i += 1;
        }
        let ghost samples1 = sample_items(*output_samples);
        let mut j: usize = 0;
        while j < LANES
            invariant
                j <= LANES,
                outcomes == self.outcomes(depth, intersection, scattering_event, draws),
                rays0.len() + continued_rays(outcomes).len() <= usize::MAX,
                samples1.len() + finished_samples(outcomes).len() <= usize::MAX,
                ray_items(*spawned_rays) == rays0 + continued_rays(outcomes.take(j as int)),
                sample_items(*output_samples) == samples1 + finished_samples(
                    outcomes.take(j as int),
                ),
            decreases LANES - j,
        {
            let ray: Ray = intersection.ray.get(j);
            let event: Option<ScatteringEvent> = match &scattering_event {
                Some(e) => Some(e.get(j)),
                None => None,
            };
            let outcome: LaneOutcome = self.lane_outcome(depth, ray, event, draws.get(j));
            proof {
                lemma_outputs_grow(outcomes, j + 1);
                assert(outcomes.take(j + 1).drop_last() =~= outcomes.take(j as int));
                assert(outcomes.take(j + 1).last() == outcome);
            }
            match outcome {
                LaneOutcome::Finished(pixel, sample) => {
                    push_sample(output_samples, (pixel, sample));
                },
                LaneOutcome::Continued(next) => {
                    push_ray(spawned_rays, next);
                },
                LaneOutcome::Idle => {},
            }
            assert(ray_items(*spawned_rays) =~= rays0 + continued_rays(outcomes.take(j + 1)));
            assert(sample_items(*output_samples) =~= samples1 + finished_samples(
                outcomes.take(j + 1),
            ));
            j += 1;
        }
        assert(outcomes.take(LANES as int) =~= outcomes);
        assert(sample_items(*output_samples) =~= samples0 + aux + finished_samples(outcomes));
    }
}

impl PathTracingIntegrator {
    /// Integrates one packet as [`Integrator::integrate`] does, after making
    /// sure that the buffers can take it.
    ///
    /// Returns `false`, and leaves both buffers as they are, when
    /// `spawned_rays` has no room for [`MAX_SPAWNED`] more rays or
    /// `output_samples` none for [`MAX_SAMPLES`] more samples.
    pub fn try_integrate(
        &self,
        depth: usize,
        intersection: WShadingPoint,
        scattering_event: Option<WScatteringEvent>,
        draws: WScalar,
        spawned_rays: &mut BumpVec<'_, Ray>,
        output_samples: &mut BumpVec<'_, (Vec2u, ChannelSample)>,
    ) -> (done: bool)
        ensures
            done == (ray_items(*old(spawned_rays)).len() + MAX_SPAWNED <= usize::MAX
                && sample_items(*old(output_samples)).len() + MAX_SAMPLES <= usize::MAX),
            done ==> ray_items(*final(spawned_rays)) == ray_items(*old(spawned_rays))
                + continued_rays(self.outcomes(depth, intersection, scattering_event, draws)),
            done ==> sample_items(*final(output_samples)) == sample_items(*old(output_samples))
                + self.auxiliary(depth, intersection, scattering_event, draws) + finished_samples(
                self.outcomes(depth, intersection, scattering_event, draws),
            ),
            !done ==> ray_items(*final(spawned_rays)) == ray_items(*old(spawned_rays)),
            !done ==> sample_items(*final(output_samples)) == sample_items(*old(output_samples)),
    {
        if ray_len(spawned_rays) > usize::MAX - MAX_SPAWNED || sample_len(output_samples)
            > usize::MAX - MAX_SAMPLES {
            return false;
        }
        proof {
            lemma_output_sizes(self.outcomes(depth, intersection, scattering_event, draws));
            lemma_auxiliary_size(depth, intersection, scattering_event is Some, LANES as int);
        }
        self.integrate(depth, intersection, scattering_event, draws, spawned_rays, output_samples);
        true
    }
}

/// Each lane gives at most one sample that ends a path or one ray that goes
/// on.
pub proof fn lemma_output_sizes(outcomes: Seq<LaneOutcome>)
    ensures
        finished_samples(outcomes).len() + continued_rays(outcomes).len() <= outcomes.len(),
    decreases outcomes.len(),
{
    if outcomes.len() > 0 {
        lemma_output_sizes(outcomes.drop_last());
    }
}

/// Each lane gives at most two compositing samples.
pub proof fn lemma_auxiliary_size(
    depth: usize,
    intersection: WShadingPoint,
    scattered: bool,
    n: int,
)
    requires
        0 <= n,
    ensures
        auxiliary_samples(depth, intersection, scattered, n).len() <= 2 * n,
    decreases n,
{
    if n > 0 {
        lemma_auxiliary_size(depth, intersection, scattered, n - 1);
    }
}

/// Going through more lanes only adds compositing samples.
pub proof fn lemma_auxiliary_samples_grow(
    depth: usize,
    intersection: WShadingPoint,
    scattered: bool,
    n: int,
    m: int,
)
    requires
        n <= m,
    ensures
        auxiliary_samples(depth, intersection, scattered, n).len() <= auxiliary_samples(
            depth,
            intersection,
            scattered,
            m,
        ).len(),
    decreases m - n,
{
    if n < m {
        lemma_auxiliary_samples_grow(depth, intersection, scattered, n, m - 1);
    }
}

/// The first `n` lanes give no more finished samples and no more continued
/// rays than all of them.
pub proof fn lemma_outputs_grow(outcomes: Seq<LaneOutcome>, n: int)
    requires
        0 <= n <= outcomes.len(),
    ensures
        finished_samples(outcomes.take(n)).len() <= finished_samples(outcomes).len(),
        continued_rays(outcomes.take(n)).len() <= continued_rays(outcomes).len(),
    decreases outcomes.len(),
{
    if n < outcomes.len() {
        lemma_outputs_grow(outcomes.drop_last(), n);
        assert(outcomes.drop_last().take(n) =~= outcomes.take(n));
    } else {
        assert(outcomes.take(n) =~= outcomes);
    }
}

/// No compositing sample ends a path.
pub proof fn lemma_auxiliary_samples_not_terminal(
    depth: usize,
    intersection: WShadingPoint,
    scattered: bool,
    n: int,
    k: int,
)
    requires
        0 <= k < auxiliary_samples(depth, intersection, scattered, n).len(),
    ensures
        !auxiliary_samples(depth, intersection, scattered, n)[k].1.is_terminal(),
    decreases n,
{
    if n > 0 {
        let head = auxiliary_samples(depth, intersection, scattered, n - 1);
        if k < head.len() {
            lemma_auxiliary_samples_not_terminal(depth, intersection, scattered, n - 1, k);
        }
    }
}

} // verus!
