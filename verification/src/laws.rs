//! What holds of the path-tracing integrator on every input, proved from the
//! definitions that its contracts use.
use vstd::prelude::*;
use crate::film::ChannelSample;
use crate::hitable::WShadingPoint;
use crate::integrator::{
    auxiliary_samples, continued_rays, finished_samples, lane_auxiliary, Integrator, LaneOutcome,
    PathTracingIntegrator, ROULETTE_FLOOR_BITS, ROULETTE_IDLE_DEPTH,
};
use crate::material::{ScatteringEvent, WScatteringEvent};
use crate::math::{Scalar, Vec2u, Vec3, WScalar, LANES, ONE_BITS, ZERO_BITS};
use crate::ray::Ray;

verus! {

/// Bit pattern of 0.95.
pub const NINETEEN_TWENTIETHS_BITS: u32 = 0x3f73_3333;

/// Number of `Alpha` samples in a sequence.
pub open spec fn alpha_count(samples: Seq<(Vec2u, ChannelSample)>) -> nat {
    samples.filter(|s: (Vec2u, ChannelSample)| s.1 is Alpha).len()
}

/// Number of `WorldNormal` samples in a sequence.
pub open spec fn world_normal_count(samples: Seq<(Vec2u, ChannelSample)>) -> nat {
    samples.filter(|s: (Vec2u, ChannelSample)| s.1 is WorldNormal).len()
}

/// Up to depth 2 the roulette is idle: its probability is zero, no draw
/// whatever ends a path, and a scattered path ends only for want of bounces.
pub proof fn lemma_roulette_idle_through_depth_two(
    integrator: PathTracingIntegrator,
    depth: usize,
    absorbed: Scalar,
    draw: Scalar,
)
    requires
        depth <= ROULETTE_IDLE_DEPTH,
    ensures
        PathTracingIntegrator::roulette_probability(depth, absorbed) == (Scalar {
            bits: ZERO_BITS,
        }),
        integrator.ends(depth, absorbed, draw) == (depth >= integrator.max_bounces),
{
}

/// Beyond depth 2 the roulette's probability is a number from 0.05 to 1,
/// whatever the absorbed share is, a NaN included.
pub proof fn lemma_roulette_probability_bounds(depth: usize, absorbed: Scalar)
    requires
        depth > ROULETTE_IDLE_DEPTH,
    ensures
        !PathTracingIntegrator::roulette_probability(depth, absorbed).is_nan(),
        (Scalar { bits: ROULETTE_FLOOR_BITS }).rank() <= PathTracingIntegrator::roulette_probability(
            depth,
            absorbed,
        ).rank(),
        PathTracingIntegrator::roulette_probability(depth, absorbed).rank() <= (Scalar {
            bits: ONE_BITS,
        }).rank(),
{
}

/// Beyond depth 2 the roulette's probability lies between 0 and 0.95 as long
/// as the absorbed share is not above 0.95.
pub proof fn lemma_roulette_probability_below_certainty(depth: usize, absorbed: Scalar)
    requires
        depth > ROULETTE_IDLE_DEPTH,
        !(Scalar { bits: NINETEEN_TWENTIETHS_BITS }).lt(absorbed),
    ensures
        !PathTracingIntegrator::roulette_probability(depth, absorbed).is_nan(),
        0 <= PathTracingIntegrator::roulette_probability(depth, absorbed).rank(),
        PathTracingIntegrator::roulette_probability(depth, absorbed).rank() <= (Scalar {
            bits: NINETEEN_TWENTIETHS_BITS,
        }).rank(),
{
}

/// A draw matters only to a lane that consumes one.
pub proof fn lemma_draw_ignored_unless_consumed(
    integrator: PathTracingIntegrator,
    depth: usize,
    ray: Ray,
    event: Option<ScatteringEvent>,
    draw: Scalar,
    other: Scalar,
)
    requires
        !integrator.consumes_draw(depth, ray.valid, event is Some),
    ensures
        integrator.lane_outcome(depth, ray, event, draw) == integrator.lane_outcome(
            depth,
            ray,
            event,
            other,
        ),
{
}

/// The integrator adds no light of its own: a sample that ends a path holds
/// the radiance with which the lane arrived, and a ray that goes on carries
/// it unchanged, for the same pixel. Its weight is the one that arrived or
/// the one that the scattering gave.
pub proof fn lemma_radiance_carried_unchanged(
    integrator: PathTracingIntegrator,
    depth: usize,
    ray: Ray,
    event: Option<ScatteringEvent>,
    draw: Scalar,
)
    ensures
        match integrator.lane_outcome(depth, ray, event, draw) {
            LaneOutcome::Idle => !ray.valid,
            LaneOutcome::Finished(pixel, sample) => pixel == ray.tile_coord && (sample
                == ChannelSample::Color(ray.radiance) || sample == ChannelSample::Background(
                ray.radiance,
            )),
            LaneOutcome::Continued(next) => next.radiance == ray.radiance && next.tile_coord
                == ray.tile_coord && event is Some && (next.throughput == ray.throughput
                || next.throughput == event->0.throughput),
        },
{
}

/// The weight of a continued path is usable: where the weight that arrived
/// has no NaN and no negative channel, and the weight that the scattering
/// gave has no negative channel, the ray that goes on has no NaN and no
/// negative channel in its weight.
pub proof fn lemma_continued_weight_usable(
    integrator: PathTracingIntegrator,
    depth: usize,
    ray: Ray,
    event: ScatteringEvent,
    draw: Scalar,
)
    requires
        ray.throughput.is_weight(),
        !event.throughput.r.is_negative(),
        !event.throughput.g.is_negative(),
        !event.throughput.b.is_negative(),
    ensures
        integrator.lane_outcome(depth, ray, Some(event), draw) matches LaneOutcome::Continued(next)
            ==> next.throughput.is_weight(),
{
}

/// A camera ray that scatters gives, for its pixel, one `Alpha` sample of
/// value 1 and one `WorldNormal` sample with the surface normal, and nothing
/// else for compositing. Any other lane gives no compositing sample.
pub proof fn lemma_lane_auxiliary_once(depth: usize, ray: Ray, normal: Vec3, scattered: bool)
    ensures
        depth == 0 && scattered && ray.valid ==> lane_auxiliary(depth, ray, normal, scattered)
            == seq![
            (ray.tile_coord, ChannelSample::Alpha(Scalar { bits: ONE_BITS })),
            (ray.tile_coord, ChannelSample::WorldNormal(normal)),
        ],
        depth == 0 && scattered && ray.valid ==> alpha_count(
            lane_auxiliary(depth, ray, normal, scattered),
        ) == 1 && world_normal_count(lane_auxiliary(depth, ray, normal, scattered)) == 1,
        depth > 0 || !scattered || !ray.valid ==> lane_auxiliary(depth, ray, normal, scattered)
            == Seq::<(Vec2u, ChannelSample)>::empty(),
{
    let alpha = |s: (Vec2u, ChannelSample)| s.1 is Alpha;
    let world_normal = |s: (Vec2u, ChannelSample)| s.1 is WorldNormal;
    let a = (ray.tile_coord, ChannelSample::Alpha(Scalar { bits: ONE_BITS }));
    let n = (ray.tile_coord, ChannelSample::WorldNormal(normal));
    lemma_filter_two(a, n, alpha);
    lemma_filter_two(a, n, world_normal);
}

/// Filtering a sequence of two keeps those of the two that pass.
proof fn lemma_filter_two<A>(x: A, y: A, pred: spec_fn(A) -> bool)
    ensures
        seq![x, y].filter(pred).len() == (if pred(x) {
            1nat
        } else {
            0nat
        }) + (if pred(y) {
            1nat
        } else {
            0nat
        }),
{
    reveal_with_fuel(Seq::filter, 3);
    let s = seq![x, y];
    assert(s.drop_last() =~= seq![x]);
    assert(s.drop_last().drop_last() =~= Seq::<A>::empty());
}

/// Whatever the strategy, the lanes of a packet are accounted for one by
/// one: the samples that end paths and the rays that go on are together as
/// many as the valid lanes, every such sample is a `Color` or a `Background`,
/// and every such ray is valid.
pub proof fn lemma_contributions_match_valid_lanes<I: Integrator>(
    integrator: &I,
    depth: usize,
    intersection: WShadingPoint,
    event: Option<WScatteringEvent>,
    draws: WScalar,
)
    ensures
        finished_samples(integrator.outcomes(depth, intersection, event, draws)).len()
            + continued_rays(integrator.outcomes(depth, intersection, event, draws)).len()
            == intersection.ray.valid_count(LANES as int),
        forall|k: int|
            0 <= k < finished_samples(integrator.outcomes(depth, intersection, event, draws)).len()
                ==> (#[trigger] finished_samples(
                integrator.outcomes(depth, intersection, event, draws),
            )[k]).1.is_terminal(),
        forall|k: int|
            0 <= k < continued_rays(integrator.outcomes(depth, intersection, event, draws)).len()
                ==> (#[trigger] continued_rays(
                integrator.outcomes(depth, intersection, event, draws),
            )[k]).valid,
{
    let outcomes = integrator.outcomes(depth, intersection, event, draws);
    integrator.lemma_lane_accounted_once(depth, intersection, event, draws, 0);
    lemma_contributions_of_first_lanes(integrator, depth, intersection, event, draws, LANES as int);
    assert(outcomes.take(LANES as int) =~= outcomes);
}

/// The statement of [`lemma_contributions_match_valid_lanes`] for the first
/// `n` lanes.
proof fn lemma_contributions_of_first_lanes<I: Integrator>(
    integrator: &I,
    depth: usize,
    intersection: WShadingPoint,
    event: Option<WScatteringEvent>,
    draws: WScalar,
    n: int,
)
    requires
        0 <= n <= LANES,
        integrator.outcomes(depth, intersection, event, draws).len() == LANES,
    ensures
        finished_samples(integrator.outcomes(depth, intersection, event, draws).take(n)).len()
            + continued_rays(integrator.outcomes(depth, intersection, event, draws).take(n)).len()
            == intersection.ray.valid_count(n),
        forall|k: int|
            0 <= k < finished_samples(
                integrator.outcomes(depth, intersection, event, draws).take(n),
            ).len() ==> (#[trigger] finished_samples(
                integrator.outcomes(depth, intersection, event, draws).take(n),
            )[k]).1.is_terminal(),
        forall|k: int|
            0 <= k < continued_rays(
                integrator.outcomes(depth, intersection, event, draws).take(n),
            ).len() ==> (#[trigger] continued_rays(
                integrator.outcomes(depth, intersection, event, draws).take(n),
            )[k]).valid,
    decreases n,
{
    let outcomes = integrator.outcomes(depth, intersection, event, draws);
    if n > 0 {
        lemma_contributions_of_first_lanes(integrator, depth, intersection, event, draws, n - 1);
        integrator.lemma_lane_accounted_once(depth, intersection, event, draws, n - 1);
        assert(outcomes.take(n).drop_last() =~= outcomes.take(n - 1));
        assert(outcomes.take(n).last() == outcomes[n - 1]);
    }
}

/// Compositing samples in one call: where a packet of camera rays scatters,
/// the samples that `integrate` adds hold as many `Alpha` samples as there
/// are valid lanes, and as many `WorldNormal` samples. At any depth beyond 0,
/// and where the packet did not scatter, they hold none.
pub proof fn lemma_auxiliary_once_per_camera_lane(
    integrator: PathTracingIntegrator,
    depth: usize,
    intersection: WShadingPoint,
    event: Option<WScatteringEvent>,
    draws: WScalar,
)
    ensures
        depth == 0 && event is Some ==> alpha_count(
            integrator.auxiliary(depth, intersection, event, draws) + finished_samples(
                integrator.outcomes(depth, intersection, event, draws),
            ),
        ) == intersection.ray.valid_count(LANES as int),
        depth == 0 && event is Some ==> world_normal_count(
            integrator.auxiliary(depth, intersection, event, draws) + finished_samples(
                integrator.outcomes(depth, intersection, event, draws),
            ),
        ) == intersection.ray.valid_count(LANES as int),
        depth > 0 || event is None ==> alpha_count(
            integrator.auxiliary(depth, intersection, event, draws) + finished_samples(
                integrator.outcomes(depth, intersection, event, draws),
            ),
        ) == 0,
        depth > 0 || event is None ==> world_normal_count(
            integrator.auxiliary(depth, intersection, event, draws) + finished_samples(
                integrator.outcomes(depth, intersection, event, draws),
            ),
        ) == 0,
{
    let alpha = |s: (Vec2u, ChannelSample)| s.1 is Alpha;
    let world_normal = |s: (Vec2u, ChannelSample)| s.1 is WorldNormal;
    let auxiliary = integrator.auxiliary(depth, intersection, event, draws);
    let finished = finished_samples(integrator.outcomes(depth, intersection, event, draws));
    lemma_contributions_match_valid_lanes(&integrator, depth, intersection, event, draws);
    lemma_filter_none(finished, alpha);
    lemma_filter_none(finished, world_normal);
    lemma_auxiliary_counts(depth, intersection, event is Some, LANES as int);
    Seq::filter_distributes_over_add(auxiliary, finished, alpha);
    Seq::filter_distributes_over_add(auxiliary, finished, world_normal);
}

/// The compositing samples of the first `n` lanes hold one `Alpha` and one
/// `WorldNormal` for each valid lane where camera rays scattered, and are
/// empty otherwise.
proof fn lemma_auxiliary_counts(
    depth: usize,
    intersection: WShadingPoint,
    scattered: bool,
    n: int,
)
    requires
        0 <= n <= LANES,
    ensures
        depth == 0 && scattered ==> alpha_count(
            auxiliary_samples(depth, intersection, scattered, n),
        ) == intersection.ray.valid_count(n) && world_normal_count(
            auxiliary_samples(depth, intersection, scattered, n),
        ) == intersection.ray.valid_count(n),
        depth > 0 || !scattered ==> auxiliary_samples(depth, intersection, scattered, n).len()
            == 0,
        alpha_count(Seq::<(Vec2u, ChannelSample)>::empty()) == 0,
        world_normal_count(Seq::<(Vec2u, ChannelSample)>::empty()) == 0,
    decreases n,
{
    let alpha = |s: (Vec2u, ChannelSample)| s.1 is Alpha;
    let world_normal = |s: (Vec2u, ChannelSample)| s.1 is WorldNormal;
    reveal_with_fuel(Seq::filter, 1);
    if n > 0 {
        lemma_auxiliary_counts(depth, intersection, scattered, n - 1);
        let head = auxiliary_samples(depth, intersection, scattered, n - 1);
        let ray = intersection.ray.lane(n - 1);
        let normal = intersection.normal.lane(n - 1);
        let last = lane_auxiliary(depth, ray, normal, scattered);
        lemma_lane_auxiliary_once(depth, ray, normal, scattered);
        Seq::filter_distributes_over_add(head, last, alpha);
        Seq::filter_distributes_over_add(head, last, world_normal);
    }
}

/// Filtering a sequence in which nothing passes leaves nothing.
proof fn lemma_filter_none<A>(s: Seq<A>, pred: spec_fn(A) -> bool)
    requires
        forall|k: int| 0 <= k < s.len() ==> !pred(#[trigger] s[k]),
    ensures
        s.filter(pred).len() == 0,
    decreases s.len(),
{
    reveal_with_fuel(Seq::filter, 1);
    if s.len() > 0 {
        lemma_filter_none(s.drop_last(), pred);
    }
}

/// Weights of the rays that one call spawns: where every valid lane arrived
/// with a weight that has no NaN and no negative channel, and the scattering
/// gave no lane a negative channel, every ray that goes on has a weight
/// without NaN and without negative channel.
pub proof fn lemma_spawned_weights_usable(
    integrator: PathTracingIntegrator,
    depth: usize,
    intersection: WShadingPoint,
    event: WScatteringEvent,
    draws: WScalar,
)
    requires
        forall|i: int|
            0 <= i < LANES && (#[trigger] intersection.ray.lane(i)).valid
                ==> intersection.ray.lane(i).throughput.is_weight(),
        forall|i: int|
            0 <= i < LANES && intersection.ray.lane(i).valid ==> {
                &&& !(#[trigger] event.lane(i)).throughput.r.is_negative()
                &&& !event.lane(i).throughput.g.is_negative()
                &&& !event.lane(i).throughput.b.is_negative()
            },
    ensures
        forall|k: int|
            0 <= k < continued_rays(
                integrator.outcomes(depth, intersection, Some(event), draws),
            ).len() ==> (#[trigger] continued_rays(
                integrator.outcomes(depth, intersection, Some(event), draws),
            )[k]).throughput.is_weight(),
{
    let outcomes = integrator.outcomes(depth, intersection, Some(event), draws);
    lemma_weights_of_first_lanes(integrator, depth, intersection, event, draws, LANES as int);
    assert(outcomes.take(LANES as int) =~= outcomes);
}

/// The statement of [`lemma_spawned_weights_usable`] for the first `n` lanes.
proof fn lemma_weights_of_first_lanes(
    integrator: PathTracingIntegrator,
    depth: usize,
    intersection: WShadingPoint,
    event: WScatteringEvent,
    draws: WScalar,
    n: int,
)
    requires
        0 <= n <= LANES,
        forall|i: int|
            0 <= i < LANES && (#[trigger] intersection.ray.lane(i)).valid
                ==> intersection.ray.lane(i).throughput.is_weight(),
        forall|i: int|
            0 <= i < LANES && intersection.ray.lane(i).valid ==> {
                &&& !(#[trigger] event.lane(i)).throughput.r.is_negative()
                &&& !event.lane(i).throughput.g.is_negative()
                &&& !event.lane(i).throughput.b.is_negative()
            },
    ensures
        forall|k: int|
            0 <= k < continued_rays(
                integrator.outcomes(depth, intersection, Some(event), draws).take(n),
            ).len() ==> (#[trigger] continued_rays(
                integrator.outcomes(depth, intersection, Some(event), draws).take(n),
            )[k]).throughput.is_weight(),
    decreases n,
{
    let outcomes = integrator.outcomes(depth, intersection, Some(event), draws);
    if n > 0 {
        lemma_weights_of_first_lanes(integrator, depth, intersection, event, draws, n - 1);
        assert(outcomes.take(n).drop_last() =~= outcomes.take(n - 1));
        assert(outcomes.take(n).last() == outcomes[n - 1]);
        let ray = intersection.ray.lane(n - 1);
        let e = event.lane(n - 1);
        if ray.valid {
            lemma_continued_weight_usable(integrator, depth, ray, e, draws.lane(n - 1));
        }
        let head = continued_rays(outcomes.take(n - 1));
        let all = continued_rays(outcomes.take(n));
        assert(all == head + crate::integrator::outcome_rays(outcomes[n - 1]));
        assert forall|k: int| 0 <= k < all.len() implies (#[trigger] all[k]).throughput.is_weight() by {
            if k < head.len() {
                assert(all[k] == head[k]);
            }
        }
    }
}

} // verus!
