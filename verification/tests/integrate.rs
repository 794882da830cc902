use bumpalo::collections::Vec as BumpVec;
use bumpalo::Bump;
use path_integrator::film::ChannelSample;
use path_integrator::hitable::WShadingPoint;
use path_integrator::integrator::{Integrator, LaneOutcome, PathTracingIntegrator};
use path_integrator::material::{ScatteringEvent, WScatteringEvent};
use path_integrator::math::{Scalar, Vec2u, Vec3, WScalar, Wec3};
use path_integrator::ray::{Ray, WRay};
use path_integrator::spectrum::{Srgb, WSrgb};

fn s(x: f32) -> Scalar {
    Scalar::from_bits(x.to_bits())
}

fn f(x: Scalar) -> f32 {
    f32::from_bits(x.to_bits())
}

fn rgb(r: f32, g: f32, b: f32) -> Srgb {
    Srgb { r: s(r), g: s(g), b: s(b) }
}

fn v3(x: f32, y: f32, z: f32) -> Vec3 {
    Vec3 { x: s(x), y: s(y), z: s(z) }
}

fn wide(a: [f32; 4]) -> WScalar {
    WScalar { lanes: [s(a[0]), s(a[1]), s(a[2]), s(a[3])] }
}

fn wec3(v: [Vec3; 4]) -> Wec3 {
    Wec3 {
        x: WScalar { lanes: [v[0].x, v[1].x, v[2].x, v[3].x] },
        y: WScalar { lanes: [v[0].y, v[1].y, v[2].y, v[3].y] },
        z: WScalar { lanes: [v[0].z, v[1].z, v[2].z, v[3].z] },
    }
}

fn wsrgb(c: [Srgb; 4]) -> WSrgb {
    WSrgb {
        r: WScalar { lanes: [c[0].r, c[1].r, c[2].r, c[3].r] },
        g: WScalar { lanes: [c[0].g, c[1].g, c[2].g, c[3].g] },
        b: WScalar { lanes: [c[0].b, c[1].b, c[2].b, c[3].b] },
    }
}

fn pack(rays: [Ray; 4]) -> WRay {
    WRay {
        origin: wec3([rays[0].origin, rays[1].origin, rays[2].origin, rays[3].origin]),
        dir: wec3([rays[0].dir, rays[1].dir, rays[2].dir, rays[3].dir]),
        radiance: wsrgb([rays[0].radiance, rays[1].radiance, rays[2].radiance, rays[3].radiance]),
        throughput: wsrgb(
            [rays[0].throughput, rays[1].throughput, rays[2].throughput, rays[3].throughput],
        ),
        valid: [rays[0].valid, rays[1].valid, rays[2].valid, rays[3].valid],
        tile_coord: [
            rays[0].tile_coord,
            rays[1].tile_coord,
            rays[2].tile_coord,
            rays[3].tile_coord,
        ],
    }
}

fn px(i: usize) -> Vec2u {
    Vec2u { x: 10 + i, y: 20 }
}

/// Four camera rays for pixels (10, 20) to (13, 20), lane 2 not valid.
fn packet() -> WRay {
    let mut rays = [
        Ray::new(v3(0.0, 0.0, 0.0), v3(0.0, 0.0, 1.0), px(0)),
        Ray::new(v3(0.0, 0.0, 0.0), v3(0.0, 0.6, 0.8), px(1)),
        Ray::new(v3(0.0, 0.0, 0.0), v3(0.6, 0.0, 0.8), px(2)),
        Ray::new(v3(0.0, 0.0, 0.0), v3(0.0, 0.8, 0.6), px(3)),
    ];
    rays[2].valid = false;
    for (i, ray) in rays.iter_mut().enumerate() {
        ray.radiance = rgb(0.25 * i as f32, 0.5, 1.0);
        ray.throughput = rgb(0.5, 0.25 + 0.125 * i as f32, 0.75);
    }
    pack(rays)
}

fn normals() -> Wec3 {
    wec3([v3(0.0, 1.0, 0.0), v3(1.0, 0.0, 0.0), v3(0.0, 0.0, 1.0), v3(0.0, -1.0, 0.0)])
}

fn scattering(throughput: [Srgb; 4], absorbed: [f32; 4]) -> WScatteringEvent {
    WScatteringEvent {
        origin: wec3([v3(1.0, 1.0, 1.0), v3(2.0, 2.0, 2.0), v3(3.0, 3.0, 3.0), v3(4.0, 4.0, 4.0)]),
        wi: wec3([v3(1.0, 0.0, 0.0), v3(0.0, 1.0, 0.0), v3(0.0, 0.0, 1.0), v3(0.0, 0.6, 0.8)]),
        throughput: wsrgb(throughput),
        absorbed: wide(absorbed),
    }
}

fn plain_scattering() -> WScatteringEvent {
    scattering(
        [rgb(0.4, 0.4, 0.4), rgb(0.3, 0.3, 0.3), rgb(0.2, 0.2, 0.2), rgb(0.1, 0.1, 0.1)],
        [0.25, 0.25, 0.25, 0.25],
    )
}

fn count(samples: &BumpVec<(Vec2u, ChannelSample)>, pick: fn(&ChannelSample) -> bool) -> usize {
    samples.iter().filter(|(_, sample)| pick(sample)).count()
}

fn is_alpha(sample: &ChannelSample) -> bool {
    matches!(sample, ChannelSample::Alpha(_))
}

fn is_world_normal(sample: &ChannelSample) -> bool {
    matches!(sample, ChannelSample::WorldNormal(_))
}

#[test]
fn camera_ray_has_no_light_and_full_weight() {
    let ray = Ray::new(v3(1.0, 2.0, 3.0), v3(0.0, 0.0, 1.0), px(0));
    assert_eq!(ray.origin, v3(1.0, 2.0, 3.0));
    assert_eq!(ray.dir, v3(0.0, 0.0, 1.0));
    assert_eq!(ray.radiance, rgb(0.0, 0.0, 0.0));
    assert_eq!(ray.throughput, rgb(1.0, 1.0, 1.0));
    assert!(ray.valid);
    assert_eq!(ray.tile_coord, px(0));
}

#[test]
fn packet_gives_its_lanes() {
    let w = packet();
    let lanes = w.lanes();
    for i in 0..4 {
        assert_eq!(lanes[i], w.get(i));
        assert_eq!(lanes[i].tile_coord, px(i));
        assert_eq!(lanes[i].valid, i != 2);
        assert_eq!(lanes[i].radiance, rgb(0.25 * i as f32, 0.5, 1.0));
        assert_eq!(lanes[i].throughput, rgb(0.5, 0.25 + 0.125 * i as f32, 0.75));
    }
    assert_eq!(lanes[1].dir, v3(0.0, 0.6, 0.8));
    let e = plain_scattering();
    assert_eq!(
        e.get(3),
        ScatteringEvent {
            origin: v3(4.0, 4.0, 4.0),
            wi: v3(0.0, 0.6, 0.8),
            throughput: rgb(0.1, 0.1, 0.1),
            absorbed: s(0.25),
        }
    );
}

#[test]
fn terminal_samples_are_color_and_background() {
    assert!(ChannelSample::Color(rgb(0.0, 0.0, 0.0)).is_terminal());
    assert!(ChannelSample::Background(rgb(0.0, 0.0, 0.0)).is_terminal());
    assert!(!ChannelSample::Alpha(s(1.0)).is_terminal());
    assert!(!ChannelSample::WorldNormal(v3(0.0, 1.0, 0.0)).is_terminal());
}

#[test]
fn invalid_lane_is_idle() {
    let integrator = PathTracingIntegrator { max_bounces: 4 };
    let mut ray = Ray::new(v3(0.0, 0.0, 0.0), v3(0.0, 0.0, 1.0), px(0));
    ray.valid = false;
    assert_eq!(integrator.lane_outcome(0, ray, None, s(0.5)), LaneOutcome::Idle);
    let e = plain_scattering().get(0);
    assert_eq!(integrator.lane_outcome(0, ray, Some(e), s(0.5)), LaneOutcome::Idle);
    assert_eq!(integrator.lane_outcome(9, ray, Some(e), s(0.0)), LaneOutcome::Idle);
}

#[test]
fn escaped_camera_ray_gives_background() {
    let integrator = PathTracingIntegrator { max_bounces: 4 };
    let ray = packet().get(1);
    assert_eq!(
        integrator.lane_outcome(0, ray, None, s(0.5)),
        LaneOutcome::Finished(px(1), ChannelSample::Background(rgb(0.25, 0.5, 1.0)))
    );
}

#[test]
fn absorbed_path_gives_color() {
    let integrator = PathTracingIntegrator { max_bounces: 4 };
    let ray = packet().get(1);
    for depth in [1usize, 2, 3, 4, 50] {
        assert_eq!(
            integrator.lane_outcome(depth, ray, None, s(0.5)),
            LaneOutcome::Finished(px(1), ChannelSample::Color(rgb(0.25, 0.5, 1.0)))
        );
    }
}

#[test]
fn path_without_bounces_left_gives_color() {
    let integrator = PathTracingIntegrator { max_bounces: 2 };
    let ray = packet().get(0);
    let e = plain_scattering().get(0);
    for depth in [2usize, 3, 10] {
        assert_eq!(
            integrator.lane_outcome(depth, ray, Some(e), s(0.999)),
            LaneOutcome::Finished(px(0), ChannelSample::Color(rgb(0.0, 0.5, 1.0)))
        );
    }
}

#[test]
fn scattered_path_goes_on_with_the_new_weight() {
    let integrator = PathTracingIntegrator { max_bounces: 8 };
    let ray = packet().get(3);
    let e = plain_scattering().get(3);
    let expected = Ray {
        origin: v3(4.0, 4.0, 4.0),
        dir: v3(0.0, 0.6, 0.8),
        radiance: rgb(0.75, 0.5, 1.0),
        throughput: rgb(0.1, 0.1, 0.1),
        valid: true,
        tile_coord: px(3),
    };
    assert_eq!(integrator.lane_outcome(1, ray, Some(e), s(0.0)), LaneOutcome::Continued(expected));
    // Beyond depth 2 the draw 0.5 is not below the probability 0.25.
    assert_eq!(integrator.lane_outcome(5, ray, Some(e), s(0.5)), LaneOutcome::Continued(expected));
}

#[test]
fn roulette_never_ends_a_path_through_depth_two() {
    let integrator = PathTracingIntegrator { max_bounces: 8 };
    let ray = packet().get(0);
    let mut e = plain_scattering().get(0);
    e.absorbed = s(1.0);
    for depth in 0..3 {
        for draw in [0.0f32, 1.0e-30, 0.5, 0.999_999, -1.0] {
            assert!(matches!(
                integrator.lane_outcome(depth, ray, Some(e), s(draw)),
                LaneOutcome::Continued(_)
            ));
        }
    }
}

#[test]
fn roulette_ends_a_path_when_the_draw_is_below_its_probability() {
    let integrator = PathTracingIntegrator { max_bounces: 8 };
    let ray = packet().get(0);
    let mut e = plain_scattering().get(0);
    e.absorbed = s(0.25);
    let ended = LaneOutcome::Finished(px(0), ChannelSample::Color(rgb(0.0, 0.5, 1.0)));
    assert_eq!(integrator.lane_outcome(3, ray, Some(e), s(0.2)), ended);
    assert_eq!(integrator.lane_outcome(3, ray, Some(e), s(0.0)), ended);
    assert!(matches!(
        integrator.lane_outcome(3, ray, Some(e), s(0.25)),
        LaneOutcome::Continued(_)
    ));
    assert!(matches!(
        integrator.lane_outcome(3, ray, Some(e), s(0.3)),
        LaneOutcome::Continued(_)
    ));
    // The floor: an absorbed share of 0.01 still ends one path in twenty.
    e.absorbed = s(0.01);
    assert_eq!(integrator.lane_outcome(3, ray, Some(e), s(0.04)), ended);
    assert!(matches!(
        integrator.lane_outcome(3, ray, Some(e), s(0.05)),
        LaneOutcome::Continued(_)
    ));
    // A path that has lost everything ends whatever the draw.
    e.absorbed = s(1.0);
    assert_eq!(integrator.lane_outcome(3, ray, Some(e), s(0.999_999)), ended);
}

#[test]
fn nan_weight_keeps_the_weight_before() {
    let integrator = PathTracingIntegrator { max_bounces: 8 };
    let ray = packet().get(1);
    let mut e = plain_scattering().get(1);
    for bad in [rgb(f32::NAN, 0.1, 0.1), rgb(0.1, f32::NAN, 0.1), rgb(0.1, 0.1, f32::NAN)] {
        e.throughput = bad;
        match integrator.lane_outcome(1, ray, Some(e), s(0.5)) {
            LaneOutcome::Continued(next) => {
                assert_eq!(next.throughput, ray.throughput);
                assert_eq!(next.throughput, rgb(0.5, 0.375, 0.75));
                assert_eq!(next.dir, e.wi);
                assert_eq!(next.origin, e.origin);
                assert!(next.valid);
            },
            other => panic!("lane did not go on: {:?}", other),
        }
    }
}

#[test]
fn weight_from_a_vanishing_density_is_never_nan_or_negative() {
    let integrator = PathTracingIntegrator { max_bounces: 8 };
    let ray = packet().get(0);
    let before = [f(ray.throughput.r), f(ray.throughput.g), f(ray.throughput.b)];
    for (value, pdf) in [(0.0f32, 0.0f32), (1.0, 0.0), (0.5, 1.0e-45), (0.0, 1.0e-45), (2.0, 0.5)] {
        for cosine in [0.0f32, 0.5, 1.0] {
            let mut e = plain_scattering().get(0);
            e.throughput = rgb(
                before[0] * value / pdf * cosine,
                before[1] * value / pdf * cosine,
                before[2] * value / pdf * cosine,
            );
            match integrator.lane_outcome(1, ray, Some(e), s(0.5)) {
                LaneOutcome::Continued(next) => {
                    assert!(next.throughput.is_weight());
                    for channel in [next.throughput.r, next.throughput.g, next.throughput.b] {
                        assert!(!f(channel).is_nan());
                        assert!(f(channel) >= 0.0);
                    }
                },
                other => panic!("lane did not go on: {:?}", other),
            }
        }
    }
}

#[test]
fn draw_does_not_matter_where_none_is_consumed() {
    let integrator = PathTracingIntegrator { max_bounces: 2 };
    let w = packet();
    let e = plain_scattering();
    for depth in [2usize, 3, 7] {
        for i in 0..4 {
            assert!(!integrator.consumes_draw(depth, w.valid[i], true));
            assert_eq!(
                integrator.lane_outcome(depth, w.get(i), Some(e.get(i)), s(0.0)),
                integrator.lane_outcome(depth, w.get(i), Some(e.get(i)), s(0.9))
            );
        }
    }
    for i in 0..4 {
        assert_eq!(
            integrator.lane_outcome(0, w.get(i), None, s(0.0)),
            integrator.lane_outcome(0, w.get(i), None, s(0.9))
        );
    }
}

#[test]
fn scattered_camera_packet_gives_alpha_and_normal_once_per_valid_lane() {
    let bump = Bump::new();
    let mut spawned: BumpVec<Ray> = BumpVec::new_in(&bump);
    let mut samples: BumpVec<(Vec2u, ChannelSample)> = BumpVec::new_in(&bump);
    let integrator = PathTracingIntegrator { max_bounces: 4 };
    let sp = WShadingPoint { ray: packet(), normal: normals() };
    integrator.integrate(
        0,
        sp,
        Some(plain_scattering()),
        wide([0.5; 4]),
        &mut spawned,
        &mut samples,
    );
    assert_eq!(
        &samples[..],
        &[
            (px(0), ChannelSample::Alpha(s(1.0))),
            (px(0), ChannelSample::WorldNormal(v3(0.0, 1.0, 0.0))),
            (px(1), ChannelSample::Alpha(s(1.0))),
            (px(1), ChannelSample::WorldNormal(v3(1.0, 0.0, 0.0))),
            (px(3), ChannelSample::Alpha(s(1.0))),
            (px(3), ChannelSample::WorldNormal(v3(0.0, -1.0, 0.0))),
        ][..]
    );
    assert_eq!(count(&samples, is_alpha), 3);
    assert_eq!(count(&samples, is_world_normal), 3);
    assert_eq!(spawned.len(), 3);
    assert_eq!(spawned[0].tile_coord, px(0));
    assert_eq!(spawned[1].tile_coord, px(1));
    assert_eq!(spawned[2].tile_coord, px(3));
    assert_eq!(spawned[2].throughput, rgb(0.1, 0.1, 0.1));
    assert_eq!(spawned[2].radiance, rgb(0.75, 0.5, 1.0));
    assert_eq!(spawned[2].dir, v3(0.0, 0.6, 0.8));
    assert_eq!(spawned[2].origin, v3(4.0, 4.0, 4.0));
}

#[test]
fn no_alpha_or_normal_beyond_depth_zero() {
    let integrator = PathTracingIntegrator { max_bounces: 4 };
    let sp = WShadingPoint { ray: packet(), normal: normals() };
    for depth in [1usize, 2, 3, 4, 5, 1000] {
        for event in [Some(plain_scattering()), None] {
            for draw in [0.0f32, 0.5] {
                let bump = Bump::new();
                let mut spawned: BumpVec<Ray> = BumpVec::new_in(&bump);
                let mut samples: BumpVec<(Vec2u, ChannelSample)> = BumpVec::new_in(&bump);
                integrator.integrate(depth, sp, event, wide([draw; 4]), &mut spawned, &mut samples);
                assert_eq!(count(&samples, is_alpha), 0);
                assert_eq!(count(&samples, is_world_normal), 0);
            }
        }
    }
}

#[test]
fn escaped_camera_packet_gives_background_only() {
    let bump = Bump::new();
    let mut spawned: BumpVec<Ray> = BumpVec::new_in(&bump);
    let mut samples: BumpVec<(Vec2u, ChannelSample)> = BumpVec::new_in(&bump);
    let integrator = PathTracingIntegrator { max_bounces: 4 };
    let sp = WShadingPoint { ray: packet(), normal: normals() };
    integrator.integrate(0, sp, None, wide([0.5; 4]), &mut spawned, &mut samples);
    assert_eq!(
        &samples[..],
        &[
            (px(0), ChannelSample::Background(rgb(0.0, 0.5, 1.0))),
            (px(1), ChannelSample::Background(rgb(0.25, 0.5, 1.0))),
            (px(3), ChannelSample::Background(rgb(0.75, 0.5, 1.0))),
        ][..]
    );
    assert!(spawned.is_empty());
}

#[test]
fn every_valid_lane_ends_or_goes_on_and_never_both() {
    let w = packet();
    let sp = WShadingPoint { ray: w, normal: normals() };
    let e = scattering(
        [rgb(0.4, 0.4, 0.4), rgb(0.3, 0.3, 0.3), rgb(0.2, 0.2, 0.2), rgb(0.1, 0.1, 0.1)],
        [0.9, 0.1, 0.5, 0.5],
    );
    for max_bounces in [0usize, 1, 3, 4, 9] {
        let integrator = PathTracingIntegrator { max_bounces };
        for depth in 0..7 {
            for event in [Some(e), None] {
                for draws in [[0.0f32; 4], [0.3, 0.3, 0.3, 0.7], [0.95, 0.01, 0.2, 0.49]] {
                    let bump = Bump::new();
                    let mut spawned: BumpVec<Ray> = BumpVec::new_in(&bump);
                    let mut samples: BumpVec<(Vec2u, ChannelSample)> = BumpVec::new_in(&bump);
                    integrator.integrate(depth, sp, event, wide(draws), &mut spawned, &mut samples);
                    for i in 0..4 {
                        let ended = samples
                            .iter()
                            .filter(|(pixel, sample)| *pixel == px(i) && sample.is_terminal())
                            .count();
                        let went_on = spawned.iter().filter(|ray| ray.tile_coord == px(i)).count();
                        if w.valid[i] {
                            assert_eq!(ended + went_on, 1);
                        } else {
                            assert_eq!(ended + went_on, 0);
                        }
                    }
                    assert!(spawned.iter().all(|ray| ray.valid));
                    assert!(event.is_some() || spawned.is_empty());
                }
            }
        }
    }
}

#[test]
fn lanes_are_decided_one_by_one() {
    let bump = Bump::new();
    let mut spawned: BumpVec<Ray> = BumpVec::new_in(&bump);
    let mut samples: BumpVec<(Vec2u, ChannelSample)> = BumpVec::new_in(&bump);
    let integrator = PathTracingIntegrator { max_bounces: 9 };
    let sp = WShadingPoint { ray: packet(), normal: normals() };
    let e = scattering(
        [
            rgb(0.4, 0.4, 0.4),
            rgb(f32::NAN, 0.3, 0.3),
            rgb(0.2, 0.2, 0.2),
            rgb(f32::INFINITY, 0.1, 0.1),
        ],
        [0.5, 0.5, 0.5, 0.5],
    );
    integrator.integrate(3, sp, Some(e), wide([0.4, 0.6, 0.0, 0.5]), &mut spawned, &mut samples);
    assert_eq!(&samples[..], &[(px(0), ChannelSample::Color(rgb(0.0, 0.5, 1.0)))][..]);
    assert_eq!(
        &spawned[..],
        &[
            Ray {
                origin: v3(2.0, 2.0, 2.0),
                dir: v3(0.0, 1.0, 0.0),
                radiance: rgb(0.25, 0.5, 1.0),
                throughput: rgb(0.5, 0.375, 0.75),
                valid: true,
                tile_coord: px(1),
            },
            Ray {
                origin: v3(4.0, 4.0, 4.0),
                dir: v3(0.0, 0.6, 0.8),
                radiance: rgb(0.75, 0.5, 1.0),
                throughput: rgb(f32::INFINITY, 0.1, 0.1),
                valid: true,
                tile_coord: px(3),
            },
        ][..]
    );
}

#[test]
fn buffers_keep_what_they_held() {
    let bump = Bump::new();
    let mut spawned: BumpVec<Ray> = BumpVec::new_in(&bump);
    let mut samples: BumpVec<(Vec2u, ChannelSample)> = BumpVec::new_in(&bump);
    let earlier = Ray::new(v3(9.0, 9.0, 9.0), v3(1.0, 0.0, 0.0), Vec2u { x: 0, y: 0 });
    spawned.push(earlier);
    samples.push((Vec2u { x: 0, y: 0 }, ChannelSample::Alpha(s(1.0))));
    let integrator = PathTracingIntegrator { max_bounces: 4 };
    let sp = WShadingPoint { ray: packet(), normal: normals() };
    integrator.integrate(
        1,
        sp,
        Some(plain_scattering()),
        wide([0.5; 4]),
        &mut spawned,
        &mut samples,
    );
    assert_eq!(spawned.len(), 4);
    assert_eq!(spawned[0], earlier);
    assert_eq!(samples.len(), 1);
    integrator.integrate(4, sp, Some(plain_scattering()), wide([0.5; 4]), &mut spawned, &mut samples);
    assert_eq!(spawned.len(), 4);
    assert_eq!(samples.len(), 4);
    assert_eq!(samples[0], (Vec2u { x: 0, y: 0 }, ChannelSample::Alpha(s(1.0))));
    assert_eq!(samples[3], (px(3), ChannelSample::Color(rgb(0.75, 0.5, 1.0))));
}

#[test]
fn checked_call_does_what_the_plain_call_does() {
    let integrator = PathTracingIntegrator { max_bounces: 4 };
    let sp = WShadingPoint { ray: packet(), normal: normals() };
    for depth in [0usize, 1, 3, 4] {
        for event in [Some(plain_scattering()), None] {
            let bump = Bump::new();
            let mut spawned: BumpVec<Ray> = BumpVec::new_in(&bump);
            let mut samples: BumpVec<(Vec2u, ChannelSample)> = BumpVec::new_in(&bump);
            let mut spawned_checked: BumpVec<Ray> = BumpVec::new_in(&bump);
            let mut samples_checked: BumpVec<(Vec2u, ChannelSample)> = BumpVec::new_in(&bump);
            let draws = wide([0.1, 0.3, 0.5, 0.7]);
            integrator.integrate(depth, sp, event, draws, &mut spawned, &mut samples);
            let done = integrator.try_integrate(
                depth,
                sp,
                event,
                draws,
                &mut spawned_checked,
                &mut samples_checked,
            );
            assert!(done);
            assert_eq!(&spawned[..], &spawned_checked[..]);
            assert_eq!(&samples[..], &samples_checked[..]);
            assert_eq!(spawned.len() + samples.iter().filter(|p| p.1.is_terminal()).count(), 3);
        }
    }
}

#[test]
fn same_inputs_give_the_same_outputs() {
    let integrator = PathTracingIntegrator { max_bounces: 6 };
    let sp = WShadingPoint { ray: packet(), normal: normals() };
    let bump = Bump::new();
    let mut first_rays: BumpVec<Ray> = BumpVec::new_in(&bump);
    let mut first_samples: BumpVec<(Vec2u, ChannelSample)> = BumpVec::new_in(&bump);
    let mut second_rays: BumpVec<Ray> = BumpVec::new_in(&bump);
    let mut second_samples: BumpVec<(Vec2u, ChannelSample)> = BumpVec::new_in(&bump);
    let draws = wide([0.2, 0.3, 0.4, 0.1]);
    integrator.integrate(3, sp, Some(plain_scattering()), draws, &mut first_rays, &mut first_samples);
    integrator.integrate(
        3,
        sp,
        Some(plain_scattering()),
        draws,
        &mut second_rays,
        &mut second_samples,
    );
    assert_eq!(&first_rays[..], &second_rays[..]);
    assert_eq!(&first_samples[..], &second_samples[..]);
}

/// One emissive surface, no bounces allowed: a camera ray that hits the light
/// gives the light's radiance as `Color`, with `Alpha` 1 and the light's
/// normal; one that misses gives `Background`.
#[test]
fn emissive_surface_without_bounces() {
    let integrator = PathTracingIntegrator { max_bounces: 0 };
    let light = [4.0f32, 3.0, 2.0];
    let light_normal = v3(0.0, 0.0, -1.0);
    let sky = [0.125f32, 0.25, 0.5];

    let mut rays = [
        Ray::new(v3(0.0, 0.0, 0.0), v3(0.0, 0.0, 1.0), px(0)),
        Ray::new(v3(0.0, 0.0, 0.0), v3(0.0, 0.0, 1.0), px(1)),
        Ray::new(v3(0.0, 0.0, 0.0), v3(0.0, 0.0, 1.0), px(2)),
        Ray::new(v3(0.0, 0.0, 0.0), v3(0.0, 0.0, 1.0), px(3)),
    ];

    // The packet hits the light: radiance += emitted * throughput.
    let mut lit = rays;
    for ray in lit.iter_mut() {
        ray.radiance = rgb(
            f(ray.radiance.r) + light[0] * f(ray.throughput.r),
            f(ray.radiance.g) + light[1] * f(ray.throughput.g),
            f(ray.radiance.b) + light[2] * f(ray.throughput.b),
        );
    }
    let sp = WShadingPoint { ray: pack(lit), normal: Wec3::splat(light_normal) };
    let event = scattering([rgb(0.0, 0.0, 0.0); 4], [0.0; 4]);
    let bump = Bump::new();
    let mut spawned: BumpVec<Ray> = BumpVec::new_in(&bump);
    let mut samples: BumpVec<(Vec2u, ChannelSample)> = BumpVec::new_in(&bump);
    for i in 0..4 {
        assert!(!integrator.consumes_draw(0, true, true), "lane {}", i);
    }
    integrator.integrate(0, sp, Some(event), wide([0.0; 4]), &mut spawned, &mut samples);
    assert!(spawned.is_empty());
    assert_eq!(samples.len(), 12);
    for i in 0..4 {
        assert_eq!(samples[2 * i], (px(i), ChannelSample::Alpha(s(1.0))));
        assert_eq!(samples[2 * i + 1], (px(i), ChannelSample::WorldNormal(light_normal)));
        assert_eq!(samples[8 + i], (px(i), ChannelSample::Color(rgb(4.0, 3.0, 2.0))));
    }

    // The packet misses: the sky's radiance, no scattering.
    for ray in rays.iter_mut() {
        ray.radiance = rgb(
            f(ray.radiance.r) + sky[0] * f(ray.throughput.r),
            f(ray.radiance.g) + sky[1] * f(ray.throughput.g),
            f(ray.radiance.b) + sky[2] * f(ray.throughput.b),
        );
    }
    let sp = WShadingPoint { ray: pack(rays), normal: Wec3::splat(v3(0.0, 0.0, 0.0)) };
    let mut spawned: BumpVec<Ray> = BumpVec::new_in(&bump);
    let mut samples: BumpVec<(Vec2u, ChannelSample)> = BumpVec::new_in(&bump);
    integrator.integrate(0, sp, None, wide([0.0; 4]), &mut spawned, &mut samples);
    assert!(spawned.is_empty());
    assert_eq!(samples.len(), 4);
    for i in 0..4 {
        assert_eq!(samples[i], (px(i), ChannelSample::Background(rgb(0.125, 0.25, 0.5))));
    }
}

/// Black surfaces everywhere, five bounces allowed: the camera rays scatter
/// off the first surface with weight zero and are absorbed by the next, so
/// every path ends at depth 1 with a `Color` of zero.
#[test]
fn black_surfaces_end_every_path_at_depth_one() {
    let integrator = PathTracingIntegrator { max_bounces: 5 };
    let rays = [
        Ray::new(v3(0.0, 0.0, 0.0), v3(0.0, 0.0, 1.0), px(0)),
        Ray::new(v3(0.0, 0.0, 0.0), v3(0.0, 0.0, 1.0), px(1)),
        Ray::new(v3(0.0, 0.0, 0.0), v3(0.0, 0.0, 1.0), px(2)),
        Ray::new(v3(0.0, 0.0, 0.0), v3(0.0, 0.0, 1.0), px(3)),
    ];
    let bump = Bump::new();
    let mut frontier: BumpVec<Ray> = BumpVec::new_in(&bump);
    let mut samples: BumpVec<(Vec2u, ChannelSample)> = BumpVec::new_in(&bump);

    // Depth 0: nothing emitted; the surface's response is zero.
    let sp = WShadingPoint { ray: pack(rays), normal: Wec3::splat(v3(0.0, 0.0, -1.0)) };
    let mut weights = [rgb(0.0, 0.0, 0.0); 4];
    let mut absorbed = [0.0f32; 4];
    for i in 0..4 {
        let before = rays[i].throughput;
        weights[i] = rgb(f(before.r) * 0.0, f(before.g) * 0.0, f(before.b) * 0.0);
        absorbed[i] = 1.0 - f(before.max_channel());
    }
    integrator.integrate(0, sp, Some(scattering(weights, absorbed)), wide([0.5; 4]), &mut frontier, &mut samples);
    assert_eq!(frontier.len(), 4);
    assert_eq!(samples.iter().filter(|p| p.1.is_terminal()).count(), 0);

    // Depth 1: absorbed.
    let next = [frontier[0], frontier[1], frontier[2], frontier[3]];
    let sp = WShadingPoint { ray: pack(next), normal: Wec3::splat(v3(0.0, 0.0, -1.0)) };
    let mut spawned: BumpVec<Ray> = BumpVec::new_in(&bump);
    let mut finished: BumpVec<(Vec2u, ChannelSample)> = BumpVec::new_in(&bump);
    integrator.integrate(1, sp, None, wide([0.5; 4]), &mut spawned, &mut finished);
    assert!(spawned.is_empty());
    assert_eq!(
        &finished[..],
        &[
            (px(0), ChannelSample::Color(rgb(0.0, 0.0, 0.0))),
            (px(1), ChannelSample::Color(rgb(0.0, 0.0, 0.0))),
            (px(2), ChannelSample::Color(rgb(0.0, 0.0, 0.0))),
            (px(3), ChannelSample::Color(rgb(0.0, 0.0, 0.0))),
        ][..]
    );
}
