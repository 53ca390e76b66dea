use line_dof::fixed::{fx_abs_diff, SCALE};
use line_dof::geom::{plane_distance, unit_dir, Point3, Segment};
use line_dof::rng::RandomStream;
use line_dof::sampler::{blur_radius, render, sample_mark, BLUR_E2, BLUR_M};
use line_dof::scene::build_scene;

/// Scenario: on the focal plane (focus 10, distance 10) the radius is
/// exactly zero, whatever the coefficient and exponent.
#[test]
fn radius_zero_on_focal_plane() {
    let focus: u64 = 10 * SCALE;
    let d: u64 = 10 * SCALE;
    let x = fx_abs_diff(focus, d);
    assert_eq!(x, 0);
    assert_eq!(blur_radius(BLUR_M, BLUR_E2, x), 0);
    assert_eq!(blur_radius(7 * SCALE, 3, x), 0);
    assert_eq!(blur_radius(1, 12, x), 0);
}

/// Scenario: focus 10, distance 0, m = 0.4, e = 5.5 gives
/// r = 0.4 * 10^5.5, to within the fixed-point resolution.
#[test]
fn radius_at_full_offset() {
    let focus: u64 = 10 * SCALE;
    let d: u64 = 0;
    let x = fx_abs_diff(focus, d);
    let r = blur_radius(BLUR_M, BLUR_E2, x);
    let got = r as f64 / SCALE as f64;
    let expected = 0.4 * 10f64.powf(5.5);
    assert!((got - expected).abs() < 0.01, "got {got}, expected {expected}");
    assert_eq!(r, 126_491_106_406);
}

/// An integer exponent case computes exactly: e = 1 (two half units) gives
/// r = m * x.
#[test]
fn radius_linear_exponent_exact() {
    let r = blur_radius(400_000, 2, 2 * SCALE);
    assert_eq!(r, 800_000);
}

/// Blur-radius monotonicity on concrete values: on each side of the focal
/// plane, a larger offset never gives a smaller radius.
#[test]
fn radius_monotone_in_offset() {
    let focus: u64 = 10 * SCALE;
    let mut last: u64 = 0;
    for step in 0..=10u64 {
        let d = focus - step * SCALE;
        let r = blur_radius(BLUR_M, BLUR_E2, fx_abs_diff(focus, d));
        assert!(r >= last);
        last = r;
    }
    last = 0;
    for step in 0..=10u64 {
        let d = focus + step * SCALE;
        let r = blur_radius(BLUR_M, BLUR_E2, fx_abs_diff(focus, d));
        assert!(r >= last);
        last = r;
    }
}

/// Sample points lie on the segment: each coordinate is the truncating
/// convex combination of the endpoints and stays between them.
#[test]
fn sample_point_on_segment() {
    let seg = Segment {
        p1: Point3 { x: 2 * SCALE, y: 8 * SCALE, z: 0 },
        p2: Point3 { x: 6 * SCALE, y: 4 * SCALE, z: 20 * SCALE },
    };
    let t: u64 = 250_000;
    let v = seg.sample(t);
    assert_eq!(v.x, 3 * SCALE);
    assert_eq!(v.y, 7 * SCALE);
    assert_eq!(v.z, 5 * SCALE);
    let mut stream = RandomStream::new(5);
    for _ in 0..50 {
        let t = stream.draw_unit();
        let v = seg.sample(t);
        assert!(seg.p1.x.min(seg.p2.x) <= v.x && v.x <= seg.p1.x.max(seg.p2.x));
        assert!(seg.p1.y.min(seg.p2.y) <= v.y && v.y <= seg.p1.y.max(seg.p2.y));
        assert!(seg.p1.z.min(seg.p2.z) <= v.z && v.z <= seg.p1.z.max(seg.p2.z));
    }
}

/// The jitter bound on concrete draws: a mark's planar displacement from
/// the unjittered projected point stays within the computed radius.
#[test]
fn jitter_stays_within_radius() {
    let camera = Point3 { x: 50 * SCALE, y: 50 * SCALE, z: 0 };
    let focus: u64 = 10 * SCALE;
    let depth: u64 = 20 * SCALE;
    let seg = Segment {
        p1: Point3 { x: 10 * SCALE, y: 20 * SCALE, z: 0 },
        p2: Point3 { x: 90 * SCALE, y: 70 * SCALE, z: 19 * SCALE },
    };
    let mut stream = RandomStream::new(11);
    for _ in 0..200 {
        let tb = stream.draw_u32();
        let ab = stream.draw_u32();
        let mk = sample_mark(&seg, camera, focus, depth, tb, ab);
        let t = line_dof::rng::unit_from_bits(tb);
        let v = seg.sample(t);
        let d = fx_abs_diff(v.z, camera.z);
        let r = blur_radius(BLUR_M, BLUR_E2, fx_abs_diff(focus, d));
        let dx = (mk.x - v.x as i64) as i128;
        let dy = (mk.y - v.y as i64) as i128;
        assert!(dx * dx + dy * dy <= (r as i128) * (r as i128));
    }
}

/// Distance to the camera is measured purely along the depth axis.
#[test]
fn plane_distance_is_depth_only() {
    let cam = Point3 { x: 50 * SCALE, y: 50 * SCALE, z: 0 };
    let near = Point3 { x: 0, y: 0, z: 3 * SCALE };
    let far = Point3 { x: 50 * SCALE, y: 50 * SCALE, z: 17 * SCALE };
    assert_eq!(plane_distance(cam, near), 3 * SCALE);
    assert_eq!(plane_distance(cam, far), 17 * SCALE);
    assert_eq!(plane_distance(far, cam), 17 * SCALE);
}

/// The jitter direction always lies on or just inside the unit circle, and
/// the cardinal fractions map to the cardinal directions exactly.
#[test]
fn unit_dir_on_unit_circle() {
    let east = unit_dir(0);
    assert!(!east.neg_x && east.mx == SCALE && east.my == 0);
    let north = unit_dir(250_000);
    assert!(!north.neg_y && north.mx == 0 && north.my == SCALE);
    let west = unit_dir(500_000);
    assert!(west.neg_x && west.mx == SCALE && west.my == 0);
    let south = unit_dir(750_000);
    assert!(south.neg_y && south.mx == 0 && south.my == SCALE);
    for step in 0..1000u64 {
        let d = unit_dir(step * 1000);
        let m2 = (d.mx as u128) * (d.mx as u128) + (d.my as u128) * (d.my as u128);
        let s2 = (SCALE as u128) * (SCALE as u128);
        assert!(m2 <= s2);
        assert!(m2 > s2 - 10 * (SCALE as u128));
    }
}

/// Determinism: for a fixed seed, scene and iteration count, two
/// independent runs emit identical mark sequences.
#[test]
fn render_deterministic_for_fixed_seed() {
    let mut sb = RandomStream::new(42);
    let scene = build_scene(100, 100, 1, &mut sb);
    let mut r1 = RandomStream::new(99);
    let mut r2 = RandomStream::new(99);
    let m1 = render(&scene, 20, &mut r1);
    let m2 = render(&scene, 20, &mut r2);
    assert_eq!(m1.len(), 20 * 30);
    assert_eq!(m1.len(), m2.len());
    for (a, b) in m1.iter().zip(m2.iter()) {
        assert_eq!(a, b);
    }
    let mut r3 = RandomStream::new(100);
    let m3 = render(&scene, 20, &mut r3);
    let same = m1.iter().zip(m3.iter()).all(|(a, b)| a == b);
    assert!(!same);
}

/// Scenario: zero iterations emit no marks and perform no random draws.
#[test]
fn render_zero_iterations_draws_nothing() {
    let mut sb = RandomStream::new(42);
    let scene = build_scene(100, 100, 1, &mut sb);
    let mut used = RandomStream::new(7);
    let marks = render(&scene, 0, &mut used);
    assert_eq!(marks.len(), 0);
    let mut fresh = RandomStream::new(7);
    for _ in 0..8 {
        assert_eq!(used.draw_u32(), fresh.draw_u32());
    }
}

/// One mark per segment per iteration, in stored order.
#[test]
fn render_emits_one_mark_per_segment_per_iteration() {
    let mut sb = RandomStream::new(3);
    let scene = build_scene(64, 64, 1, &mut sb);
    let mut rs = RandomStream::new(4);
    let marks = render(&scene, 7, &mut rs);
    assert_eq!(marks.len(), 7 * 30);
}
