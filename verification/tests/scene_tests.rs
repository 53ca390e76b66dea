use line_dof::rng::RandomStream;
use line_dof::scene::{build_scene, SEGMENT_COUNT, DEPTH_FX};

/// Scenario: a 100 by 100 scene at scale 1 from seed 42 holds exactly 30
/// segments, every coordinate inside [0, 100) x [0, 100) x [0, 20).
#[test]
fn scene_100_by_100_seed_42() {
    let mut stream = RandomStream::new(42);
    let scene = build_scene(100, 100, 1, &mut stream);
    assert_eq!(scene.segments.len(), 30);
    assert_eq!(SEGMENT_COUNT, 30);
    let w_fx: u64 = 100 * 1_000_000;
    let h_fx: u64 = 100 * 1_000_000;
    let d_fx: u64 = 20 * 1_000_000;
    assert_eq!(DEPTH_FX, d_fx);
    for seg in scene.segments.iter() {
        assert!(seg.p1.x < w_fx);
        assert!(seg.p1.y < h_fx);
        assert!(seg.p1.z < d_fx);
        assert!(seg.p2.x < w_fx);
        assert!(seg.p2.y < h_fx);
        assert!(seg.p2.z < d_fx);
    }
}

/// The camera sits on the planar centre at depth zero, and the focal plane
/// halfway into the depth range.
#[test]
fn scene_camera_and_focus() {
    let mut stream = RandomStream::new(1);
    let scene = build_scene(100, 80, 2, &mut stream);
    assert_eq!(scene.camera.x, 100 * 2 * 1_000_000 / 2);
    assert_eq!(scene.camera.y, 80 * 2 * 1_000_000 / 2);
    assert_eq!(scene.camera.z, 0);
    assert_eq!(scene.depth, 20_000_000);
    assert_eq!(scene.focus_distance, 10_000_000);
}

/// Building twice from the same seed gives the same scene, coordinate for
/// coordinate; a different seed gives a different one.
#[test]
fn scene_reproducible_from_seed() {
    let mut s1 = RandomStream::new(42);
    let mut s2 = RandomStream::new(42);
    let a = build_scene(100, 100, 1, &mut s1);
    let b = build_scene(100, 100, 1, &mut s2);
    assert_eq!(a.segments.len(), b.segments.len());
    for (x, y) in a.segments.iter().zip(b.segments.iter()) {
        assert_eq!(x, y);
    }
    let mut s3 = RandomStream::new(43);
    let c = build_scene(100, 100, 1, &mut s3);
    let same = a.segments.iter().zip(c.segments.iter()).all(|(x, y)| x == y);
    assert!(!same);
}

/// The stream serves the same values for the same seed and different values
/// for different seeds, and is not constant.
#[test]
fn stream_draws_depend_on_seed_and_position() {
    let mut s1 = RandomStream::new(7);
    let mut s2 = RandomStream::new(7);
    let d1: Vec<u32> = (0..8).map(|_| s1.draw_u32()).collect();
    let d2: Vec<u32> = (0..8).map(|_| s2.draw_u32()).collect();
    assert_eq!(d1, d2);
    let mut s3 = RandomStream::new(8);
    let d3: Vec<u32> = (0..8).map(|_| s3.draw_u32()).collect();
    assert_ne!(d1, d3);
    assert!(d1.iter().any(|&v| v != d1[0]));
}

/// A draw maps into [0, SCALE) by exact truncating scaling.
#[test]
fn unit_from_bits_exact() {
    assert_eq!(line_dof::rng::unit_from_bits(0), 0);
    assert_eq!(line_dof::rng::unit_from_bits(u32::MAX), 999_999);
    assert_eq!(line_dof::rng::unit_from_bits(0x8000_0000), 500_000);
    assert_eq!(line_dof::rng::unit_from_bits(1), 0);
}
