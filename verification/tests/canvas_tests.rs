use line_dof::canvas::{blend, Canvas};
use line_dof::geom::Mark;
use line_dof::rng::RandomStream;
use line_dof::sampler::{accumulate, render, MARK_OPACITY};
use line_dof::scene::build_scene;

/// Opacity non-saturation: one mark of opacity strictly below one never
/// drives a pixel's coverage to full, whatever the coverage was.
#[test]
fn one_mark_never_saturates() {
    assert!(blend(999_999, 999_999) < 1_000_000);
    assert!(blend(0, 999_999) < 1_000_000);
    assert!(blend(500_000, MARK_OPACITY) < 1_000_000);
    for a in [0u64, 1, 999, 123_456, 999_998, 999_999] {
        assert!(blend(a, MARK_OPACITY) < 1_000_000);
    }
}

/// The blend law on exact values: coverage grows by the opacity share of
/// the remaining headroom.
#[test]
fn blend_exact_values() {
    assert_eq!(blend(0, 1_000), 1_000);
    assert_eq!(blend(500_000, 1_000), 500_500);
    assert_eq!(blend(0, 0), 0);
    assert_eq!(blend(250_000, 1_000_000), 1_000_000);
}

/// A mark lands on the pixel its coordinates fall into; only that pixel
/// changes.
#[test]
fn deposit_hits_one_pixel() {
    let mut canvas = Canvas::new_filled(4, 4, 0);
    canvas.deposit(Mark { x: 1_500_000, y: 2_500_000 }, 1_000);
    for row in 0..4usize {
        for col in 0..4usize {
            let want = if (col, row) == (1, 2) { 1_000 } else { 0 };
            assert_eq!(canvas.pixels[row * 4 + col], want);
        }
    }
}

/// Marks pushed off the grid by jitter change nothing.
#[test]
fn deposit_ignores_marks_off_the_grid() {
    let mut canvas = Canvas::new_filled(4, 4, 7);
    canvas.deposit(Mark { x: -1, y: 500_000 }, 1_000);
    canvas.deposit(Mark { x: 500_000, y: -2_000_000 }, 1_000);
    canvas.deposit(Mark { x: 4_000_000, y: 0 }, 1_000);
    canvas.deposit(Mark { x: 0, y: 9_000_000 }, 1_000);
    assert!(canvas.pixels.iter().all(|&p| p == 7));
}

/// A whole accumulation pass composites exactly the marks the render
/// emits, in order, and never saturates a pixel.
#[test]
fn accumulate_matches_render_then_deposit() {
    let mut sb = RandomStream::new(42);
    let scene = build_scene(32, 32, 1, &mut sb);

    let mut s1 = RandomStream::new(9);
    let mut c1 = Canvas::new_filled(32, 32, 0);
    let marks = accumulate(&scene, 50, &mut s1, &mut c1);
    assert_eq!(marks.len(), 50 * 30);

    let mut s2 = RandomStream::new(9);
    let mut c2 = Canvas::new_filled(32, 32, 0);
    for mark in render(&scene, 50, &mut s2) {
        c2.deposit(mark, MARK_OPACITY);
    }
    assert_eq!(c1.pixels, c2.pixels);
    assert!(c1.pixels.iter().any(|&p| p > 0));
    assert!(c1.pixels.iter().all(|&p| p < 1_000_000));
}

/// Repeated deposits accumulate density without ever reaching full
/// coverage.
#[test]
fn repeated_deposits_accumulate_below_full() {
    let mut canvas = Canvas::new_filled(1, 1, 0);
    let mut last: u64 = 0;
    for _ in 0..5_000 {
        canvas.deposit(Mark { x: 0, y: 0 }, MARK_OPACITY);
        let now = canvas.pixels[0];
        assert!(now >= last);
        assert!(now < 1_000_000);
        last = now;
    }
    assert!(last > 900_000);
}
