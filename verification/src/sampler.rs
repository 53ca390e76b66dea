//! The depth-of-field sampler: the circle-of-confusion law and the
//! Monte-Carlo render loop.
//!
//! Per sample: pick a point on a segment by one uniform draw, measure its
//! depth distance from the camera plane, turn the offset from the focal
//! plane into a blur radius by the superlinear law `m * x^(e2/2)`, jitter
//! the planar projection by that radius in a uniformly drawn direction, and
//! emit the mark. Every mark is an exact function of the scene, the seed and
//! the stream position, which is what the render contract states.

use vstd::prelude::*;
use crate::fixed::{
    SCALE, POW_ARG_MAX, POW_EXP_MAX, fx_mul_spec, fx_pow_spec, pow_cap, sqrt_floor,
    fx_mul, fx_pow, fx_abs_diff, isqrt_u128, lemma_sqrt_floor_is, lemma_pow_cap_monotone,
    lemma_pow_cap_top, lemma_fx_pow_monotone, lemma_fx_pow_nonneg, lemma_fx_pow_zero,
    lemma_fx_mul_monotone, lemma_fx_mul_zero, lemma_sqrt_floor_monotone,
    lemma_sqrt_floor_exists, lemma_scaled_div_sq,
};
use crate::geom::{
    Point3, Segment, Mark, Dir, point_x, point_y, point_z, dir_cx_mag_spec, dir_sy_mag_spec,
    dir_x_neg_spec, dir_y_neg_spec, lemma_dir_mag_bound, lemma_sample_point_on_segment,
    plane_distance, unit_dir,
};
use crate::canvas::{Canvas, deposit_upto_spec};
use crate::rng::{RandomStream, rng_draw, unit_spec, unit_from_bits};
use crate::scene::{Scene, seg_wf, MAX_DEPTH, MAX_SEGMENTS};

verus! {

/// The blur coefficient `m = 0.4`, in micro-units.
pub const BLUR_M: u64 = 400_000;

/// The blur exponent in half units: 11 stands for `e = 5.5`.
pub const BLUR_E2: u64 = 11;

/// The largest blur coefficient the radius law accepts (16 whole units).
pub const BLUR_M_MAX: u64 = 16 * SCALE;

/// An upper bound on every computed radius, in micro-units.
pub const RADIUS_MAX: u64 = 36_028_797_018_963_968;

/// Iteration count of the accumulating multi-frame mode.
pub const ITERATIONS_ACCUM: u64 = 5000;

/// Iteration count of the single-pass prerender mode.
pub const ITERATIONS_PRERENDER: u64 = 1000;

/// The opacity of every emitted mark (0.001), in micro-units.
pub const MARK_OPACITY: u64 = 1_000;

/// The absolute difference of two values.
pub open spec fn dist_spec(a: int, b: int) -> int {
    if a >= b {
        a - b
    } else {
        b - a
    }
}

/// The circle-of-confusion law: the radius for focal offset `x` is
/// `m` times the square root of `x` to the `e2`-th power, everything in
/// truncating fixed point (so the exponent is `e2 / 2`).
pub open spec fn blur_spec(m: int, e2: nat, x: int) -> int {
    fx_mul_spec(m, sqrt_floor(fx_pow_spec(x, e2) * (SCALE as int)))
}

/// The computed blur radius is never negative.
pub proof fn lemma_blur_nonneg(m: int, e2: nat, x: int)
    requires
        0 <= m,
        0 <= x,
    ensures
        0 <= blur_spec(m, e2, x),
{
    lemma_fx_pow_nonneg(x, e2);
    lemma_sqrt_floor_exists(fx_pow_spec(x, e2) * (SCALE as int));
    lemma_fx_mul_monotone(0, m, 0, sqrt_floor(fx_pow_spec(x, e2) * (SCALE as int)));
}

/// On the focal plane the radius is exactly zero, whatever the coefficient
/// and exponent.
pub proof fn lemma_blur_zero_at_focus(m: int, e2: nat)
    requires
        1 <= e2,
    ensures
        blur_spec(m, e2, 0) == 0,
{
    lemma_fx_pow_zero(e2);
    assert(sqrt_floor(0) == 0);
    lemma_fx_mul_zero(m);
}

/// Blur-radius monotonicity: a larger offset from the focal plane never
/// gives a smaller radius.
pub proof fn lemma_blur_monotone(m: int, e2: nat, x1: int, x2: int)
    requires
        0 <= m,
        0 <= x1 <= x2,
    ensures
        blur_spec(m, e2, x1) <= blur_spec(m, e2, x2),
{
    lemma_fx_pow_monotone(x1, x2, e2);
    lemma_fx_pow_nonneg(x1, e2);
    let p1 = fx_pow_spec(x1, e2) * (SCALE as int);
    let p2 = fx_pow_spec(x2, e2) * (SCALE as int);
    lemma_sqrt_floor_monotone(p1, p2);
    lemma_sqrt_floor_exists(p1);
    lemma_fx_mul_monotone(m, m, sqrt_floor(p1), sqrt_floor(p2));
}

/// The blur radius for a focal offset `x`, truncating fixed point.
pub fn blur_radius(m: u64, e2: u64, x: u64) -> (r: u64)
    requires
        m <= BLUR_M_MAX,
        1 <= e2 <= POW_EXP_MAX,
        x <= POW_ARG_MAX,
    ensures
        r == blur_spec(m as int, e2 as nat, x as int),
        r <= RADIUS_MAX,
{
    let p: u128 = fx_pow(x, e2);
    proof {
        lemma_pow_cap_monotone(e2 as nat, POW_EXP_MAX as nat);
        lemma_pow_cap_top();
        assert(p <= 1152921504606846976000000u128);
        assert((p as int) * (SCALE as int) <= 1152921504606846976000000000000int)
            by (nonlinear_arith)
            requires
                p <= 1152921504606846976000000u128,
                SCALE == 1_000_000,
        ;
    }
    let ps: u128 = p * (SCALE as u128);
    let s: u64 = isqrt_u128(ps);
    proof {
        lemma_sqrt_floor_is(s as int, ps as int);
        assert(s <= 1_100_000_000_000_000u64) by (nonlinear_arith)
            requires
                (s as int) * (s as int) <= ps as int,
                ps <= 1152921504606846976000000000000u128,
                s >= 0,
        ;
        assert((m as int) * (s as int) <= (SCALE as int) * (u64::MAX as int))
            by (nonlinear_arith)
            requires
                m <= BLUR_M_MAX,
                BLUR_M_MAX == 16_000_000u64,
                s <= 1_100_000_000_000_000u64,
                SCALE == 1_000_000,
        ;
    }
    let r: u64 = fx_mul(m, s);
    proof {
        assert((m as int) * (s as int) <= 17_600_000_000_000_000_000_000int) by (nonlinear_arith)
            requires
                m <= 16_000_000u64,
                s <= 1_100_000_000_000_000u64,
        ;
        vstd::arithmetic::div_mod::lemma_div_is_ordered(
            (m as int) * (s as int),
            17_600_000_000_000_000_000_000int,
            SCALE as int,
        );
    }
    r
}

/// The x coordinate of the mark for segment `seg`, camera `cam`, focal
/// distance `focus` and the two draws `tb` (position on the segment) and
/// `ab` (jitter direction).
pub open spec fn mark_x_spec(seg: Segment, cam: Point3, focus: int, tb: u32, ab: u32) -> int {
    let t: int = unit_spec(tb);
    let vx: int = point_x(seg, t);
    let vz: int = point_z(seg, t);
    let d: int = dist_spec(vz, cam.z as int);
    let xx: int = dist_spec(focus, d);
    let r: int = blur_spec(BLUR_M as int, BLUR_E2 as nat, xx);
    let u: int = unit_spec(ab);
    let ox: int = fx_mul_spec(r, dir_cx_mag_spec(u));
    if dir_x_neg_spec(u) {
        vx - ox
    } else {
        vx + ox
    }
}

/// The y coordinate of the mark, as `mark_x_spec`.
pub open spec fn mark_y_spec(seg: Segment, cam: Point3, focus: int, tb: u32, ab: u32) -> int {
    let t: int = unit_spec(tb);
    let vy: int = point_y(seg, t);
    let vz: int = point_z(seg, t);
    let d: int = dist_spec(vz, cam.z as int);
    let xx: int = dist_spec(focus, d);
    let r: int = blur_spec(BLUR_M as int, BLUR_E2 as nat, xx);
    let u: int = unit_spec(ab);
    let oy: int = fx_mul_spec(r, dir_sy_mag_spec(u));
    if dir_y_neg_spec(u) {
        vy - oy
    } else {
        vy + oy
    }
}

/// Emits the mark for one sample: the point a drawn fraction along the
/// segment, orthographically projected and jittered by the blur radius.
pub fn sample_mark(seg: &Segment, camera: Point3, focus: u64, depth: u64, tb: u32, ab: u32) -> (mk:
    Mark)
    requires
        seg_wf(*seg, depth),
        depth <= MAX_DEPTH,
        camera.z <= depth,
        focus <= depth,
    ensures
        mk.x == mark_x_spec(*seg, camera, focus as int, tb, ab),
        mk.y == mark_y_spec(*seg, camera, focus as int, tb, ab),
{
    let t: u64 = unit_from_bits(tb);
    let v: Point3 = seg.sample(t);
    let d: u64 = plane_distance(camera, v);
    let xx: u64 = fx_abs_diff(focus, d);
    let r: u64 = blur_radius(BLUR_M, BLUR_E2, xx);
    let u: u64 = unit_from_bits(ab);
    let dir: Dir = unit_dir(u);
    proof {
        assert((r as int) * (dir.mx as int) <= (SCALE as int) * (u64::MAX as int))
            by (nonlinear_arith)
            requires
                r <= RADIUS_MAX,
                RADIUS_MAX == 36_028_797_018_963_968u64,
                dir.mx <= SCALE,
                SCALE == 1_000_000,
        ;
        assert((r as int) * (dir.my as int) <= (SCALE as int) * (u64::MAX as int))
            by (nonlinear_arith)
            requires
                r <= RADIUS_MAX,
                RADIUS_MAX == 36_028_797_018_963_968u64,
                dir.my <= SCALE,
                SCALE == 1_000_000,
        ;
    }
    let ox: u64 = fx_mul(r, dir.mx);
    let oy: u64 = fx_mul(r, dir.my);
    proof {
        lemma_fx_mul_monotone(r as int, r as int, dir.mx as int, SCALE as int);
        lemma_fx_mul_monotone(r as int, r as int, dir.my as int, SCALE as int);
        assert(fx_mul_spec(r as int, SCALE as int) == r) by (nonlinear_arith)
            requires
                SCALE == 1_000_000,
                r >= 0,
        ;
    }
    let px: i64 = if dir.neg_x {
        (v.x as i64) - (ox as i64)
    } else {
        (v.x as i64) + (ox as i64)
    };
    let py: i64 = if dir.neg_y {
        (v.y as i64) - (oy as i64)
    } else {
        (v.y as i64) + (oy as i64)
    };
    Mark { x: px, y: py }
}

/// The mark emitted at position `k` of a render whose stream stood at draw
/// position `j`: segment `k` modulo the segment count, position drawn at
/// `j`, direction drawn at `j + 1`.
pub open spec fn mark_at(s: Scene, k: int, seed: u64, j: nat) -> (int, int) {
    let seg = s.segments@[k % (s.segments@.len() as int)];
    (
        mark_x_spec(seg, s.camera, s.focus_distance as int, rng_draw(seed, j), rng_draw(seed, (j + 1) as nat)),
        mark_y_spec(seg, s.camera, s.focus_distance as int, rng_draw(seed, j), rng_draw(seed, (j + 1) as nat)),
    )
}

/// Renders one pass: for `iterations` repetitions over every segment in
/// stored order, one mark per segment per repetition, drawing exactly two
/// values per mark in a fixed order. The result is pinned, mark by mark, to
/// the seed and the stream position, so a render is exactly reproducible;
/// with zero iterations nothing is drawn and nothing is emitted.
pub fn render(scene: &Scene, iterations: u64, stream: &mut RandomStream) -> (marks: Vec<Mark>)
    requires
        scene.wf(),
        iterations <= 1_000_000,
    ensures
        marks@.len() == (iterations as int) * (scene.segments@.len() as int),
        forall|k: int|
            0 <= k < marks@.len() ==> {
                &&& (#[trigger] marks@[k]).x == mark_at(
                    *scene,
                    k,
                    old(stream).seed(),
                    (old(stream).drawn() + 2 * k) as nat,
                ).0
                &&& marks@[k].y == mark_at(
                    *scene,
                    k,
                    old(stream).seed(),
                    (old(stream).drawn() + 2 * k) as nat,
                ).1
            },
        final(stream).seed() == old(stream).seed(),
        final(stream).drawn() == old(stream).drawn() + 2 * marks@.len(),
{
    let len: u64 = scene.segments.len() as u64;
    proof {
        assert((iterations as int) * (len as int) <= 100_000_000_000int) by (nonlinear_arith)
            requires
                iterations <= 1_000_000,
                len <= MAX_SEGMENTS,
                MAX_SEGMENTS == 100_000u64,
        ;
    }
    let total: u64 = iterations * len;
    let mut marks: Vec<Mark> = Vec::new();
    let mut k: u64 = 0;
    while k < total
        invariant
            scene.wf(),
            len == scene.segments@.len(),
            total == iterations * len,
            k <= total,
            marks@.len() == k,
            stream.seed() == old(stream).seed(),
            stream.drawn() == old(stream).drawn() + 2 * k,
            forall|j: int|
                0 <= j < k ==> {
                    &&& (#[trigger] marks@[j]).x == mark_at(
                        *scene,
                        j,
                        old(stream).seed(),
                        (old(stream).drawn() + 2 * j) as nat,
                    ).0
                    &&& marks@[j].y == mark_at(
                        *scene,
                        j,
                        old(stream).seed(),
                        (old(stream).drawn() + 2 * j) as nat,
                    ).1
                },
        decreases total - k,
    {
        proof {
            assert(len > 0) by (nonlinear_arith)
                requires
                    total == iterations * len,
                    k < total,
            ;
        }
        let idx: u64 = k % len;
        let tb: u32 = stream.draw_u32();
        let ab: u32 = stream.draw_u32();
        let seg: Segment = scene.segments[idx as usize];
        let mk: Mark = sample_mark(&seg, scene.camera, scene.focus_distance, scene.depth, tb, ab);
        marks.push(mk);
        k = k + 1;
    }
    marks
}

/// One whole accumulation pass: renders `iterations` repetitions over the
/// scene and composites every mark onto the canvas at the fixed mark
/// opacity, in emission order. The canvas ends exactly at the fold of the
/// deposits over the emitted marks; the marks are returned as emitted.
pub fn accumulate(
    scene: &Scene,
    iterations: u64,
    stream: &mut RandomStream,
    canvas: &mut Canvas,
) -> (marks: Vec<Mark>)
    requires
        scene.wf(),
        iterations <= 1_000_000,
        old(canvas).wf(),
    ensures
        marks@.len() == (iterations as int) * (scene.segments@.len() as int),
        forall|k: int|
            0 <= k < marks@.len() ==> {
                &&& (#[trigger] marks@[k]).x == mark_at(
                    *scene,
                    k,
                    old(stream).seed(),
                    (old(stream).drawn() + 2 * k) as nat,
                ).0
                &&& marks@[k].y == mark_at(
                    *scene,
                    k,
                    old(stream).seed(),
                    (old(stream).drawn() + 2 * k) as nat,
                ).1
            },
        final(stream).seed() == old(stream).seed(),
        final(stream).drawn() == old(stream).drawn() + 2 * marks@.len(),
        final(canvas).wf(),
        final(canvas).width == old(canvas).width,
        final(canvas).height == old(canvas).height,
        final(canvas).pixels@ == deposit_upto_spec(
            old(canvas).pixels@,
            marks@,
            marks@.len() as int,
            old(canvas).width as int,
            old(canvas).height as int,
            MARK_OPACITY as int,
        ),
{
    let marks: Vec<Mark> = render(scene, iterations, stream);
    let mut i: usize = 0;
    while i < marks.len()
        invariant
            old(canvas).wf(),
            canvas.wf(),
            canvas.width == old(canvas).width,
            canvas.height == old(canvas).height,
            i <= marks@.len(),
            canvas.pixels@ == deposit_upto_spec(
                old(canvas).pixels@,
                marks@,
                i as int,
                old(canvas).width as int,
                old(canvas).height as int,
                MARK_OPACITY as int,
            ),
        decreases marks@.len() - i,
    {
        canvas.deposit(marks[i], MARK_OPACITY);
        i = i + 1;
    }
    marks
}

/// Determinism: two mark sequences that both satisfy the render contract
/// for the same scene, iteration count, seed and stream position are equal,
/// element for element — a render is exactly reproducible.
pub proof fn lemma_render_deterministic(
    s: Scene,
    n: int,
    seed: u64,
    start: nat,
    m1: Seq<Mark>,
    m2: Seq<Mark>,
)
    requires
        m1.len() == n * s.segments@.len(),
        m2.len() == n * s.segments@.len(),
        forall|k: int|
            0 <= k < m1.len() ==> (#[trigger] m1[k]).x == mark_at(s, k, seed, (start + 2 * k) as nat).0
                && m1[k].y == mark_at(s, k, seed, (start + 2 * k) as nat).1,
        forall|k: int|
            0 <= k < m2.len() ==> (#[trigger] m2[k]).x == mark_at(s, k, seed, (start + 2 * k) as nat).0
                && m2[k].y == mark_at(s, k, seed, (start + 2 * k) as nat).1,
    ensures
        m1 == m2,
{
    assert forall|k: int| 0 <= k < m1.len() implies m1[k] == m2[k] by {
        assert(m1[k].x == m2[k].x && m1[k].y == m2[k].y);
        assert(m1[k] == Mark { x: m1[k].x, y: m1[k].y });
        assert(m2[k] == Mark { x: m2[k].x, y: m2[k].y });
    };
    assert(m1 =~= m2);
}

/// Segment containment: for any draw, the unjittered sample point lies on
/// its segment — each coordinate is the truncating convex combination of
/// the endpoints for the drawn fraction, and stays between them.
pub proof fn lemma_drawn_sample_on_segment(seg: Segment, tb: u32)
    ensures
        ({
            let t: int = unit_spec(tb);
            &&& 0 <= t < SCALE
            &&& point_x(seg, t) == ((SCALE - t) * seg.p1.x + t * seg.p2.x) / (SCALE as int)
            &&& point_y(seg, t) == ((SCALE - t) * seg.p1.y + t * seg.p2.y) / (SCALE as int)
            &&& point_z(seg, t) == ((SCALE - t) * seg.p1.z + t * seg.p2.z) / (SCALE as int)
            &&& (seg.p1.x <= seg.p2.x ==> seg.p1.x <= point_x(seg, t) <= seg.p2.x)
            &&& (seg.p2.x <= seg.p1.x ==> seg.p2.x <= point_x(seg, t) <= seg.p1.x)
            &&& (seg.p1.y <= seg.p2.y ==> seg.p1.y <= point_y(seg, t) <= seg.p2.y)
            &&& (seg.p2.y <= seg.p1.y ==> seg.p2.y <= point_y(seg, t) <= seg.p1.y)
            &&& (seg.p1.z <= seg.p2.z ==> seg.p1.z <= point_z(seg, t) <= seg.p2.z)
            &&& (seg.p2.z <= seg.p1.z ==> seg.p2.z <= point_z(seg, t) <= seg.p1.z)
        }),
{
    crate::rng::lemma_unit_spec_range(tb);
    lemma_sample_point_on_segment(seg, unit_spec(tb));
}

/// The jitter bound: the planar displacement of a mark from its unjittered
/// projected point never leaves the disk of the computed blur radius.
pub proof fn lemma_mark_jitter_bound(seg: Segment, cam: Point3, focus: int, tb: u32, ab: u32)
    requires
        0 <= focus,
    ensures
        ({
            let t: int = unit_spec(tb);
            let r: int = blur_spec(
                BLUR_M as int,
                BLUR_E2 as nat,
                dist_spec(focus, dist_spec(point_z(seg, t), cam.z as int)),
            );
            let dx: int = mark_x_spec(seg, cam, focus, tb, ab) - point_x(seg, t);
            let dy: int = mark_y_spec(seg, cam, focus, tb, ab) - point_y(seg, t);
            dx * dx + dy * dy <= r * r
        }),
{
    let t: int = unit_spec(tb);
    let u: int = unit_spec(ab);
    crate::rng::lemma_unit_spec_range(ab);
    let xx: int = dist_spec(focus, dist_spec(point_z(seg, t), cam.z as int));
    let r: int = blur_spec(BLUR_M as int, BLUR_E2 as nat, xx);
    lemma_blur_nonneg(BLUR_M as int, BLUR_E2 as nat, xx);
    lemma_dir_mag_bound(u);
    let c: int = dir_cx_mag_spec(u);
    let sy: int = dir_sy_mag_spec(u);
    let ox: int = fx_mul_spec(r, c);
    let oy: int = fx_mul_spec(r, sy);
    lemma_scaled_div_sq(r, c, SCALE as int);
    lemma_scaled_div_sq(r, sy, SCALE as int);
    assert((ox * ox + oy * oy) * ((SCALE as int) * (SCALE as int))
        == (ox * ox) * ((SCALE as int) * (SCALE as int)) + (oy * oy) * ((SCALE as int) * (SCALE
        as int))) by (nonlinear_arith);
    assert((r * r) * (c * c) + (r * r) * (sy * sy) == (r * r) * (c * c + sy * sy))
        by (nonlinear_arith);
    assert((r * r) * (c * c + sy * sy) <= (r * r) * ((SCALE as int) * (SCALE as int)))
        by (nonlinear_arith)
        requires
            c * c + sy * sy <= (SCALE as int) * (SCALE as int),
            0 <= r,
    ;
    assert(ox * ox + oy * oy <= r * r) by (nonlinear_arith)
        requires
            (ox * ox + oy * oy) * ((SCALE as int) * (SCALE as int))
                <= (r * r) * ((SCALE as int) * (SCALE as int)),
            SCALE == 1_000_000,
    ;
    let dx: int = mark_x_spec(seg, cam, focus, tb, ab) - point_x(seg, t);
    let dy: int = mark_y_spec(seg, cam, focus, tb, ab) - point_y(seg, t);
    assert(dx == ox || dx == -ox);
    assert(dy == oy || dy == -oy);
    assert(dx * dx == ox * ox) by (nonlinear_arith)
        requires
            dx == ox || dx == -ox,
    ;
    assert(dy * dy == oy * oy) by (nonlinear_arith)
        requires
            dy == oy || dy == -oy,
    ;
}

} // verus!
