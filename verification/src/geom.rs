//! Points, segments and the planar jitter direction.
//!
//! Coordinates are non-negative fixed-point values (see `fixed`). A jitter
//! direction is a planar unit vector in fixed point: its components are
//! scaled magnitudes with `cx*cx + sy*sy <= SCALE*SCALE`, so an offset built
//! from it never leaves the disk of the requested radius.

use vstd::prelude::*;
use crate::fixed::{
    SCALE, lerp_spec, sqrt_ceil, fx_lerp, fx_abs_diff, isqrt_ceil_u128, lemma_lerp_between,
    lemma_scaled_div_sq,
};

verus! {

/// A point of the 3D scene, all coordinates non-negative fixed point.
#[derive(Clone, Copy, PartialEq, Eq, Structural, Debug)]
pub struct Point3 {
    pub x: u64,
    pub y: u64,
    pub z: u64,
}

/// A 3D line segment: the ordered pair of its endpoints.
#[derive(Clone, Copy, PartialEq, Eq, Structural, Debug)]
pub struct Segment {
    pub p1: Point3,
    pub p2: Point3,
}

/// An emitted planar mark; jitter can push it off the canvas, so its
/// coordinates are signed.
#[derive(Clone, Copy, PartialEq, Eq, Structural, Debug)]
pub struct Mark {
    pub x: i64,
    pub y: i64,
}

/// The x coordinate of the point a fraction `t` of the way along `seg`.
pub open spec fn point_x(seg: Segment, t: int) -> int {
    lerp_spec(seg.p1.x as int, seg.p2.x as int, t)
}

/// The y coordinate of the point a fraction `t` of the way along `seg`.
pub open spec fn point_y(seg: Segment, t: int) -> int {
    lerp_spec(seg.p1.y as int, seg.p2.y as int, t)
}

/// The z coordinate of the point a fraction `t` of the way along `seg`.
pub open spec fn point_z(seg: Segment, t: int) -> int {
    lerp_spec(seg.p1.z as int, seg.p2.z as int, t)
}

impl Segment {
    /// The point a fraction `t` (of `SCALE`) of the way from `p1` to `p2`:
    /// the exact truncating convex combination, coordinate by coordinate, and
    /// it stays inside the segment's bounding box.
    pub fn sample(&self, t: u64) -> (v: Point3)
        requires
            t < SCALE,
        ensures
            v.x == point_x(*self, t as int),
            v.y == point_y(*self, t as int),
            v.z == point_z(*self, t as int),
            v.x <= self.p1.x || v.x <= self.p2.x,
            v.y <= self.p1.y || v.y <= self.p2.y,
            v.z <= self.p1.z || v.z <= self.p2.z,
    {
        Point3 {
            x: fx_lerp(self.p1.x, self.p2.x, t),
            y: fx_lerp(self.p1.y, self.p2.y, t),
            z: fx_lerp(self.p1.z, self.p2.z, t),
        }
    }
}

/// The distance between two points measured purely along the depth axis:
/// the focal-plane camera model.
pub fn plane_distance(a: Point3, b: Point3) -> (d: u64)
    ensures
        d == if b.z >= a.z { b.z - a.z } else { a.z - b.z },
{
    fx_abs_diff(b.z, a.z)
}

/// Every sampled point lies on its segment: each coordinate is the exact
/// truncating convex combination of the endpoints' coordinates and stays
/// between them.
pub proof fn lemma_sample_point_on_segment(seg: Segment, t: int)
    requires
        0 <= t < SCALE,
    ensures
        point_x(seg, t) == ((SCALE - t) * seg.p1.x + t * seg.p2.x) / (SCALE as int),
        point_y(seg, t) == ((SCALE - t) * seg.p1.y + t * seg.p2.y) / (SCALE as int),
        point_z(seg, t) == ((SCALE - t) * seg.p1.z + t * seg.p2.z) / (SCALE as int),
        seg.p1.x <= seg.p2.x ==> seg.p1.x <= point_x(seg, t) <= seg.p2.x,
        seg.p2.x <= seg.p1.x ==> seg.p2.x <= point_x(seg, t) <= seg.p1.x,
        seg.p1.y <= seg.p2.y ==> seg.p1.y <= point_y(seg, t) <= seg.p2.y,
        seg.p2.y <= seg.p1.y ==> seg.p2.y <= point_y(seg, t) <= seg.p1.y,
        seg.p1.z <= seg.p2.z ==> seg.p1.z <= point_z(seg, t) <= seg.p2.z,
        seg.p2.z <= seg.p1.z ==> seg.p2.z <= point_z(seg, t) <= seg.p1.z,
{
    lemma_lerp_between(seg.p1.x as int, seg.p2.x as int, t);
    lemma_lerp_between(seg.p1.y as int, seg.p2.y as int, t);
    lemma_lerp_between(seg.p1.z as int, seg.p2.z as int, t);
}

/// Which quarter turn a fraction `u` of a full turn falls into (0 to 3).
pub open spec fn quarter_spec(u: int) -> int {
    (4 * u) / (SCALE as int)
}

/// How far into its quarter turn the fraction `u` is, in `[0, SCALE)`.
pub open spec fn qfrac_spec(u: int) -> int {
    (4 * u) % (SCALE as int)
}

/// The unnormalised horizontal magnitude: a triangle wave over the turn.
pub open spec fn dir_a_spec(u: int) -> int {
    if quarter_spec(u) % 2 == 0 {
        SCALE - qfrac_spec(u)
    } else {
        qfrac_spec(u)
    }
}

/// The unnormalised vertical magnitude, complementary to `dir_a_spec`.
pub open spec fn dir_b_spec(u: int) -> int {
    if quarter_spec(u) % 2 == 0 {
        qfrac_spec(u)
    } else {
        SCALE - qfrac_spec(u)
    }
}

/// The rounded-up norm the raw magnitudes are divided by.
pub open spec fn dir_h_spec(u: int) -> int {
    sqrt_ceil(dir_a_spec(u) * dir_a_spec(u) + dir_b_spec(u) * dir_b_spec(u))
}

/// The horizontal magnitude of the unit direction for turn fraction `u`.
pub open spec fn dir_cx_mag_spec(u: int) -> int {
    (dir_a_spec(u) * (SCALE as int)) / dir_h_spec(u)
}

/// The vertical magnitude of the unit direction for turn fraction `u`.
pub open spec fn dir_sy_mag_spec(u: int) -> int {
    (dir_b_spec(u) * (SCALE as int)) / dir_h_spec(u)
}

/// Whether the direction points towards negative x (second or third quarter).
pub open spec fn dir_x_neg_spec(u: int) -> bool {
    quarter_spec(u) == 1 || quarter_spec(u) == 2
}

/// Whether the direction points towards negative y (third or fourth quarter).
pub open spec fn dir_y_neg_spec(u: int) -> bool {
    quarter_spec(u) == 2 || quarter_spec(u) == 3
}

/// The raw magnitudes split one whole unit between them.
proof fn lemma_dir_raw(u: int)
    requires
        0 <= u < SCALE,
    ensures
        0 <= qfrac_spec(u) < SCALE,
        0 <= quarter_spec(u) <= 3,
        0 <= dir_a_spec(u) <= SCALE,
        0 <= dir_b_spec(u) <= SCALE,
        dir_a_spec(u) + dir_b_spec(u) == SCALE,
{
    vstd::arithmetic::div_mod::lemma_fundamental_div_mod(4 * u, SCALE as int);
    vstd::arithmetic::div_mod::lemma_remainder_lower(4 * u, SCALE as int);
    vstd::arithmetic::div_mod::lemma_remainder_upper(4 * u, SCALE as int);
    assert(0 <= quarter_spec(u) <= 3) by {
        vstd::arithmetic::div_mod::lemma_div_pos_is_pos(4 * u, SCALE as int);
        vstd::arithmetic::div_mod::lemma_div_is_ordered(4 * u, 4 * (SCALE as int) - 1, SCALE as int);
    };
}

/// The normalised direction magnitudes describe a point of the closed unit
/// disk: their squares sum to at most one square unit.
pub proof fn lemma_dir_mag_bound(u: int)
    requires
        0 <= u < SCALE,
    ensures
        0 <= dir_cx_mag_spec(u) <= SCALE,
        0 <= dir_sy_mag_spec(u) <= SCALE,
        dir_cx_mag_spec(u) * dir_cx_mag_spec(u) + dir_sy_mag_spec(u) * dir_sy_mag_spec(u)
            <= (SCALE as int) * (SCALE as int),
{
    lemma_dir_raw(u);
    let a: int = dir_a_spec(u);
    let b: int = dir_b_spec(u);
    let n2: int = a * a + b * b;
    assert(0 < n2 && n2 <= (SCALE as int) * (SCALE as int)) by (nonlinear_arith)
        requires
            0 <= a,
            0 <= b,
            a + b == SCALE,
            n2 == a * a + b * b,
            SCALE == 1_000_000,
    ;
    crate::fixed::lemma_sqrt_ceil_facts(n2);
    let h: int = dir_h_spec(u);
    assert(h >= 1 && h * h >= n2);
    let c: int = dir_cx_mag_spec(u);
    let s: int = dir_sy_mag_spec(u);
    lemma_scaled_div_sq(a, SCALE as int, h);
    lemma_scaled_div_sq(b, SCALE as int, h);
    assert((c * c + s * s) * (h * h) <= n2 * ((SCALE as int) * (SCALE as int))) by (nonlinear_arith)
        requires
            (c * c) * (h * h) <= (a * a) * ((SCALE as int) * (SCALE as int)),
            (s * s) * (h * h) <= (b * b) * ((SCALE as int) * (SCALE as int)),
            n2 == a * a + b * b,
    ;
    assert(c * c + s * s <= (SCALE as int) * (SCALE as int)) by (nonlinear_arith)
        requires
            (c * c + s * s) * (h * h) <= n2 * ((SCALE as int) * (SCALE as int)),
            n2 <= h * h,
            h >= 1,
            0 <= n2,
            0 <= c,
            0 <= s,
    ;
    assert(c <= SCALE && s <= SCALE) by (nonlinear_arith)
        requires
            c * c + s * s <= (SCALE as int) * (SCALE as int),
            0 <= c,
            0 <= s,
            SCALE == 1_000_000,
    ;
}

/// A planar unit direction in fixed point: component magnitudes and the
/// sign each component carries.
#[derive(Clone, Copy, PartialEq, Eq, Structural, Debug)]
pub struct Dir {
    pub neg_x: bool,
    pub neg_y: bool,
    pub mx: u64,
    pub my: u64,
}

/// The unit direction for a turn fraction `u` in `[0, SCALE)`: the quarter
/// turn fixes the signs, a triangle wave fixes the raw magnitudes, and a
/// rounded-up norm scales them back onto (or just inside) the unit circle.
pub fn unit_dir(u: u64) -> (d: Dir)
    requires
        u < SCALE,
    ensures
        d.mx == dir_cx_mag_spec(u as int),
        d.my == dir_sy_mag_spec(u as int),
        d.neg_x == dir_x_neg_spec(u as int),
        d.neg_y == dir_y_neg_spec(u as int),
        d.mx <= SCALE,
        d.my <= SCALE,
        (d.mx as int) * (d.mx as int) + (d.my as int) * (d.my as int)
            <= (SCALE as int) * (SCALE as int),
{
    proof {
        lemma_dir_raw(u as int);
        lemma_dir_mag_bound(u as int);
    }
    let phase: u64 = 4 * u;
    let q: u64 = phase / SCALE;
    let f: u64 = phase % SCALE;
    let a: u64 = if q % 2 == 0 {
        SCALE - f
    } else {
        f
    };
    let b: u64 = if q % 2 == 0 {
        f
    } else {
        SCALE - f
    };
    proof {
        assert((a as int) * (a as int) + (b as int) * (b as int)
            <= (SCALE as int) * (SCALE as int)) by (nonlinear_arith)
            requires
                0 <= a,
                0 <= b,
                a + b == SCALE,
                SCALE == 1_000_000,
        ;
    }
    let n2: u64 = a * a + b * b;
    let h: u64 = isqrt_ceil_u128(n2 as u128);
    proof {
        assert(2 * (n2 as int) >= (SCALE as int) * (SCALE as int)) by (nonlinear_arith)
            requires
                a + b == SCALE,
                0 <= a,
                0 <= b,
                n2 == (a as int) * (a as int) + (b as int) * (b as int),
                SCALE == 1_000_000,
        ;
        crate::fixed::lemma_sqrt_ceil_facts(n2 as int);
        assert(h == dir_h_spec(u as int));
        assert(h >= 1);
        assert((a as int) * (SCALE as int) <= 0xe8d4a51000i64 as int) by (nonlinear_arith)
            requires
                a <= SCALE,
                SCALE == 1_000_000,
        ;
        vstd::arithmetic::div_mod::lemma_div_is_ordered(
            (a as int) * (SCALE as int),
            0xe8d4a51000i64 as int,
            h as int,
        );
        vstd::arithmetic::div_mod::lemma_div_nonincreasing(0xe8d4a51000i64 as int, h as int);
        assert((b as int) * (SCALE as int) <= 0xe8d4a51000i64 as int) by (nonlinear_arith)
            requires
                b <= SCALE,
                SCALE == 1_000_000,
        ;
        vstd::arithmetic::div_mod::lemma_div_is_ordered(
            (b as int) * (SCALE as int),
            0xe8d4a51000i64 as int,
            h as int,
        );
    }
    let cm: u64 = (a * SCALE) / h;
    let sm: u64 = (b * SCALE) / h;
    Dir { neg_x: q == 1 || q == 2, neg_y: q == 2 || q == 3, mx: cm, my: sm }
}

} // verus!
