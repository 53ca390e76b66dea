//! The immutable scene: a fixed set of 3D segments, a camera on the planar
//! centre, and a focal configuration.
//!
//! The builder draws every endpoint coordinate from the random stream, so
//! the whole scene is an exact function of the seed; its contract pins each
//! coordinate to the corresponding draw.

use vstd::prelude::*;
use crate::fixed::{SCALE, fx_mul_spec, fx_mul};
use crate::geom::{Point3, Segment};
use crate::rng::{RandomStream, rng_draw, unit_spec};

verus! {

/// The depth extent of every scene, in micro-units (20 whole units).
pub const DEPTH_FX: u64 = 20 * SCALE;

/// How many segments a scene holds.
pub const SEGMENT_COUNT: u64 = 30;

/// The largest planar coordinate a scene admits, in micro-units.
pub const MAX_COORD: u64 = 1_099_511_627_776;

/// The largest depth extent a well-formed scene admits (32 whole units).
pub const MAX_DEPTH: u64 = 32 * SCALE;

/// How many segments a well-formed scene may hold at most.
pub const MAX_SEGMENTS: u64 = 100_000;

/// A segment whose coordinates stay inside the scene's box.
pub open spec fn seg_wf(s: Segment, depth: u64) -> bool {
    &&& s.p1.x <= MAX_COORD
    &&& s.p1.y <= MAX_COORD
    &&& s.p1.z <= depth
    &&& s.p2.x <= MAX_COORD
    &&& s.p2.y <= MAX_COORD
    &&& s.p2.z <= depth
}

/// The immutable scene state read by every render.
pub struct Scene {
    pub segments: Vec<Segment>,
    pub camera: Point3,
    pub focus_distance: u64,
    pub depth: u64,
}

impl Scene {
    /// Well-formedness: bounded depth, focus and camera inside the depth
    /// range, planar coordinates inside the box, boundedly many segments.
    pub open spec fn wf(&self) -> bool {
        &&& self.depth <= MAX_DEPTH
        &&& self.focus_distance <= self.depth
        &&& self.camera.x <= MAX_COORD
        &&& self.camera.y <= MAX_COORD
        &&& self.camera.z <= self.depth
        &&& self.segments@.len() <= MAX_SEGMENTS
        &&& forall|i: int|
            0 <= i < self.segments@.len() ==> seg_wf(#[trigger] self.segments@[i], self.depth)
    }
}

/// The coordinate drawn at position `k` of the stream, scaled into
/// `[0, limit)`.
pub open spec fn coord_spec(limit: int, seed: u64, k: nat) -> int {
    fx_mul_spec(limit, unit_spec(rng_draw(seed, k)))
}

/// The segment whose six coordinates are the draws at positions
/// `base` to `base + 5`: first endpoint x, y, z, then second endpoint x, y, z.
pub open spec fn built_segment_spec(wfx: int, hfx: int, seed: u64, base: nat) -> Segment {
    Segment {
        p1: Point3 {
            x: coord_spec(wfx, seed, base) as u64,
            y: coord_spec(hfx, seed, (base + 1) as nat) as u64,
            z: coord_spec(DEPTH_FX as int, seed, (base + 2) as nat) as u64,
        },
        p2: Point3 {
            x: coord_spec(wfx, seed, (base + 3) as nat) as u64,
            y: coord_spec(hfx, seed, (base + 4) as nat) as u64,
            z: coord_spec(DEPTH_FX as int, seed, (base + 5) as nat) as u64,
        },
    }
}

/// A draw scaled into `[0, limit)` stays there.
proof fn lemma_coord_in_range(limit: int, seed: u64, k: nat)
    requires
        0 < limit,
    ensures
        0 <= coord_spec(limit, seed, k) < limit,
{
    let u = unit_spec(rng_draw(seed, k));
    assert(0 <= u < SCALE) by {
        vstd::arithmetic::div_mod::lemma_div_pos_is_pos(
            (rng_draw(seed, k) as int) * (SCALE as int),
            0x1_0000_0000,
        );
        assert((rng_draw(seed, k) as int) * (SCALE as int)
            <= 0xffff_ffffi64 as int * (SCALE as int)) by (nonlinear_arith)
            requires
                rng_draw(seed, k) <= 0xffff_ffffu32,
                SCALE == 1_000_000,
        ;
        vstd::arithmetic::div_mod::lemma_div_is_ordered(
            (rng_draw(seed, k) as int) * (SCALE as int),
            0xffff_ffffi64 as int * (SCALE as int),
            0x1_0000_0000,
        );
    };
    assert(0 <= limit * u) by (nonlinear_arith)
        requires
            0 <= limit,
            0 <= u,
    ;
    vstd::arithmetic::div_mod::lemma_div_pos_is_pos(limit * u, SCALE as int);
    assert(limit * u < limit * (SCALE as int)) by (nonlinear_arith)
        requires
            0 < limit,
            0 <= u < SCALE,
    ;
    vstd::arithmetic::div_mod::lemma_multiply_divide_lt(limit * u, limit, SCALE as int);
}

/// Draws one coordinate in `[0, limit)` from the stream.
fn draw_coord(limit: u64, stream: &mut RandomStream) -> (c: u64)
    requires
        0 < limit <= MAX_COORD,
    ensures
        final(stream).seed() == old(stream).seed(),
        final(stream).drawn() == old(stream).drawn() + 1,
        c == coord_spec(limit as int, old(stream).seed(), old(stream).drawn()),
        c < limit,
    {
    let u: u64 = stream.draw_unit();
    proof {
        lemma_coord_in_range(limit as int, old(stream).seed(), old(stream).drawn());
        assert((limit as int) * (u as int) <= (SCALE as int) * (u64::MAX as int))
            by (nonlinear_arith)
            requires
                limit <= MAX_COORD,
                MAX_COORD == 1_099_511_627_776u64,
                u < SCALE,
                SCALE == 1_000_000,
        ;
    }
    fx_mul(limit, u)
}

/// Builds a scene: working dimensions `width * scale` by `height * scale`,
/// a fixed depth extent, the camera at the planar centre at depth zero, the
/// focal plane halfway into the depth range, and `SEGMENT_COUNT` segments
/// with every endpoint coordinate drawn uniformly from the stream.
pub fn build_scene(width: u32, height: u32, scale: u32, stream: &mut RandomStream) -> (s: Scene)
    requires
        1 <= width,
        1 <= height,
        1 <= scale,
        (width as int) * (scale as int) <= 1_000_000,
        (height as int) * (scale as int) <= 1_000_000,
    ensures
        s.wf(),
        s.depth == DEPTH_FX,
        s.focus_distance == DEPTH_FX / 2,
        s.camera.x == ((width as int) * (scale as int) * (SCALE as int)) / 2,
        s.camera.y == ((height as int) * (scale as int) * (SCALE as int)) / 2,
        s.camera.z == 0,
        s.segments@.len() == SEGMENT_COUNT,
        forall|i: int|
            0 <= i < SEGMENT_COUNT ==> #[trigger] s.segments@[i] == built_segment_spec(
                (width as int) * (scale as int) * (SCALE as int),
                (height as int) * (scale as int) * (SCALE as int),
                old(stream).seed(),
                (old(stream).drawn() + 6 * i) as nat,
            ),
        forall|i: int|
            0 <= i < SEGMENT_COUNT ==> {
                &&& (#[trigger] s.segments@[i]).p1.x
                    < (width as int) * (scale as int) * (SCALE as int)
                &&& s.segments@[i].p1.y < (height as int) * (scale as int) * (SCALE as int)
                &&& s.segments@[i].p1.z < DEPTH_FX
                &&& s.segments@[i].p2.x < (width as int) * (scale as int) * (SCALE as int)
                &&& s.segments@[i].p2.y < (height as int) * (scale as int) * (SCALE as int)
                &&& s.segments@[i].p2.z < DEPTH_FX
            },
        final(stream).seed() == old(stream).seed(),
        final(stream).drawn() == old(stream).drawn() + 6 * SEGMENT_COUNT,
{
    proof {
        assert((width as int) * (scale as int) >= 1 && (height as int) * (scale as int) >= 1)
            by (nonlinear_arith)
            requires
                1 <= width,
                1 <= height,
                1 <= scale,
        ;
    }
    let wu: u64 = (width as u64) * (scale as u64);
    let hu: u64 = (height as u64) * (scale as u64);
    let wfx: u64 = wu * SCALE;
    let hfx: u64 = hu * SCALE;
    let camera = Point3 { x: wfx / 2, y: hfx / 2, z: 0 };
    let mut segments: Vec<Segment> = Vec::new();
    let mut i: u64 = 0;
    while i < SEGMENT_COUNT
        invariant
            i <= SEGMENT_COUNT,
            1 <= wfx <= MAX_COORD,
            1 <= hfx <= MAX_COORD,
            segments@.len() == i,
            stream.seed() == old(stream).seed(),
            stream.drawn() == old(stream).drawn() + 6 * i,
            forall|j: int|
                0 <= j < i ==> #[trigger] segments@[j] == built_segment_spec(
                    wfx as int,
                    hfx as int,
                    old(stream).seed(),
                    (old(stream).drawn() + 6 * j) as nat,
                ),
            forall|j: int|
                0 <= j < i ==> {
                    &&& (#[trigger] segments@[j]).p1.x < wfx
                    &&& segments@[j].p1.y < hfx
                    &&& segments@[j].p1.z < DEPTH_FX
                    &&& segments@[j].p2.x < wfx
                    &&& segments@[j].p2.y < hfx
                    &&& segments@[j].p2.z < DEPTH_FX
                },
        decreases SEGMENT_COUNT - i,
    {
        let x1: u64 = draw_coord(wfx, stream);
        let y1: u64 = draw_coord(hfx, stream);
        let z1: u64 = draw_coord(DEPTH_FX, stream);
        let x2: u64 = draw_coord(wfx, stream);
        let y2: u64 = draw_coord(hfx, stream);
        let z2: u64 = draw_coord(DEPTH_FX, stream);
        let seg = Segment {
            p1: Point3 { x: x1, y: y1, z: z1 },
            p2: Point3 { x: x2, y: y2, z: z2 },
        };
        segments.push(seg);
        i = i + 1;
    }
    Scene { segments, camera, focus_distance: DEPTH_FX / 2, depth: DEPTH_FX }
}

} // verus!
