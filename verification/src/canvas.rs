//! The accumulation canvas: per-pixel coverage built up by repeated
//! low-opacity marks.
//!
//! A pixel's coverage is a fixed-point value in `[0, SCALE]`. A mark of
//! opacity `op` is composited source-over: the coverage grows by `op` times
//! the remaining headroom. With opacity strictly below one unit a single
//! mark can never drive the coverage to full — density builds only through
//! repetition.

use vstd::prelude::*;
use crate::fixed::{SCALE, fx_mul_spec, fx_mul};
use crate::geom::Mark;

verus! {

/// The source-over accumulation of one mark of opacity `op` onto coverage
/// `a`: `a + op * (SCALE - a) / SCALE`, truncating fixed point.
pub open spec fn blend_spec(a: int, op: int) -> int {
    a + fx_mul_spec(op, (SCALE as int) - a)
}

/// Blending never lowers coverage and never overshoots full coverage.
pub proof fn lemma_blend_bounds(a: int, op: int)
    requires
        0 <= a <= SCALE,
        0 <= op <= SCALE,
    ensures
        a <= blend_spec(a, op) <= SCALE,
{
    let room = (SCALE as int) - a;
    assert(0 <= op * room <= (SCALE as int) * room) by (nonlinear_arith)
        requires
            0 <= op <= SCALE,
            0 <= room,
    ;
    vstd::arithmetic::div_mod::lemma_div_pos_is_pos(op * room, SCALE as int);
    vstd::arithmetic::div_mod::lemma_div_is_ordered(op * room, (SCALE as int) * room, SCALE as int);
    assert(((SCALE as int) * room) / (SCALE as int) == room) by (nonlinear_arith)
        requires
            SCALE == 1_000_000,
    ;
}

/// Opacity non-saturation: one mark whose opacity is strictly below one
/// whole unit never drives a pixel's coverage to full, whatever the
/// coverage was before.
pub proof fn lemma_one_mark_never_saturates(a: int, op: int)
    requires
        0 <= a < SCALE,
        0 <= op < SCALE,
    ensures
        blend_spec(a, op) < SCALE,
{
    let room = (SCALE as int) - a;
    assert(op * room < room * (SCALE as int)) by (nonlinear_arith)
        requires
            0 <= op < SCALE,
            1 <= room,
    ;
    vstd::arithmetic::div_mod::lemma_multiply_divide_lt(op * room, room, SCALE as int);
}

/// Composites one mark of opacity `op` onto coverage `a`.
pub fn blend(a: u64, op: u64) -> (r: u64)
    requires
        a <= SCALE,
        op <= SCALE,
    ensures
        r == blend_spec(a as int, op as int),
        a <= r <= SCALE,
        a < SCALE && op < SCALE ==> r < SCALE,
{
    proof {
        lemma_blend_bounds(a as int, op as int);
        if a < SCALE && op < SCALE {
            lemma_one_mark_never_saturates(a as int, op as int);
        }
        assert((op as int) * ((SCALE - a) as int) <= (SCALE as int) * (u64::MAX as int))
            by (nonlinear_arith)
            requires
                op <= SCALE,
                a <= SCALE,
                SCALE == 1_000_000,
        ;
    }
    let add: u64 = fx_mul(op, SCALE - a);
    a + add
}

/// Whether a mark lands on the pixel grid of a `width` by `height` canvas.
pub open spec fn hit_spec(m: Mark, width: int, height: int) -> bool {
    &&& 0 <= m.x
    &&& 0 <= m.y
    &&& (m.x as int) / (SCALE as int) < width
    &&& (m.y as int) / (SCALE as int) < height
}

/// The row-major pixel index a mark lands on.
pub open spec fn hit_index(m: Mark, width: int) -> int {
    ((m.y as int) / (SCALE as int)) * width + (m.x as int) / (SCALE as int)
}

/// One deposit step on a pixel buffer: the pixel the mark lands on is
/// blended, a mark off the grid changes nothing.
pub open spec fn deposit_one_spec(c: Seq<u64>, m: Mark, width: int, height: int, op: int) -> Seq<
    u64,
> {
    if hit_spec(m, width, height) {
        c.update(hit_index(m, width), blend_spec(c[hit_index(m, width)] as int, op) as u64)
    } else {
        c
    }
}

/// The pixel buffer after depositing the first `i` of the given marks in
/// order.
pub open spec fn deposit_upto_spec(
    c0: Seq<u64>,
    marks: Seq<Mark>,
    i: int,
    width: int,
    height: int,
    op: int,
) -> Seq<u64>
    decreases i,
{
    if i <= 0 {
        c0
    } else {
        deposit_one_spec(
            deposit_upto_spec(c0, marks, i - 1, width, height, op),
            marks[i - 1],
            width,
            height,
            op,
        )
    }
}

/// A persistent accumulation buffer of per-pixel coverage.
pub struct Canvas {
    pub width: usize,
    pub height: usize,
    pub pixels: Vec<u64>,
}

impl Canvas {
    /// Well-formedness: one coverage value per pixel, each within a unit.
    pub open spec fn wf(&self) -> bool {
        &&& self.pixels@.len() == (self.width as int) * (self.height as int)
        &&& self.pixels@.len() <= 100_000_000
        &&& forall|i: int| 0 <= i < self.pixels@.len() ==> #[trigger] self.pixels@[i] <= SCALE
    }

    /// A cleared canvas: every pixel at coverage `value`.
    pub fn new_filled(width: usize, height: usize, value: u64) -> (c: Canvas)
        requires
            (width as int) * (height as int) <= 100_000_000,
            value <= SCALE,
        ensures
            c.wf(),
            c.width == width,
            c.height == height,
            forall|i: int| 0 <= i < c.pixels@.len() ==> #[trigger] c.pixels@[i] == value,
    {
        proof {
            assert((width as int) * (height as int) >= 0) by (nonlinear_arith);
        }
        let n: usize = width * height;
        let mut pixels: Vec<u64> = Vec::new();
        let mut i: usize = 0;
        while i < n
            invariant
                i <= n,
                value <= SCALE,
                pixels@.len() == i,
                forall|j: int| 0 <= j < i ==> #[trigger] pixels@[j] == value,
            decreases n - i,
        {
            pixels.push(value);
            i = i + 1;
        }
        Canvas { width, height, pixels }
    }

    /// Composites one mark onto the canvas: the pixel the mark lands on is
    /// blended with the given opacity; a mark off the grid changes nothing.
    pub fn deposit(&mut self, m: Mark, opacity: u64)
        requires
            old(self).wf(),
            opacity <= SCALE,
        ensures
            final(self).wf(),
            final(self).width == old(self).width,
            final(self).height == old(self).height,
            hit_spec(m, old(self).width as int, old(self).height as int) ==> final(self).pixels@
                == old(self).pixels@.update(
                hit_index(m, old(self).width as int),
                blend_spec(
                    old(self).pixels@[hit_index(m, old(self).width as int)] as int,
                    opacity as int,
                ) as u64,
            ),
            !hit_spec(m, old(self).width as int, old(self).height as int) ==> final(self).pixels@
                == old(self).pixels@,
    {
        if m.x < 0 || m.y < 0 {
            return ;
        }
        let px: u64 = (m.x as u64) / SCALE;
        let py: u64 = (m.y as u64) / SCALE;
        if px >= self.width as u64 || py >= self.height as u64 {
            return ;
        }
        proof {
            assert((py as int) * (self.width as int) + (px as int)
                < (self.width as int) * (self.height as int)) by (nonlinear_arith)
                requires
                    0 <= px < self.width as int,
                    0 <= py < self.height as int,
            ;
        }
        let idx: usize = (py as usize) * self.width + (px as usize);
        let old_a: u64 = self.pixels[idx];
        let new_a: u64 = blend(old_a, opacity);
        self.pixels.set(idx, new_a);
    }
}

} // verus!
