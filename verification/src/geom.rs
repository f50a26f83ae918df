//! 2D points and the linear interpolant used by the scanline rasterizer.

use vstd::prelude::*;

use crate::fixed::{clamp_i128, div_trunc, spec_clamp, spec_div_trunc, COORD_LIMIT};
use crate::random::{normal, uniform};

verus! {

/// A 2D coordinate in fixed-point units.  Coordinates may drift far
/// outside the canvas (rasterization clamps at draw time, not here),
/// but their magnitude always stays within `COORD_LIMIT`.
#[derive(Clone, Copy, Debug, PartialEq, Eq, Structural)]
pub struct Point2D {
    pub x: i64,
    pub y: i64,
}

impl Point2D {
    /// Both coordinates within the magnitude bound.
    pub open spec fn wf(&self) -> bool {
        &&& -COORD_LIMIT <= self.x <= COORD_LIMIT
        &&& -COORD_LIMIT <= self.y <= COORD_LIMIT
    }

    pub fn new(x: i64, y: i64) -> (p: Point2D)
        requires
            -COORD_LIMIT <= x <= COORD_LIMIT,
            -COORD_LIMIT <= y <= COORD_LIMIT,
        ensures
            p.x == x,
            p.y == y,
            p.wf(),
    {
        Point2D { x, y }
    }

    /// A point drawn uniformly from `[x_min, x_max) x [y_min, y_max)`.
    pub fn rand_new(x_min: i64, x_max: i64, y_min: i64, y_max: i64) -> (p: Point2D)
        requires
            -COORD_LIMIT <= x_min < x_max <= COORD_LIMIT,
            -COORD_LIMIT <= y_min < y_max <= COORD_LIMIT,
        ensures
            x_min <= p.x < x_max,
            y_min <= p.y < y_max,
            p.wf(),
    {
        Point2D { x: uniform(x_min, x_max), y: uniform(y_min, y_max) }
    }

    /// Perturbs both coordinates with Gaussian noise of standard
    /// deviation `sigma` times `amp` (both fixed-point), unclamped to
    /// the canvas: only the magnitude bound is enforced.  A zero noise
    /// scale leaves the point exactly where it was.
    pub fn mutate(&mut self, sigma: i64, amp: i64)
        ensures
            final (self).wf(),
            old(self).wf() && (sigma as int) * (amp as int) == 0 ==> *final (self) == *old(self),
    {
        let units: u32 = sigma_units(sigma, amp);
        self.x = clamp_i128(self.x as i128 + normal(units) as i128, -COORD_LIMIT, COORD_LIMIT);
        self.y = clamp_i128(self.y as i128 + normal(units) as i128, -COORD_LIMIT, COORD_LIMIT);
    }
}

/// The standard deviation, in whole fixed-point units, of Gaussian
/// noise with parameter `sigma` scaled by the amplitude `amp`: the
/// magnitude of their fixed-point product, saturated to `u32`.
pub fn sigma_units(sigma: i64, amp: i64) -> (r: u32)
    ensures
        r == vstd::math::min(
            u32::MAX as int,
            crate::fixed::abs_int((sigma as int) * (amp as int)) / (crate::fixed::FX_SCALE as int),
        ),
{
    let ms: u128 = if sigma >= 0 {
        sigma as u128
    } else {
        (-(sigma as i128)) as u128
    };
    let ma: u128 = if amp >= 0 {
        amp as u128
    } else {
        (-(amp as i128)) as u128
    };
    assert(ms as int * ma as int <= 0x8000_0000_0000_0000 * 0x8000_0000_0000_0000 && ms as int
        * ma as int == crate::fixed::abs_int((sigma as int) * (amp as int))) by (nonlinear_arith)
        requires
            ms <= 0x8000_0000_0000_0000,
            ma <= 0x8000_0000_0000_0000,
            ms == crate::fixed::abs_int(sigma as int),
            ma == crate::fixed::abs_int(amp as int),
    ;
    let mag: u128 = ms * ma;
    let scaled: u128 = mag / crate::fixed::FX_SCALE as u128;
    if scaled > u32::MAX as u128 {
        u32::MAX
    } else {
        scaled as u32
    }
}

/// The edge of a shape along one axis: the line through `(x0, y0)` and
/// `(x0 + dx, y0 + dy)`, evaluated row by row.
#[derive(Clone, Copy, Debug)]
pub struct Line {
    pub x0: i64,
    pub y0: i64,
    pub dx: i64,
    pub dy: i64,
}

/// What evaluating a line at primary coordinate `x` yields: the linear
/// interpolation `y0 + dy * (x - x0) / dx` truncated toward zero and
/// saturated to the coordinate range.  A vertical segment (`dx == 0`)
/// has no slope; its rows evaluate to the segment's own `y0`, so such
/// an edge contributes a single-column span.
pub open spec fn spec_line_at(x0: int, y0: int, dx: int, dy: int, x: int) -> int {
    if dx == 0 {
        y0
    } else {
        spec_clamp(y0 + spec_div_trunc(dy * (x - x0), dx), -COORD_LIMIT as int, COORD_LIMIT as int)
    }
}

impl Line {
    /// The anchor is a coordinate; the deltas are differences of two
    /// coordinates, so they reach twice the bound.
    pub open spec fn wf(&self) -> bool {
        &&& -COORD_LIMIT <= self.x0 <= COORD_LIMIT
        &&& -COORD_LIMIT <= self.y0 <= COORD_LIMIT
        &&& -2 * COORD_LIMIT <= self.dx <= 2 * COORD_LIMIT
        &&& -2 * COORD_LIMIT <= self.dy <= 2 * COORD_LIMIT
    }

    /// The line through two points.
    pub fn new(p1: &Point2D, p2: &Point2D) -> (l: Line)
        requires
            p1.wf(),
            p2.wf(),
        ensures
            l.x0 == p1.x,
            l.y0 == p1.y,
            l.dx == p2.x - p1.x,
            l.dy == p2.y - p1.y,
            l.wf(),
    {
        Line { x0: p1.x, y0: p1.y, dx: p2.x - p1.x, dy: p2.y - p1.y }
    }

    /// The line's secondary coordinate at primary coordinate `x`.
    pub fn at(&self, x: i64) -> (r: i64)
        requires
            self.wf(),
            -2 * COORD_LIMIT <= x <= 2 * COORD_LIMIT,
        ensures
            r == spec_line_at(self.x0 as int, self.y0 as int, self.dx as int, self.dy as int, x as int),
            -COORD_LIMIT <= r <= COORD_LIMIT,
    {
        if self.dx == 0 {
            self.y0
        } else {
            let diff: i128 = x as i128 - self.x0 as i128;
            assert(-0x8_0000_0000_0000_0000_0000 <= self.dy as int * diff as int
                <= 0x8_0000_0000_0000_0000_0000) by (nonlinear_arith)
                requires
                    -2 * COORD_LIMIT <= self.dy <= 2 * COORD_LIMIT,
                    -3 * COORD_LIMIT <= diff <= 3 * COORD_LIMIT,
            ;
            let num: i128 = self.dy as i128 * diff;
            let q: i128 = div_trunc(num, self.dx as i128);
            clamp_i128(self.y0 as i128 + q, -COORD_LIMIT, COORD_LIMIT)
        }
    }
}

} // verus!
