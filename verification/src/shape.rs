//! The three drawing primitives: triangles, circles and rectangles,
//! each carrying its geometry and a colour.

use vstd::prelude::*;

use crate::canvas::{spec_overlay, Canvas, Pixel};
use crate::color::Color;
use crate::fixed::{
    fx_to_cell, isqrt_u128, lemma_fx_to_cell_monotone, lemma_isqrt_bounds, spec_fx_to_cell,
    spec_isqrt, COORD_LIMIT, FX_SCALE, MAX_DIM,
};
use crate::geom::{spec_line_at, Line, Point2D};
use crate::random::uniform;
use crate::EvoError;

verus! {

/// A drawing primitive.  The set is closed: every operation treats the
/// three variants exhaustively.
#[derive(Clone, Copy, Debug, PartialEq, Eq, Structural)]
pub enum Shape {
    Triangle { p1: Point2D, p2: Point2D, p3: Point2D, color: Color },
    Circle { center: Point2D, radius: i64, color: Color },
    Rectangle { p1: Point2D, p2: Point2D, color: Color },
}

/// Whether `s` spells the same name as `lo`, letter for letter, each
/// position in either of the two given cases.
pub open spec fn spec_name_matches(s: Seq<char>, lo: Seq<char>, up: Seq<char>) -> bool {
    &&& s.len() == lo.len()
    &&& forall|i: int| 0 <= i < s.len() ==> s[i] == lo[i] || s[i] == up[i]
}

/// Compares `s` against a name given in its lower-case and upper-case
/// spellings, accepting any mix of the two cases.
fn name_matches(s: &str, lo: &str, up: &str) -> (r: bool)
    requires
        lo@.len() == up@.len(),
    ensures
        r == spec_name_matches(s@, lo@, up@),
{
    let n = s.unicode_len();
    if n != lo.unicode_len() {
        return false;
    }
    let mut i: usize = 0;
    while i < n
        invariant
            i <= n,
            n == s@.len(),
            n == lo@.len(),
            n == up@.len(),
            forall|t: int| 0 <= t < i ==> s@[t] == lo@[t] || s@[t] == up@[t],
        decreases n - i,
    {
        let c = s.get_char(i);
        let cl = lo.get_char(i);
        let cu = up.get_char(i);
        if c != cl && c != cu {
            return false;
        }
        i = i + 1;
    }
    true
}

/// Whether a point lies inside the half-open canvas rectangle
/// `[0, height) x [0, width)`, in fixed-point units.
pub open spec fn spec_in_canvas(p: Point2D, x_height: int, y_width: int) -> bool {
    &&& 0 <= p.x < x_height * (FX_SCALE as int)
    &&& 0 <= p.y < y_width * (FX_SCALE as int)
}

/// The name of the triangle kind.
pub open spec fn spec_is_triangle_name(s: Seq<char>) -> bool {
    spec_name_matches(s, "triangle"@, "TRIANGLE"@)
}

/// The name of the circle kind.
pub open spec fn spec_is_circle_name(s: Seq<char>) -> bool {
    spec_name_matches(s, "circle"@, "CIRCLE"@)
}

/// The name of the rectangle kind.
pub open spec fn spec_is_rectangle_name(s: Seq<char>) -> bool {
    spec_name_matches(s, "rectangle"@, "RECTANGLE"@)
}

/// Whether `j` lies in the inclusive span between `j1` and `j2`,
/// whichever order they come in.
pub open spec fn spec_in_span(j1: int, j2: int, j: int) -> bool {
    if j1 <= j2 {
        j1 <= j <= j2
    } else {
        j2 <= j <= j1
    }
}

/// The three vertices reordered so that their primary coordinates
/// ascend, equal keys keeping their given order.
pub open spec fn spec_sort3(p1: Point2D, p2: Point2D, p3: Point2D) -> (Point2D, Point2D, Point2D) {
    if p1.x <= p2.x {
        if p2.x <= p3.x {
            (p1, p2, p3)
        } else if p1.x <= p3.x {
            (p1, p3, p2)
        } else {
            (p3, p1, p2)
        }
    } else {
        if p1.x <= p3.x {
            (p2, p1, p3)
        } else if p2.x <= p3.x {
            (p2, p3, p1)
        } else {
            (p3, p2, p1)
        }
    }
}

/// Sorts three vertices by primary coordinate, stably.
fn sort3(p1: Point2D, p2: Point2D, p3: Point2D) -> (r: (Point2D, Point2D, Point2D))
    ensures
        r == spec_sort3(p1, p2, p3),
        r.0.x <= r.1.x <= r.2.x,
{
    if p1.x <= p2.x {
        if p2.x <= p3.x {
            (p1, p2, p3)
        } else if p1.x <= p3.x {
            (p1, p3, p2)
        } else {
            (p3, p1, p2)
        }
    } else {
        if p1.x <= p3.x {
            (p2, p1, p3)
        } else if p2.x <= p3.x {
            (p2, p3, p1)
        } else {
            (p3, p2, p1)
        }
    }
}

/// The grid column of the edge from `pa` to `pb`, at grid row `i`.
pub open spec fn spec_edge_at(pa: Point2D, pb: Point2D, i: int, wmax: int) -> int {
    spec_fx_to_cell(
        spec_line_at(pa.x as int, pa.y as int, pb.x - pa.x, pb.y - pa.y, i * (FX_SCALE as int)),
        wmax,
    )
}

/// The half-chord, in fixed-point units, of a circle of radius `r`
/// about primary centre `cx`, at grid row `i`: the square root of
/// `r^2 - d^2` for the row's offset `d`, and zero where that argument
/// is not positive.
pub open spec fn spec_chord_half(cx: int, r: int, i: int) -> int {
    let d = i * (FX_SCALE as int) - cx;
    if r * r - d * d <= 0 {
        0
    } else {
        spec_isqrt((r * r - d * d) as nat) as int
    }
}

/// The upper part of a triangle's scanline fill: rows from the topmost
/// vertex up to (excluding) the middle one, spanned between the edges
/// `a-b` and `a-c`.
pub open spec fn spec_tri_part1(
    a: Point2D,
    b: Point2D,
    c: Point2D,
    h: int,
    w: int,
    i: int,
    j: int,
) -> bool {
    &&& spec_fx_to_cell(a.x as int, h - 1) <= i < spec_fx_to_cell(b.x as int, h - 1)
    &&& spec_in_span(spec_edge_at(a, b, i, w - 1), spec_edge_at(a, c, i, w - 1), j)
}

/// The lower part of a triangle's scanline fill: rows from the middle
/// vertex through the bottommost one, spanned between the edges `b-c`
/// and `a-c`.
pub open spec fn spec_tri_part2(
    a: Point2D,
    b: Point2D,
    c: Point2D,
    h: int,
    w: int,
    i: int,
    j: int,
) -> bool {
    &&& spec_fx_to_cell(b.x as int, h - 1) <= i <= spec_fx_to_cell(c.x as int, h - 1)
    &&& spec_in_span(spec_edge_at(b, c, i, w - 1), spec_edge_at(a, c, i, w - 1), j)
}

/// The cells a triangle's scanline fill covers.
pub open spec fn spec_tri_covers(
    p1: Point2D,
    p2: Point2D,
    p3: Point2D,
    h: int,
    w: int,
    i: int,
    j: int,
) -> bool {
    let (a, b, c) = spec_sort3(p1, p2, p3);
    spec_tri_part1(a, b, c, h, w, i, j) || spec_tri_part2(a, b, c, h, w, i, j)
}

/// The cells a circle's scanline fill covers: rows within the cell
/// range of `[cx - r, cx + r]`, each spanned by the chord about the
/// centre column.
pub open spec fn spec_circle_covers(
    center: Point2D,
    radius: int,
    h: int,
    w: int,
    i: int,
    j: int,
) -> bool {
    let half = spec_chord_half(center.x as int, radius, i);
    &&& spec_fx_to_cell(center.x - radius, h - 1) <= i <= spec_fx_to_cell(
        center.x + radius,
        h - 1,
    )
    &&& spec_in_span(
        spec_fx_to_cell(center.y - half, w - 1),
        spec_fx_to_cell(center.y + half, w - 1),
        j,
    )
}

/// The cells an axis-aligned rectangle's fill covers.
pub open spec fn spec_rect_covers(
    p1: Point2D,
    p2: Point2D,
    h: int,
    w: int,
    i: int,
    j: int,
) -> bool {
    let x_min = if p1.x <= p2.x { p1.x } else { p2.x };
    let x_max = if p1.x <= p2.x { p2.x } else { p1.x };
    let y_min = if p1.y <= p2.y { p1.y } else { p2.y };
    let y_max = if p1.y <= p2.y { p2.y } else { p1.y };
    &&& spec_fx_to_cell(x_min as int, h - 1) <= i <= spec_fx_to_cell(x_max as int, h - 1)
    &&& spec_fx_to_cell(y_min as int, w - 1) <= j <= spec_fx_to_cell(y_max as int, w - 1)
}

/// The cells a shape's rasterization covers on an `h` by `w` canvas.
pub open spec fn spec_covers(s: Shape, h: int, w: int, i: int, j: int) -> bool {
    match s {
        Shape::Triangle { p1, p2, p3, .. } => spec_tri_covers(p1, p2, p3, h, w, i, j),
        Shape::Circle { center, radius, .. } => spec_circle_covers(
            center,
            radius as int,
            h,
            w,
            i,
            j,
        ),
        Shape::Rectangle { p1, p2, .. } => spec_rect_covers(p1, p2, h, w, i, j),
    }
}

/// What rasterizing `s` onto a buffer of `h` rows by `w` columns
/// leaves: every covered cell blended with the shape's colour, every
/// other cell untouched.
pub open spec fn spec_paint(s: Shape, h: int, w: int, px: Seq<Pixel>) -> Seq<Pixel> {
    Seq::new(
        px.len(),
        |k: int|
            if spec_covers(s, h, w, k / w, k % w) {
                spec_overlay(px[k], s.spec_color())
            } else {
                px[k]
            },
    )
}

/// A circle's fill never reaches a row outside the cell range of
/// `[cx - r, cx + r]`.
pub proof fn lemma_circle_rows_bounded(
    center: Point2D,
    radius: int,
    h: int,
    w: int,
    i: int,
    j: int,
)
    requires
        !(spec_fx_to_cell(center.x - radius, h - 1) <= i <= spec_fx_to_cell(
            center.x + radius,
            h - 1,
        )),
    ensures
        !spec_circle_covers(center, radius, h, w, i, j),
{
}

impl Shape {
    /// Geometry within the coordinate bound and the colour within its
    /// channel ranges.
    pub open spec fn wf(&self) -> bool {
        match *self {
            Shape::Triangle { p1, p2, p3, color } => p1.wf() && p2.wf() && p3.wf() && color.wf(),
            Shape::Circle { center, radius, color } => center.wf() && -COORD_LIMIT <= radius
                <= COORD_LIMIT && color.wf(),
            Shape::Rectangle { p1, p2, color } => p1.wf() && p2.wf() && color.wf(),
        }
    }

    /// The shape's colour.
    pub open spec fn spec_color(&self) -> Color {
        match *self {
            Shape::Triangle { color, .. } => color,
            Shape::Circle { color, .. } => color,
            Shape::Rectangle { color, .. } => color,
        }
    }

    /// A random shape of the kind named by `kind` (in either letter
    /// case), with uniformly random geometry inside the canvas and a
    /// uniformly random colour.  A circle's radius is drawn from up to
    /// a tenth of the canvas's short side and floored at one pixel.
    /// Any other name is `UnknownShapeKind`.
    pub fn rand_new(kind: &str, x_height: usize, y_width: usize) -> (r: Result<Shape, EvoError>)
        requires
            1 <= x_height <= MAX_DIM,
            1 <= y_width <= MAX_DIM,
        ensures
            r is Ok <==> (spec_is_triangle_name(kind@) || spec_is_circle_name(kind@)
                || spec_is_rectangle_name(kind@)),
            r is Err ==> r->Err_0 == EvoError::UnknownShapeKind,
            r is Ok ==> r->Ok_0.wf(),
            spec_is_triangle_name(kind@) ==> r->Ok_0 is Triangle && spec_in_canvas(
                r->Ok_0->Triangle_p1,
                x_height as int,
                y_width as int,
            ) && spec_in_canvas(r->Ok_0->Triangle_p2, x_height as int, y_width as int)
                && spec_in_canvas(r->Ok_0->Triangle_p3, x_height as int, y_width as int),
            spec_is_circle_name(kind@) ==> r->Ok_0 is Circle && FX_SCALE <= r->Ok_0->Circle_radius
                <= vstd::math::max(
                FX_SCALE as int,
                vstd::math::min(x_height as int, y_width as int) * (FX_SCALE as int) / 10,
            ) && spec_in_canvas(r->Ok_0->Circle_center, x_height as int, y_width as int),
            spec_is_rectangle_name(kind@) ==> r->Ok_0 is Rectangle && spec_in_canvas(
                r->Ok_0->Rectangle_p1,
                x_height as int,
                y_width as int,
            ) && spec_in_canvas(r->Ok_0->Rectangle_p2, x_height as int, y_width as int),
    {
        proof {
            reveal_strlit("triangle");
            reveal_strlit("TRIANGLE");
            reveal_strlit("circle");
            reveal_strlit("CIRCLE");
            reveal_strlit("rectangle");
            reveal_strlit("RECTANGLE");
        }
        let x_hi: i64 = x_height as i64 * FX_SCALE;
        let y_hi: i64 = y_width as i64 * FX_SCALE;
        if name_matches(kind, "triangle", "TRIANGLE") {
            Ok(
                Shape::Triangle {
                    p1: Point2D::rand_new(0, x_hi, 0, y_hi),
                    p2: Point2D::rand_new(0, x_hi, 0, y_hi),
                    p3: Point2D::rand_new(0, x_hi, 0, y_hi),
                    color: Color::rand_new(),
                },
            )
        } else if name_matches(kind, "circle", "CIRCLE") {
            let short: usize = if x_height <= y_width {
                x_height
            } else {
                y_width
            };
            let r_hi: i64 = (short as u64 * FX_SCALE as u64 / 10) as i64;
            let draw: i64 = uniform(0, r_hi);
            let radius: i64 = if draw < FX_SCALE {
                FX_SCALE
            } else {
                draw
            };
            Ok(
                Shape::Circle {
                    center: Point2D::rand_new(0, x_hi, 0, y_hi),
                    radius,
                    color: Color::rand_new(),
                },
            )
        } else if name_matches(kind, "rectangle", "RECTANGLE") {
            Ok(
                Shape::Rectangle {
                    p1: Point2D::rand_new(0, x_hi, 0, y_hi),
                    p2: Point2D::rand_new(0, x_hi, 0, y_hi),
                    color: Color::rand_new(),
                },
            )
        } else {
            Err(EvoError::UnknownShapeKind)
        }
    }

    /// Perturbs every geometric field with Gaussian noise of standard
    /// deviation three hundredths of the canvas's short side, scaled by
    /// the amplitude, and the colour with its own mutation.  Positions
    /// and radius are not clamped to the canvas; only their magnitude
    /// bound is enforced.  The variant never changes, and a zero
    /// amplitude leaves a shape already within bounds exactly as it
    /// was.
    pub fn mutate(&mut self, canvas_size: usize, amp: i64)
        requires
            canvas_size <= MAX_DIM,
        ensures
            final (self).wf(),
            *final (self) is Triangle <==> *old(self) is Triangle,
            *final (self) is Circle <==> *old(self) is Circle,
            *final (self) is Rectangle <==> *old(self) is Rectangle,
            old(self).wf() && amp == 0 ==> *final (self) == *old(self),
    {
        proof {
            assert((canvas_size as int) * (FX_SCALE as int) <= 0x8000 * 1024) by (nonlinear_arith)
                requires
                    canvas_size <= 0x8000,
                    FX_SCALE == 1024,
            ;
        }
        let pixel_sigma: i64 = (canvas_size as u64 * FX_SCALE as u64 * 3 / 100) as i64;
        match self {
            Shape::Triangle { p1, p2, p3, color } => {
                p1.mutate(pixel_sigma, amp);
                p2.mutate(pixel_sigma, amp);
                p3.mutate(pixel_sigma, amp);
                color.mutate(amp);
            },
            Shape::Circle { center, radius, color } => {
                center.mutate(pixel_sigma, amp);
                color.mutate(amp);
                let units = crate::geom::sigma_units(pixel_sigma, amp);
                *radius = crate::fixed::clamp_i128(
                    *radius as i128 + crate::random::normal(units) as i128,
                    -COORD_LIMIT,
                    COORD_LIMIT,
                );
            },
            Shape::Rectangle { p1, p2, color } => {
                p1.mutate(pixel_sigma, amp);
                p2.mutate(pixel_sigma, amp);
                color.mutate(amp);
            },
        }
    }

    /// Scan-converts the shape into horizontal span fills on `canvas`:
    /// exactly the covered cells are blended with the shape's colour,
    /// and every other pixel is left as it was.
    pub fn draw_to(&self, canvas: &mut Canvas)
        requires
            self.wf(),
            old(canvas).wf(),
            1 <= old(canvas).x_height,
            1 <= old(canvas).y_width,
        ensures
            final (canvas).wf(),
            final (canvas).x_height == old(canvas).x_height,
            final (canvas).y_width == old(canvas).y_width,
            final (canvas).pixels@ == spec_paint(
                *self,
                old(canvas).x_height as int,
                old(canvas).y_width as int,
                old(canvas).pixels@,
            ),
    {
        let ghost h = old(canvas).x_height as int;
        let ghost w = old(canvas).y_width as int;
        let ghost orig = old(canvas).pixels@;
        let hmax: usize = canvas.x_height - 1;
        let wmax: usize = canvas.y_width - 1;
        match *self {
            Shape::Triangle { p1, p2, p3, color } => {
                let (pa, pb, pc) = sort3(p1, p2, p3);
                let l_ab = Line::new(&pa, &pb);
                let l_ac = Line::new(&pa, &pc);
                let l_bc = Line::new(&pb, &pc);
                let i_start = fx_to_cell(pa.x, hmax);
                let i_mid = fx_to_cell(pb.x, hmax);
                let i_end = fx_to_cell(pc.x, hmax);
                proof {
                    lemma_fx_to_cell_monotone(pa.x as int, pb.x as int, hmax as int);
                    lemma_fx_to_cell_monotone(pb.x as int, pc.x as int, hmax as int);
                }
                let mut i: usize = i_start;
                while i < i_mid
                    invariant
                        canvas.wf(),
                        canvas.x_height == old(canvas).x_height,
                        canvas.y_width == old(canvas).y_width,
                        h == canvas.x_height as int,
                        w == canvas.y_width as int,
                        hmax as int == h - 1,
                        wmax as int == w - 1,
                        hmax < MAX_DIM,
                        wmax < MAX_DIM,
                        orig.len() == canvas.pixels@.len(),
                        pa.wf() && pb.wf() && pc.wf(),
                        color.wf(),
                        l_ab.wf() && l_ac.wf(),
                        l_ab.x0 == pa.x && l_ab.y0 == pa.y && l_ab.dx == pb.x - pa.x && l_ab.dy
                            == pb.y - pa.y,
                        l_ac.x0 == pa.x && l_ac.y0 == pa.y && l_ac.dx == pc.x - pa.x && l_ac.dy
                            == pc.y - pa.y,
                        i_start as int == spec_fx_to_cell(pa.x as int, h - 1),
                        i_mid as int == spec_fx_to_cell(pb.x as int, h - 1),
                        i_start <= i <= i_mid,
                        i_mid <= hmax,
                        forall|k: int|
                            0 <= k < orig.len() ==> canvas.pixels@[k] == (if spec_tri_part1(
                                pa,
                                pb,
                                pc,
                                h,
                                w,
                                k / w,
                                k % w,
                            ) && k / w < i {
                                spec_overlay(orig[k], color)
                            } else {
                                orig[k]
                            }),
                    decreases i_mid - i,
                {
                    let row_fx: i64 = i as i64 * FX_SCALE;
                    let ja = fx_to_cell(l_ab.at(row_fx), wmax);
                    let jc = fx_to_cell(l_ac.at(row_fx), wmax);
                    let ghost prev = canvas.pixels@;
                    canvas.draw_horizontal_line(i, ja, jc, &color);
                    proof {
                        assert(ja as int == spec_edge_at(pa, pb, i as int, w - 1));
                        assert(jc as int == spec_edge_at(pa, pc, i as int, w - 1));
                        assert forall|k: int|
                            0 <= k < orig.len() implies canvas.pixels@[k] == (if spec_tri_part1(
                            pa,
                            pb,
                            pc,
                            h,
                            w,
                            k / w,
                            k % w,
                        ) && k / w < i + 1 {
                            spec_overlay(orig[k], color)
                        } else {
                            orig[k]
                        }) by {
                            assert(canvas.pixels@[k] == crate::canvas::spec_span_painted(
                                prev[k],
                                k,
                                w,
                                i as int,
                                if ja <= jc {
                                    ja as int
                                } else {
                                    jc as int
                                },
                                if ja <= jc {
                                    jc as int
                                } else {
                                    ja as int
                                },
                                color,
                            ));
                        }
                    }
                    i = i + 1;
                }
                let mut i2: usize = i_mid;
                while i2 <= i_end
                    invariant
                        canvas.wf(),
                        canvas.x_height == old(canvas).x_height,
                        canvas.y_width == old(canvas).y_width,
                        h == canvas.x_height as int,
                        w == canvas.y_width as int,
                        hmax as int == h - 1,
                        wmax as int == w - 1,
                        hmax < MAX_DIM,
                        wmax < MAX_DIM,
                        orig.len() == canvas.pixels@.len(),
                        pa.wf() && pb.wf() && pc.wf(),
                        color.wf(),
                        l_bc.wf() && l_ac.wf(),
                        l_bc.x0 == pb.x && l_bc.y0 == pb.y && l_bc.dx == pc.x - pb.x && l_bc.dy
                            == pc.y - pb.y,
                        l_ac.x0 == pa.x && l_ac.y0 == pa.y && l_ac.dx == pc.x - pa.x && l_ac.dy
                            == pc.y - pa.y,
                        i_mid as int == spec_fx_to_cell(pb.x as int, h - 1),
                        i_end as int == spec_fx_to_cell(pc.x as int, h - 1),
                        i_mid <= i2,
                        i2 <= i_end + 1,
                        i_end <= hmax,
                        forall|k: int|
                            0 <= k < orig.len() ==> canvas.pixels@[k] == (if spec_tri_part1(
                                pa,
                                pb,
                                pc,
                                h,
                                w,
                                k / w,
                                k % w,
                            ) || (spec_tri_part2(pa, pb, pc, h, w, k / w, k % w) && k / w < i2) {
                                spec_overlay(orig[k], color)
                            } else {
                                orig[k]
                            }),
                    decreases i_end + 1 - i2,
                {
                    let row_fx: i64 = i2 as i64 * FX_SCALE;
                    let jb = fx_to_cell(l_bc.at(row_fx), wmax);
                    let jc = fx_to_cell(l_ac.at(row_fx), wmax);
                    let ghost prev = canvas.pixels@;
                    canvas.draw_horizontal_line(i2, jb, jc, &color);
                    proof {
                        assert(jb as int == spec_edge_at(pb, pc, i2 as int, w - 1));
                        assert(jc as int == spec_edge_at(pa, pc, i2 as int, w - 1));
                        assert forall|k: int|
                            0 <= k < orig.len() implies canvas.pixels@[k] == (if spec_tri_part1(
                            pa,
                            pb,
                            pc,
                            h,
                            w,
                            k / w,
                            k % w,
                        ) || (spec_tri_part2(pa, pb, pc, h, w, k / w, k % w) && k / w < i2 + 1) {
                            spec_overlay(orig[k], color)
                        } else {
                            orig[k]
                        }) by {
                            assert(canvas.pixels@[k] == crate::canvas::spec_span_painted(
                                prev[k],
                                k,
                                w,
                                i2 as int,
                                if jb <= jc {
                                    jb as int
                                } else {
                                    jc as int
                                },
                                if jb <= jc {
                                    jc as int
                                } else {
                                    jb as int
                                },
                                color,
                            ));
                        }
                    }
                    i2 = i2 + 1;
                }
                proof {
                    assert((pa, pb, pc) == spec_sort3(p1, p2, p3));
                    assert(canvas.pixels@ =~= spec_paint(*self, h, w, orig));
                }
            },
            Shape::Circle { center, radius, color } => {
                let i_lo = fx_to_cell(center.x - radius, hmax);
                let i_hi = fx_to_cell(center.x + radius, hmax);
                let mut i: usize = i_lo;
                while i <= i_hi
                    invariant
                        canvas.wf(),
                        canvas.x_height == old(canvas).x_height,
                        canvas.y_width == old(canvas).y_width,
                        h == canvas.x_height as int,
                        w == canvas.y_width as int,
                        hmax as int == h - 1,
                        wmax as int == w - 1,
                        hmax < MAX_DIM,
                        wmax < MAX_DIM,
                        orig.len() == canvas.pixels@.len(),
                        center.wf(),
                        -COORD_LIMIT <= radius <= COORD_LIMIT,
                        color.wf(),
                        i_lo as int == spec_fx_to_cell(center.x - radius, h - 1),
                        i_hi as int == spec_fx_to_cell(center.x + radius, h - 1),
                        i_lo <= i,
                        i <= i_hi + 1 || i == i_lo,
                        i_hi <= hmax,
                        forall|k: int|
                            0 <= k < orig.len() ==> canvas.pixels@[k] == (if spec_circle_covers(
                                center,
                                radius as int,
                                h,
                                w,
                                k / w,
                                k % w,
                            ) && k / w < i {
                                spec_overlay(orig[k], color)
                            } else {
                                orig[k]
                            }),
                    decreases i_hi + 1 - i,
                {
                    let d: i64 = i as i64 * FX_SCALE - center.x;
                    proof {
                        assert(0 <= (radius as int) * (radius as int)
                            <= 0x1_0000_0000_0000_0000_0000 && 0 <= (d as int) * (d as int)
                            <= 0x10_0000_0000_0000_0000_0000) by (nonlinear_arith)
                            requires
                                -COORD_LIMIT <= radius <= COORD_LIMIT,
                                -2 * COORD_LIMIT <= d <= 2 * COORD_LIMIT,
                                COORD_LIMIT == 0x100_0000_0000,
                        ;
                    }
                    let rr: i128 = radius as i128 * radius as i128;
                    let dd: i128 = d as i128 * d as i128;
                    let arg: i128 = rr - dd;
                    let half: i64 = if arg <= 0 {
                        0
                    } else {
                        let hu = isqrt_u128(arg as u128);
                        proof {
                            lemma_isqrt_bounds(arg as nat);
                            assert(spec_isqrt(arg as nat) <= 0x100_0000_0000_0000)
                                by (nonlinear_arith)
                                requires
                                    spec_isqrt(arg as nat) * spec_isqrt(arg as nat) <= arg,
                                    0 <= arg <= 0x1_0000_0000_0000_0000_0000,
                            ;
                        }
                        hu as i64
                    };
                    assert(half == spec_chord_half(center.x as int, radius as int, i as int));
                    let jl = fx_to_cell(center.y - half, wmax);
                    let jr = fx_to_cell(center.y + half, wmax);
                    let ghost prev = canvas.pixels@;
                    canvas.draw_horizontal_line(i, jl, jr, &color);
                    proof {
                        assert forall|k: int|
                            0 <= k < orig.len() implies canvas.pixels@[k] == (if spec_circle_covers(
                            center,
                            radius as int,
                            h,
                            w,
                            k / w,
                            k % w,
                        ) && k / w < i + 1 {
                            spec_overlay(orig[k], color)
                        } else {
                            orig[k]
                        }) by {
                            assert(canvas.pixels@[k] == crate::canvas::spec_span_painted(
                                prev[k],
                                k,
                                w,
                                i as int,
                                if jl <= jr {
                                    jl as int
                                } else {
                                    jr as int
                                },
                                if jl <= jr {
                                    jr as int
                                } else {
                                    jl as int
                                },
                                color,
                            ));
                        }
                    }
                    i = i + 1;
                }
                proof {
                    assert(canvas.pixels@ =~= spec_paint(*self, h, w, orig));
                }
            },
            Shape::Rectangle { p1, p2, color } => {
                let x_min: i64 = if p1.x <= p2.x {
                    p1.x
                } else {
                    p2.x
                };
                let x_max: i64 = if p1.x <= p2.x {
                    p2.x
                } else {
                    p1.x
                };
                let y_min: i64 = if p1.y <= p2.y {
                    p1.y
                } else {
                    p2.y
                };
                let y_max: i64 = if p1.y <= p2.y {
                    p2.y
                } else {
                    p1.y
                };
                let i_s = fx_to_cell(x_min, hmax);
                let i_e = fx_to_cell(x_max, hmax);
                let jl = fx_to_cell(y_min, wmax);
                let jr = fx_to_cell(y_max, wmax);
                proof {
                    lemma_fx_to_cell_monotone(x_min as int, x_max as int, hmax as int);
                    lemma_fx_to_cell_monotone(y_min as int, y_max as int, wmax as int);
                }
                let mut i: usize = i_s;
                while i <= i_e
                    invariant
                        canvas.wf(),
                        canvas.x_height == old(canvas).x_height,
                        canvas.y_width == old(canvas).y_width,
                        h == canvas.x_height as int,
                        w == canvas.y_width as int,
                        hmax as int == h - 1,
                        wmax as int == w - 1,
                        hmax < MAX_DIM,
                        wmax < MAX_DIM,
                        orig.len() == canvas.pixels@.len(),
                        color.wf(),
                        i_s as int == spec_fx_to_cell(x_min as int, h - 1),
                        i_e as int == spec_fx_to_cell(x_max as int, h - 1),
                        jl as int == spec_fx_to_cell(y_min as int, w - 1),
                        jr as int == spec_fx_to_cell(y_max as int, w - 1),
                        jl <= jr,
                        x_min == if p1.x <= p2.x { p1.x } else { p2.x },
                        x_max == if p1.x <= p2.x { p2.x } else { p1.x },
                        y_min == if p1.y <= p2.y { p1.y } else { p2.y },
                        y_max == if p1.y <= p2.y { p2.y } else { p1.y },
                        i_s <= i,
                        i <= i_e + 1,
                        i_e <= hmax,
                        jr <= wmax,
                        forall|k: int|
                            0 <= k < orig.len() ==> canvas.pixels@[k] == (if spec_rect_covers(
                                p1,
                                p2,
                                h,
                                w,
                                k / w,
                                k % w,
                            ) && k / w < i {
                                spec_overlay(orig[k], color)
                            } else {
                                orig[k]
                            }),
                    decreases i_e + 1 - i,
                {
                    let ghost prev = canvas.pixels@;
                    canvas.draw_horizontal_line(i, jl, jr, &color);
                    proof {
                        assert forall|k: int|
                            0 <= k < orig.len() implies canvas.pixels@[k] == (if spec_rect_covers(
                            p1,
                            p2,
                            h,
                            w,
                            k / w,
                            k % w,
                        ) && k / w < i + 1 {
                            spec_overlay(orig[k], color)
                        } else {
                            orig[k]
                        }) by {
                            assert(canvas.pixels@[k] == crate::canvas::spec_span_painted(
                                prev[k],
                                k,
                                w,
                                i as int,
                                jl as int,
                                jr as int,
                                color,
                            ));
                        }
                    }
                    i = i + 1;
                }
                proof {
                    assert(canvas.pixels@ =~= spec_paint(*self, h, w, orig));
                }
            },
        }
    }
}

} // verus!
