//! The genome: an ordered list of shapes rendered back to front, with
//! a cached fitness that every structural mutation invalidates.

use vstd::prelude::*;

use crate::canvas::{Canvas, Pixel};
use crate::fixed::{CHAN_MAX, MAX_DIM};
use crate::shape::{spec_paint, Shape};
use crate::EvoError;

verus! {

/// What rendering a shape list onto a fresh background canvas yields:
/// the background colour everywhere, then each shape painted in list
/// order (the painter's algorithm — later shapes blend on top).
pub open spec fn spec_render(shapes: Seq<Shape>, h: int, w: int, bg: (i64, i64, i64)) -> Seq<Pixel>
    decreases shapes.len(),
{
    if shapes.len() == 0 {
        Seq::new((h * w) as nat, |k: int| Pixel { r: bg.0, g: bg.1, b: bg.2 })
    } else {
        spec_paint(shapes.last(), h, w, spec_render(shapes.drop_last(), h, w, bg))
    }
}

/// An individual of the population: an ordered shape list, the canvas
/// dimensions it renders against, its background colour, and the
/// cached fitness — absent whenever the shape list has changed since
/// the last evaluation.
pub struct Individual {
    pub shapes: Vec<Shape>,
    pub fitness: Option<i64>,
    pub env_height: usize,
    pub env_width: usize,
    pub bg_color: (i64, i64, i64),
}

impl Individual {
    /// Dimensions and background within bounds, every shape within its
    /// own invariant.
    pub open spec fn wf(&self) -> bool {
        &&& 1 <= self.env_height <= MAX_DIM
        &&& 1 <= self.env_width <= MAX_DIM
        &&& 0 <= self.bg_color.0 <= CHAN_MAX
        &&& 0 <= self.bg_color.1 <= CHAN_MAX
        &&& 0 <= self.bg_color.2 <= CHAN_MAX
        &&& forall|k: int| 0 <= k < self.shapes@.len() ==> self.shapes@[k].wf()
    }

    /// What this individual renders to.
    pub open spec fn spec_rendering(&self) -> Seq<Pixel> {
        spec_render(self.shapes@, self.env_height as int, self.env_width as int, self.bg_color)
    }

    /// A blank individual: no shapes, no fitness.
    pub fn new(env_height: usize, env_width: usize, bg_color: (i64, i64, i64)) -> (r: Individual)
        requires
            1 <= env_height <= MAX_DIM,
            1 <= env_width <= MAX_DIM,
            0 <= bg_color.0 <= CHAN_MAX,
            0 <= bg_color.1 <= CHAN_MAX,
            0 <= bg_color.2 <= CHAN_MAX,
        ensures
            r.wf(),
            r.shapes@.len() == 0,
            r.fitness is None,
            r.env_height == env_height,
            r.env_width == env_width,
            r.bg_color == bg_color,
    {
        Individual { shapes: Vec::new(), fitness: None, env_height, env_width, bg_color }
    }

    /// A fully independent copy: the shape list is duplicated, so the
    /// copy shares no mutable state with the original.
    pub fn clone(&self) -> (r: Individual)
        ensures
            r.shapes@ == self.shapes@,
            r.fitness == self.fitness,
            r.env_height == self.env_height,
            r.env_width == self.env_width,
            r.bg_color == self.bg_color,
    {
        let mut shapes: Vec<Shape> = Vec::new();
        let mut i: usize = 0;
        while i < self.shapes.len()
            invariant
                i <= self.shapes@.len(),
                shapes@ =~= self.shapes@.take(i as int),
            decreases self.shapes@.len() - i,
        {
            shapes.push(self.shapes[i]);
            i = i + 1;
        }
        proof {
            assert(shapes@ =~= self.shapes@);
        }
        Individual {
            shapes,
            fitness: self.fitness,
            env_height: self.env_height,
            env_width: self.env_width,
            bg_color: self.bg_color,
        }
    }

    /// How many shapes the individual holds.
    pub fn n_shapes(&self) -> (r: usize)
        ensures
            r == self.shapes@.len(),
    {
        self.shapes.len()
    }

    /// Mutates the shape at `which` in place and drops the cached
    /// fitness; an index at or past the end is `IndexOutOfRange` and
    /// leaves the individual untouched.
    pub fn mutate_shape(&mut self, which: usize, canvas_size: usize, amp: i64) -> (r: Result<
        (),
        EvoError,
    >)
        requires
            old(self).wf(),
            canvas_size <= MAX_DIM,
        ensures
            final (self).wf(),
            which < old(self).shapes@.len() ==> r is Ok && final (self).fitness is None && final (
            self).shapes@.len() == old(self).shapes@.len() && (forall|k: int|
                0 <= k < old(self).shapes@.len() && k != which ==> final (self).shapes@[k] == old(
                    self,
                ).shapes@[k]),
            which >= old(self).shapes@.len() ==> r == Err::<(), EvoError>(EvoError::IndexOutOfRange)
                && *final (self) == *old(self),
            final (self).env_height == old(self).env_height,
            final (self).env_width == old(self).env_width,
            final (self).bg_color == old(self).bg_color,
    {
        if which >= self.shapes.len() {
            return Err(EvoError::IndexOutOfRange);
        }
        let mut s = self.shapes[which];
        s.mutate(canvas_size, amp);
        self.shapes.set(which, s);
        self.fitness = None;
        Ok(())
    }

    /// Appends a random shape of the named kind (sized to this
    /// individual's canvas) and drops the cached fitness; an unknown
    /// kind name is `UnknownShapeKind` and leaves the individual
    /// untouched.
    pub fn add_shape(&mut self, kind: &str) -> (r: Result<(), EvoError>)
        requires
            old(self).wf(),
        ensures
            final (self).wf(),
            r is Ok ==> final (self).fitness is None && final (self).shapes@.len() == old(
                self,
            ).shapes@.len() + 1 && (forall|k: int|
                0 <= k < old(self).shapes@.len() ==> final (self).shapes@[k] == old(
                    self,
                ).shapes@[k]),
            r is Err ==> r == Err::<(), EvoError>(EvoError::UnknownShapeKind) && *final (self)
                == *old(self),
            r is Ok <==> (crate::shape::spec_is_triangle_name(kind@)
                || crate::shape::spec_is_circle_name(kind@) || crate::shape::spec_is_rectangle_name(
                kind@,
            )),
            crate::shape::spec_is_triangle_name(kind@) ==> final (self).shapes@.last() is Triangle
                && crate::shape::spec_in_canvas(
                final (self).shapes@.last()->Triangle_p1,
                old(self).env_height as int,
                old(self).env_width as int,
            ) && crate::shape::spec_in_canvas(
                final (self).shapes@.last()->Triangle_p2,
                old(self).env_height as int,
                old(self).env_width as int,
            ) && crate::shape::spec_in_canvas(
                final (self).shapes@.last()->Triangle_p3,
                old(self).env_height as int,
                old(self).env_width as int,
            ),
            crate::shape::spec_is_circle_name(kind@) ==> final (self).shapes@.last() is Circle
                && crate::fixed::FX_SCALE <= final (self).shapes@.last()->Circle_radius
                <= vstd::math::max(
                crate::fixed::FX_SCALE as int,
                vstd::math::min(old(self).env_height as int, old(self).env_width as int)
                    * (crate::fixed::FX_SCALE as int) / 10,
            ) && crate::shape::spec_in_canvas(
                final (self).shapes@.last()->Circle_center,
                old(self).env_height as int,
                old(self).env_width as int,
            ),
            crate::shape::spec_is_rectangle_name(kind@) ==> final (
            self).shapes@.last() is Rectangle && crate::shape::spec_in_canvas(
                final (self).shapes@.last()->Rectangle_p1,
                old(self).env_height as int,
                old(self).env_width as int,
            ) && crate::shape::spec_in_canvas(
                final (self).shapes@.last()->Rectangle_p2,
                old(self).env_height as int,
                old(self).env_width as int,
            ),
            final (self).env_height == old(self).env_height,
            final (self).env_width == old(self).env_width,
            final (self).bg_color == old(self).bg_color,
    {
        match Shape::rand_new(kind, self.env_height, self.env_width) {
            Ok(s) => {
                self.shapes.push(s);
                self.fitness = None;
                Ok(())
            },
            Err(_) => Err(EvoError::UnknownShapeKind),
        }
    }

    /// Renders the individual: a fresh canvas of its own dimensions
    /// and background, with every shape rasterized in list order.
    pub fn draw_self(&self) -> (c: Canvas)
        requires
            self.wf(),
        ensures
            c.wf(),
            c.x_height == self.env_height,
            c.y_width == self.env_width,
            c.pixels@ == self.spec_rendering(),
    {
        let mut canvas = Canvas::new(self.env_height, self.env_width, self.bg_color);
        proof {
            assert(canvas.pixels@ =~= spec_render(
                self.shapes@.take(0),
                self.env_height as int,
                self.env_width as int,
                self.bg_color,
            ));
        }
        let mut i: usize = 0;
        while i < self.shapes.len()
            invariant
                self.wf(),
                i <= self.shapes@.len(),
                canvas.wf(),
                canvas.x_height == self.env_height,
                canvas.y_width == self.env_width,
                canvas.pixels@ == spec_render(
                    self.shapes@.take(i as int),
                    self.env_height as int,
                    self.env_width as int,
                    self.bg_color,
                ),
            decreases self.shapes@.len() - i,
        {
            let s = self.shapes[i];
            s.draw_to(&mut canvas);
            proof {
                let ghost t = self.shapes@.take(i + 1);
                assert(t.drop_last() =~= self.shapes@.take(i as int));
                assert(t.last() == self.shapes@[i as int]);
            }
            i = i + 1;
        }
        proof {
            assert(self.shapes@.take(self.shapes@.len() as int) =~= self.shapes@);
        }
        canvas
    }

    /// Evaluates fitness against `target`: a no-op when a cached value
    /// is present (evaluation is memoized), and otherwise the distance
    /// between the individual's own rendering and the target.
    pub fn calc_fitness(&mut self, target: &Canvas)
        requires
            old(self).wf(),
            target.wf(),
            target.x_height == old(self).env_height,
            target.y_width == old(self).env_width,
        ensures
            final (self).wf(),
            old(self).fitness is Some ==> *final (self) == *old(self),
            old(self).fitness is None ==> final (self).fitness == Some(
                Canvas::spec_distance(old(self).spec_rendering(), target.pixels@) as i64,
            ),
            final (self).fitness is Some,
            final (self).shapes@ == old(self).shapes@,
            final (self).env_height == old(self).env_height,
            final (self).env_width == old(self).env_width,
            final (self).bg_color == old(self).bg_color,
    {
        if self.fitness.is_some() {
            return ;
        }
        let selfie = self.draw_self();
        let diff = match Canvas::l2_diff(&selfie, target) {
            Ok(d) => d,
            Err(_) => {
                proof {
                    assert(false);
                }
                0
            },
        };
        self.fitness = Some(diff);
    }

    /// The cached fitness; reading it before any evaluation (or after
    /// a mutation) is `FitnessNotComputed`.
    pub fn get_fitness(&self) -> (r: Result<i64, EvoError>)
        ensures
            self.fitness is Some ==> r == Ok::<i64, EvoError>(self.fitness->0),
            self.fitness is None ==> r == Err::<i64, EvoError>(EvoError::FitnessNotComputed),
    {
        match self.fitness {
            Some(f) => Ok(f),
            None => Err(EvoError::FitnessNotComputed),
        }
    }
}

} // verus!
