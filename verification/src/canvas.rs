//! The raster canvas: a dense row-major grid of RGB pixels, with
//! alpha-composited span fills and whole-buffer distance.

use vstd::prelude::*;

use vstd::arithmetic::div_mod::{
    lemma_div_is_ordered, lemma_div_multiples_vanish, lemma_fundamental_div_mod,
    lemma_fundamental_div_mod_converse,
};

use crate::color::Color;
use crate::fixed::{
    isqrt_u128, lemma_isqrt_bounds, spec_isqrt, CHAN_MAX, FX_SCALE, MAX_DIM,
};
use crate::EvoError;

verus! {

/// One RGB pixel.  Channels are fixed-point values in `[0, CHAN_MAX]`;
/// alpha exists only transiently during compositing.
#[derive(Clone, Copy, Debug, PartialEq, Eq, Structural)]
pub struct Pixel {
    pub r: i64,
    pub g: i64,
    pub b: i64,
}

impl Pixel {
    /// All three channels within range.
    pub open spec fn wf(&self) -> bool {
        &&& 0 <= self.r <= CHAN_MAX
        &&& 0 <= self.g <= CHAN_MAX
        &&& 0 <= self.b <= CHAN_MAX
    }

    pub fn new(r: i64, g: i64, b: i64) -> (p: Pixel)
        ensures
            p == (Pixel { r, g, b }),
    {
        Pixel { r, g, b }
    }
}

/// What the "over" blend of colour channel `c` at alpha `a` onto pixel
/// channel `p` yields: `p * (1 - a) + c * a`, in fixed-point.
pub open spec fn spec_overlay_chan(p: int, c: int, a: int) -> int {
    (p * (FX_SCALE - a) + c * a) / (FX_SCALE as int)
}

/// The "over" blend of a colour onto a pixel, channel by channel.
pub open spec fn spec_overlay(p: Pixel, c: Color) -> Pixel {
    Pixel {
        r: spec_overlay_chan(p.r as int, c.r as int, c.a as int) as i64,
        g: spec_overlay_chan(p.g as int, c.g as int, c.a as int) as i64,
        b: spec_overlay_chan(p.b as int, c.b as int, c.a as int) as i64,
    }
}

/// One channel of the "over" blend.
fn overlay_chan(p: i64, c: i64, a: i64) -> (r: i64)
    requires
        0 <= p <= CHAN_MAX,
        0 <= c <= CHAN_MAX,
        0 <= a <= FX_SCALE,
    ensures
        r == spec_overlay_chan(p as int, c as int, a as int),
        0 <= r <= CHAN_MAX,
{
    assert(0 <= p * (FX_SCALE - a) && 0 <= c * a && p * (FX_SCALE - a) + c * a <= CHAN_MAX
        * FX_SCALE) by (nonlinear_arith)
        requires
            0 <= p <= CHAN_MAX,
            0 <= c <= CHAN_MAX,
            0 <= a <= FX_SCALE,
    ;
    let num: u64 = p as u64 * (FX_SCALE - a) as u64 + c as u64 * a as u64;
    let r = num / FX_SCALE as u64;
    proof {
        lemma_div_is_ordered(num as int, CHAN_MAX * FX_SCALE, FX_SCALE as int);
        lemma_div_multiples_vanish(CHAN_MAX as int, FX_SCALE as int);
    }
    r as i64
}

/// The "over" blend of `color` onto `p`: each channel becomes
/// `p * (1 - alpha) + color * alpha`.
pub fn overlaid(p: Pixel, color: &Color) -> (q: Pixel)
    requires
        p.wf(),
        color.wf(),
    ensures
        q == spec_overlay(p, *color),
        q.wf(),
{
    Pixel {
        r: overlay_chan(p.r, color.r, color.a),
        g: overlay_chan(p.g, color.g, color.a),
        b: overlay_chan(p.b, color.b, color.a),
    }
}

/// Blending at alpha zero returns the pixel unchanged.
pub proof fn lemma_overlay_alpha_zero(p: Pixel, c: Color)
    requires
        p.wf(),
        c.wf(),
        c.a == 0,
    ensures
        spec_overlay(p, c) == p,
{
    lemma_div_multiples_vanish(p.r as int, FX_SCALE as int);
    lemma_div_multiples_vanish(p.g as int, FX_SCALE as int);
    lemma_div_multiples_vanish(p.b as int, FX_SCALE as int);
    assert(p.r * (FX_SCALE - 0) + c.r * 0 == (FX_SCALE as int) * (p.r as int)) by (nonlinear_arith);
    assert(p.g * (FX_SCALE - 0) + c.g * 0 == (FX_SCALE as int) * (p.g as int)) by (nonlinear_arith);
    assert(p.b * (FX_SCALE - 0) + c.b * 0 == (FX_SCALE as int) * (p.b as int)) by (nonlinear_arith);
}

/// Blending at alpha one replaces the pixel with the colour.
pub proof fn lemma_overlay_alpha_one(p: Pixel, c: Color)
    requires
        p.wf(),
        c.wf(),
        c.a == FX_SCALE,
    ensures
        spec_overlay(p, c) == (Pixel { r: c.r as i64, g: c.g as i64, b: c.b as i64 }),
{
    lemma_div_multiples_vanish(c.r as int, FX_SCALE as int);
    lemma_div_multiples_vanish(c.g as int, FX_SCALE as int);
    lemma_div_multiples_vanish(c.b as int, FX_SCALE as int);
    assert(p.r * (FX_SCALE - FX_SCALE) + c.r * FX_SCALE == (FX_SCALE as int) * (c.r as int))
        by (nonlinear_arith);
    assert(p.g * (FX_SCALE - FX_SCALE) + c.g * FX_SCALE == (FX_SCALE as int) * (c.g as int))
        by (nonlinear_arith);
    assert(p.b * (FX_SCALE - FX_SCALE) + c.b * FX_SCALE == (FX_SCALE as int) * (c.b as int))
        by (nonlinear_arith);
}

/// The squared L2 distance between two pixels, summed over channels.
pub open spec fn spec_l2_dist(p: Pixel, q: Pixel) -> int {
    (p.r - q.r) * (p.r - q.r) + (p.g - q.g) * (p.g - q.g) + (p.b - q.b) * (p.b - q.b)
}

/// One squared channel difference.
fn sq_diff(x: i64, y: i64) -> (r: u64)
    requires
        0 <= x <= CHAN_MAX,
        0 <= y <= CHAN_MAX,
    ensures
        r == (x - y) * (x - y),
        r <= CHAN_MAX * CHAN_MAX,
{
    let d: u64 = if x >= y {
        (x - y) as u64
    } else {
        (y - x) as u64
    };
    assert(d as int * d as int == (x - y) * (x - y) && d as int * d as int <= CHAN_MAX * CHAN_MAX)
        by (nonlinear_arith)
        requires
            d == x - y || d == y - x,
            0 <= d <= CHAN_MAX,
    ;
    d * d
}

/// The squared L2 distance between two pixels.
pub fn l2_dist(p1: &Pixel, p2: &Pixel) -> (r: u64)
    requires
        p1.wf(),
        p2.wf(),
    ensures
        r == spec_l2_dist(*p1, *p2),
        r <= 3 * CHAN_MAX * CHAN_MAX,
{
    sq_diff(p1.r, p2.r) + sq_diff(p1.g, p2.g) + sq_diff(p1.b, p2.b)
}

/// The raster canvas: `x_height` rows of `y_width` RGB pixels, stored
/// row-major in one flat buffer.
pub struct Canvas {
    pub x_height: usize,
    pub y_width: usize,
    pub pixels: Vec<Pixel>,
}

/// What a span fill leaves at flat index `k`: the pixel is blended
/// exactly when its row is `row` and its column lies in `[jl, jr]`,
/// and untouched otherwise.
pub open spec fn spec_span_painted(
    p: Pixel,
    k: int,
    w: int,
    row: int,
    jl: int,
    jr: int,
    c: Color,
) -> Pixel {
    if k / w == row && jl <= k % w <= jr {
        spec_overlay(p, c)
    } else {
        p
    }
}

impl Canvas {
    /// Dimensions within bounds, buffer length exactly `height * width`,
    /// every pixel within range.
    pub open spec fn wf(&self) -> bool {
        &&& self.x_height <= MAX_DIM
        &&& self.y_width <= MAX_DIM
        &&& self.pixels@.len() == self.x_height * self.y_width
        &&& forall|k: int| 0 <= k < self.pixels@.len() ==> self.pixels@[k].wf()
    }

    /// A fresh canvas with every pixel set to the background colour
    /// (alpha plays no part: the background is opaque).
    pub fn new(x_height: usize, y_width: usize, color: (i64, i64, i64)) -> (c: Canvas)
        requires
            x_height <= MAX_DIM,
            y_width <= MAX_DIM,
            0 <= color.0 <= CHAN_MAX,
            0 <= color.1 <= CHAN_MAX,
            0 <= color.2 <= CHAN_MAX,
        ensures
            c.wf(),
            c.x_height == x_height,
            c.y_width == y_width,
            forall|k: int|
                0 <= k < c.pixels@.len() ==> c.pixels@[k] == (Pixel {
                    r: color.0,
                    g: color.1,
                    b: color.2,
                }),
    {
        let (r, g, b) = color;
        assert(x_height * y_width <= MAX_DIM * MAX_DIM) by (nonlinear_arith)
            requires
                x_height <= MAX_DIM,
                y_width <= MAX_DIM,
        ;
        let n_pixels: usize = x_height * y_width;
        let mut pixels = Vec::<Pixel>::with_capacity(n_pixels);
        let mut i: usize = 0;
        while i < n_pixels
            invariant
                i <= n_pixels,
                pixels@.len() == i,
                forall|k: int| 0 <= k < i ==> pixels@[k] == (Pixel { r, g, b }),
            decreases n_pixels - i,
        {
            pixels.push(Pixel::new(r, g, b));
            i = i + 1;
        }
        Canvas { x_height, y_width, pixels }
    }

    /// The flat index of grid position `(i, j)`.
    pub fn idx_of(&self, i: usize, j: usize) -> (r: usize)
        requires
            self.wf(),
            i < self.x_height,
            j < self.y_width,
        ensures
            r == i * self.y_width + j,
            r < self.pixels@.len(),
    {
        assert(i * self.y_width + j < self.x_height * self.y_width <= MAX_DIM * MAX_DIM)
            by (nonlinear_arith)
            requires
                i < self.x_height <= MAX_DIM,
                j < self.y_width <= MAX_DIM,
        ;
        self.y_width * i + j
    }

    /// Composites `color` onto every pixel of row `i` whose column lies
    /// in the inclusive range `[min(j1, j2), max(j1, j2)]`; everything
    /// else is untouched.
    pub fn draw_horizontal_line(&mut self, i: usize, j1: usize, j2: usize, color: &Color)
        requires
            old(self).wf(),
            i < old(self).x_height,
            j1 < old(self).y_width,
            j2 < old(self).y_width,
            color.wf(),
        ensures
            final (self).wf(),
            final (self).x_height == old(self).x_height,
            final (self).y_width == old(self).y_width,
            forall|k: int|
                0 <= k < old(self).pixels@.len() ==> final (self).pixels@[k]
                    == spec_span_painted(
                    old(self).pixels@[k],
                    k,
                    old(self).y_width as int,
                    i as int,
                    if j1 <= j2 {
                        j1 as int
                    } else {
                        j2 as int
                    },
                    if j1 <= j2 {
                        j2 as int
                    } else {
                        j1 as int
                    },
                    *color,
                ),
    {
        let j_left: usize = if j1 <= j2 {
            j1
        } else {
            j2
        };
        let j_right: usize = if j1 <= j2 {
            j2
        } else {
            j1
        };
        let ghost w = self.y_width as int;
        let ghost orig = self.pixels@;
        let mut j: usize = j_left;
        while j <= j_right
            invariant
                self.wf(),
                i < self.x_height,
                j_left <= j <= j_right + 1,
                j_right < self.y_width,
                self.x_height == old(self).x_height,
                self.y_width == old(self).y_width,
                w == self.y_width as int,
                color.wf(),
                orig == old(self).pixels@,
                self.pixels@.len() == orig.len(),
                forall|k: int|
                    0 <= k < orig.len() ==> self.pixels@[k] == (if k / w == i as int && j_left <= k
                        % w < j {
                        spec_overlay(orig[k], *color)
                    } else {
                        orig[k]
                    }),
            decreases j_right + 1 - j,
        {
            let idx = self.idx_of(i, j);
            let p = self.pixels[idx];
            let np = overlaid(p, color);
            let ghost before = self.pixels@;
            self.pixels.set(idx, np);
            proof {
                lemma_fundamental_div_mod_converse(idx as int, w, i as int, j as int);
                assert forall|k: int|
                    0 <= k < orig.len() implies self.pixels@[k] == (if k / w == i as int && j_left
                    <= k % w < j + 1 {
                    spec_overlay(orig[k], *color)
                } else {
                    orig[k]
                }) by {
                    assert(self.pixels@ == before.update(idx as int, np));
                    if k == idx as int {
                        assert(before[k] == orig[k]);
                        assert(self.pixels@[k] == np);
                    } else {
                        assert(self.pixels@[k] == before[k]);
                        if k / w == i as int && k % w == j as int {
                            lemma_fundamental_div_mod(k, w);
                            assert(w * (i as int) == (i as int) * w) by (nonlinear_arith);
                            assert(k == idx as int);
                        }
                    }
                }
            }
            j = j + 1;
        }
    }

    /// The sum of the squared pixel distances over the first `n`
    /// positions of two buffers.
    pub open spec fn spec_total_dist(a: Seq<Pixel>, b: Seq<Pixel>, n: int) -> int
        decreases n,
    {
        if n <= 0 {
            0
        } else {
            Self::spec_total_dist(a, b, n - 1) + spec_l2_dist(a[n - 1], b[n - 1])
        }
    }

    /// The root-mean-square per-channel distance between two equally
    /// long pixel buffers: the integer square root of the summed
    /// squared differences divided by three channels per pixel, floored
    /// at one whole unit whenever any difference exists at all — so the
    /// distance is zero exactly for identical buffers.
    pub open spec fn spec_distance(a: Seq<Pixel>, b: Seq<Pixel>) -> int {
        let total = Self::spec_total_dist(a, b, a.len() as int);
        if a.len() == 0 || total == 0 {
            0
        } else {
            let s = spec_isqrt((total / (3 * a.len() as int)) as nat) as int;
            if s == 0 {
                1
            } else {
                s
            }
        }
    }

    /// The pixel-wise L2 difference of two canvases of equal
    /// dimensions; canvases of different dimensions cannot be compared
    /// and yield `DimensionMismatch`.
    pub fn l2_diff(canvas1: &Canvas, canvas2: &Canvas) -> (r: Result<i64, EvoError>)
        requires
            canvas1.wf(),
            canvas2.wf(),
        ensures
            r is Ok <==> (canvas1.x_height == canvas2.x_height && canvas1.y_width
                == canvas2.y_width),
            r is Ok ==> r->Ok_0 == Self::spec_distance(canvas1.pixels@, canvas2.pixels@)
                && 0 <= r->Ok_0 <= CHAN_MAX,
            r is Ok ==> (r->Ok_0 == 0 <==> canvas1.pixels@ == canvas2.pixels@),
            r is Err ==> r->Err_0 == EvoError::DimensionMismatch,
    {
        if canvas1.x_height != canvas2.x_height || canvas1.y_width != canvas2.y_width {
            return Err(EvoError::DimensionMismatch);
        }
        let n: usize = canvas1.pixels.len();
        assert(n <= MAX_DIM * MAX_DIM) by (nonlinear_arith)
            requires
                n == canvas1.x_height * canvas1.y_width,
                canvas1.x_height <= MAX_DIM,
                canvas1.y_width <= MAX_DIM,
        ;
        if n == 0 {
            proof {
                assert(canvas1.pixels@ =~= canvas2.pixels@);
            }
            return Ok(0);
        }
        let ghost a = canvas1.pixels@;
        let ghost b = canvas2.pixels@;
        let mut total: u128 = 0;
        let mut k: usize = 0;
        while k < n
            invariant
                k <= n,
                n == canvas1.pixels@.len() == canvas2.pixels@.len(),
                n <= MAX_DIM * MAX_DIM,
                canvas1.wf(),
                canvas2.wf(),
                a == canvas1.pixels@,
                b == canvas2.pixels@,
                total == Self::spec_total_dist(a, b, k as int),
                total <= k * 3 * CHAN_MAX * CHAN_MAX,
            decreases n - k,
        {
            let d = l2_dist(&canvas1.pixels[k], &canvas2.pixels[k]);
            assert((k + 1) * 3 * CHAN_MAX * CHAN_MAX == k * 3 * CHAN_MAX * CHAN_MAX + 3 * CHAN_MAX
                * CHAN_MAX) by (nonlinear_arith);
            total = total + d as u128;
            k = k + 1;
        }
        let divisor: u128 = 3 * n as u128;
        let mean: u128 = total / divisor;
        proof {
            assert(total <= divisor * (CHAN_MAX * CHAN_MAX)) by (nonlinear_arith)
                requires
                    total <= n * 3 * CHAN_MAX * CHAN_MAX,
                    divisor == 3 * n,
            ;
            lemma_div_is_ordered(total as int, divisor * (CHAN_MAX * CHAN_MAX), divisor as int);
            lemma_div_multiples_vanish(CHAN_MAX * CHAN_MAX, divisor as int);
        }
        let dist = isqrt_u128(mean);
        proof {
            lemma_isqrt_bounds(mean as nat);
            assert(spec_isqrt(mean as nat) <= CHAN_MAX) by (nonlinear_arith)
                requires
                    spec_isqrt(mean as nat) * spec_isqrt(mean as nat) <= mean,
                    mean <= CHAN_MAX * CHAN_MAX,
            ;
            lemma_total_dist_zero_iff(a, b, n as int);
            if total == 0 {
                assert(a =~= b);
            }
        }
        let out: i64 = if total > 0 && dist == 0 {
            1
        } else {
            dist as i64
        };
        Ok(out)
    }
}

/// The decimal spelling of `n`, as ASCII bytes.
pub open spec fn spec_dec_bytes(n: nat) -> Seq<u8>
    decreases n,
{
    if n < 10 {
        seq![(48 + n) as u8]
    } else {
        spec_dec_bytes(n / 10) + seq![(48 + n % 10) as u8]
    }
}

/// Appends the decimal spelling of `n` to `buf`.
fn push_decimal(buf: &mut Vec<u8>, n: u64)
    ensures
        final (buf)@ == old(buf)@ + spec_dec_bytes(n as nat),
    decreases n,
{
    if n < 10 {
        buf.push((48 + n) as u8);
        proof {
            assert(buf@ =~= old(buf)@ + spec_dec_bytes(n as nat));
        }
    } else {
        let ghost mid = old(buf)@ + spec_dec_bytes((n / 10) as nat);
        push_decimal(buf, n / 10);
        buf.push((48 + n % 10) as u8);
        proof {
            assert(buf@ =~= old(buf)@ + spec_dec_bytes(n as nat));
        }
    }
}

/// One line of the diagnostic dump: the three channel unit counts of a
/// pixel, space-separated, ending in a newline.
pub open spec fn spec_pixel_line(p: Pixel) -> Seq<u8> {
    spec_dec_bytes(p.r as nat) + seq![32u8] + spec_dec_bytes(p.g as nat) + seq![32u8]
        + spec_dec_bytes(p.b as nat) + seq![10u8]
}

/// The pixel lines of the diagnostic dump, in buffer order.
pub open spec fn spec_pixel_lines(s: Seq<Pixel>) -> Seq<u8>
    decreases s.len(),
{
    if s.len() == 0 {
        Seq::empty()
    } else {
        spec_pixel_lines(s.drop_last()) + spec_pixel_line(s.last())
    }
}

/// The whole diagnostic dump: a header line `h=<H> w=<W>`, then one
/// line per pixel of its three channel unit counts.
pub open spec fn spec_ascii_dump(h: nat, w: nat, pixels: Seq<Pixel>) -> Seq<u8> {
    seq![104u8, 61u8] + spec_dec_bytes(h) + seq![32u8, 119u8, 61u8] + spec_dec_bytes(w)
        + seq![10u8] + spec_pixel_lines(pixels)
}

impl Canvas {
    /// Builds the canvas equivalent to a decoded image: a flat
    /// sequence of RGB byte triples, row-major, each 8-bit channel
    /// value widened to fixed-point at unchanged scale.
    pub fn from_rgb_bytes(x_height: usize, y_width: usize, bytes: &[u8]) -> (c: Canvas)
        requires
            x_height <= MAX_DIM,
            y_width <= MAX_DIM,
            bytes@.len() == 3 * x_height * y_width,
        ensures
            c.wf(),
            c.x_height == x_height,
            c.y_width == y_width,
            forall|k: int|
                0 <= k < c.pixels@.len() ==> c.pixels@[k] == (Pixel {
                    r: (bytes@[3 * k] * FX_SCALE) as i64,
                    g: (bytes@[3 * k + 1] * FX_SCALE) as i64,
                    b: (bytes@[3 * k + 2] * FX_SCALE) as i64,
                }),
    {
        assert(x_height * y_width <= MAX_DIM * MAX_DIM) by (nonlinear_arith)
            requires
                x_height <= MAX_DIM,
                y_width <= MAX_DIM,
        ;
        let n_pixels: usize = x_height * y_width;
        assert(3 * (x_height * y_width) == 3 * x_height * y_width) by (nonlinear_arith);
        let mut pixels = Vec::<Pixel>::with_capacity(n_pixels);
        let mut i: usize = 0;
        while i < n_pixels
            invariant
                i <= n_pixels,
                n_pixels == x_height * y_width,
                n_pixels <= MAX_DIM * MAX_DIM,
                bytes@.len() == 3 * n_pixels,
                pixels@.len() == i,
                forall|k: int|
                    0 <= k < i ==> pixels@[k] == (Pixel {
                        r: (bytes@[3 * k] * FX_SCALE) as i64,
                        g: (bytes@[3 * k + 1] * FX_SCALE) as i64,
                        b: (bytes@[3 * k + 2] * FX_SCALE) as i64,
                    }),
                forall|k: int| 0 <= k < i ==> pixels@[k].wf(),
            decreases n_pixels - i,
        {
            let r = bytes[3 * i];
            let g = bytes[3 * i + 1];
            let b = bytes[3 * i + 2];
            pixels.push(
                Pixel {
                    r: r as i64 * FX_SCALE,
                    g: g as i64 * FX_SCALE,
                    b: b as i64 * FX_SCALE,
                },
            );
            i = i + 1;
        }
        Canvas { x_height, y_width, pixels }
    }

    /// The canvas as a flat sequence of RGB byte triples: each
    /// fixed-point channel narrowed back to its 8-bit value by
    /// truncation, no rounding.
    pub fn to_rgb_bytes(&self) -> (bytes: Vec<u8>)
        requires
            self.wf(),
        ensures
            bytes@.len() == 3 * self.pixels@.len(),
            forall|k: int|
                0 <= k < self.pixels@.len() ==> bytes@[3 * k] == self.pixels@[k].r as int
                    / FX_SCALE as int && bytes@[3 * k + 1] == self.pixels@[k].g as int
                    / FX_SCALE as int && bytes@[3 * k + 2] == self.pixels@[k].b as int
                    / FX_SCALE as int,
    {
        let n = self.pixels.len();
        assert(n <= MAX_DIM * MAX_DIM) by (nonlinear_arith)
            requires
                n == self.x_height * self.y_width,
                self.x_height <= MAX_DIM,
                self.y_width <= MAX_DIM,
        ;
        let mut bytes = Vec::<u8>::with_capacity(3 * n);
        let mut i: usize = 0;
        while i < n
            invariant
                i <= n,
                n == self.pixels@.len(),
                self.wf(),
                bytes@.len() == 3 * i,
                forall|k: int|
                    0 <= k < i ==> bytes@[3 * k] == self.pixels@[k].r as int / FX_SCALE as int
                        && bytes@[3 * k + 1] == self.pixels@[k].g as int / FX_SCALE as int
                        && bytes@[3 * k + 2] == self.pixels@[k].b as int / FX_SCALE as int,
            decreases n - i,
        {
            let p = self.pixels[i];
            proof {
                lemma_div_is_ordered(p.r as int, CHAN_MAX as int, FX_SCALE as int);
                lemma_div_is_ordered(p.g as int, CHAN_MAX as int, FX_SCALE as int);
                lemma_div_is_ordered(p.b as int, CHAN_MAX as int, FX_SCALE as int);
                lemma_div_multiples_vanish(255, FX_SCALE as int);
                vstd::arithmetic::div_mod::lemma_div_pos_is_pos(p.r as int, FX_SCALE as int);
                vstd::arithmetic::div_mod::lemma_div_pos_is_pos(p.g as int, FX_SCALE as int);
                vstd::arithmetic::div_mod::lemma_div_pos_is_pos(p.b as int, FX_SCALE as int);
            }
            bytes.push((p.r as u64 / FX_SCALE as u64) as u8);
            bytes.push((p.g as u64 / FX_SCALE as u64) as u8);
            bytes.push((p.b as u64 / FX_SCALE as u64) as u8);
            i = i + 1;
        }
        bytes
    }

    /// Appends the plain-text diagnostic dump of the canvas to `buf`:
    /// a header line of the dimensions, then one line per pixel of raw
    /// channel unit counts.  For debugging only, not re-ingested.
    pub fn print_as_ascii(&self, buf: &mut Vec<u8>)
        requires
            self.wf(),
        ensures
            final (buf)@ == old(buf)@ + spec_ascii_dump(
                self.x_height as nat,
                self.y_width as nat,
                self.pixels@,
            ),
    {
        buf.push(104);
        buf.push(61);
        push_decimal(buf, self.x_height as u64);
        buf.push(32);
        buf.push(119);
        buf.push(61);
        push_decimal(buf, self.y_width as u64);
        buf.push(10);
        let ghost header_done = old(buf)@ + seq![104u8, 61u8] + spec_dec_bytes(
            self.x_height as nat,
        ) + seq![32u8, 119u8, 61u8] + spec_dec_bytes(self.y_width as nat) + seq![10u8];
        proof {
            assert(buf@ =~= header_done + spec_pixel_lines(self.pixels@.take(0)));
        }
        let n = self.pixels.len();
        let mut i: usize = 0;
        while i < n
            invariant
                i <= n,
                n == self.pixels@.len(),
                self.wf(),
                buf@ == header_done + spec_pixel_lines(self.pixels@.take(i as int)),
            decreases n - i,
        {
            let p = self.pixels[i];
            push_decimal(buf, p.r as u64);
            buf.push(32);
            push_decimal(buf, p.g as u64);
            buf.push(32);
            push_decimal(buf, p.b as u64);
            buf.push(10);
            proof {
                let ghost t = self.pixels@.take(i + 1);
                assert(t.drop_last() =~= self.pixels@.take(i as int));
                assert(t.last() == self.pixels@[i as int]);
                assert(buf@ =~= header_done + spec_pixel_lines(t));
            }
            i = i + 1;
        }
        proof {
            assert(self.pixels@.take(n as int) =~= self.pixels@);
            assert(buf@ =~= old(buf)@ + spec_ascii_dump(
                self.x_height as nat,
                self.y_width as nat,
                self.pixels@,
            ));
        }
    }
}

/// The distance from a canvas to itself is zero.
pub proof fn lemma_distance_self(a: Seq<Pixel>)
    ensures
        Canvas::spec_distance(a, a) == 0,
{
    lemma_total_dist_self(a, a.len() as int);
}

/// The distance of two equally long buffers is zero exactly when they
/// are identical, pixel for pixel.
pub proof fn lemma_distance_zero_iff(a: Seq<Pixel>, b: Seq<Pixel>)
    requires
        a.len() == b.len(),
    ensures
        Canvas::spec_distance(a, b) == 0 <==> a == b,
{
    lemma_total_dist_zero_iff(a, b, a.len() as int);
    let total = Canvas::spec_total_dist(a, b, a.len() as int);
    if total == 0 {
        assert(a =~= b);
    }
    if a == b {
        lemma_total_dist_self(a, a.len() as int);
    }
}

/// The summed squared distance of a prefix is nonnegative, and zero
/// exactly when the two buffers agree on every position of it.
proof fn lemma_total_dist_zero_iff(a: Seq<Pixel>, b: Seq<Pixel>, n: int)
    requires
        n <= a.len(),
        n <= b.len(),
    ensures
        Canvas::spec_total_dist(a, b, n) >= 0,
        Canvas::spec_total_dist(a, b, n) == 0 <==> (forall|k: int| 0 <= k < n ==> a[k] == b[k]),
    decreases n,
{
    if n > 0 {
        lemma_total_dist_zero_iff(a, b, n - 1);
        let p = a[n - 1];
        let q = b[n - 1];
        assert(spec_l2_dist(p, q) >= 0 && (spec_l2_dist(p, q) == 0 <==> (p.r == q.r && p.g == q.g
            && p.b == q.b))) by (nonlinear_arith);
        if Canvas::spec_total_dist(a, b, n) == 0 {
            assert(forall|k: int| 0 <= k < n - 1 ==> a[k] == b[k]);
            assert(p == q);
        }
    }
}

/// The summed squared distance of a buffer against itself is zero.
proof fn lemma_total_dist_self(a: Seq<Pixel>, n: int)
    ensures
        Canvas::spec_total_dist(a, a, n) == 0,
    decreases n,
{
    if n > 0 {
        lemma_total_dist_self(a, n - 1);
    }
}

/// Distance is symmetric in its two canvases.
pub proof fn lemma_distance_symm(a: Seq<Pixel>, b: Seq<Pixel>)
    requires
        a.len() == b.len(),
    ensures
        Canvas::spec_distance(a, b) == Canvas::spec_distance(b, a),
{
    lemma_total_dist_symm(a, b, a.len() as int);
}

/// The summed squared distance is symmetric.
proof fn lemma_total_dist_symm(a: Seq<Pixel>, b: Seq<Pixel>, n: int)
    ensures
        Canvas::spec_total_dist(a, b, n) == Canvas::spec_total_dist(b, a, n),
    decreases n,
{
    if n > 0 {
        lemma_total_dist_symm(a, b, n - 1);
        assert(spec_l2_dist(a[n - 1], b[n - 1]) == spec_l2_dist(b[n - 1], a[n - 1]))
            by (nonlinear_arith);
    }
}

} // verus!
