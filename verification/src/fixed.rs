//! Fixed-point arithmetic for the rasterizer.
//!
//! Coordinates, colour channels and alpha values are carried as `i64`
//! counts of `1 / FX_SCALE` units.  A whole pixel (or one unit of an
//! 8-bit channel, or an alpha of one) is `FX_SCALE` units.  All helpers
//! here carry exact contracts over mathematical integers.

use vstd::prelude::*;

verus! {

/// Number of fixed-point units per whole pixel / channel step / alpha unit.
pub const FX_SCALE: i64 = 1024;

/// Half of one whole unit, used when rounding to the nearest grid cell.
pub const FX_HALF: i64 = 512;

/// Magnitude bound kept on every coordinate and radius.  Mutation may
/// drift geometry far outside the canvas, but values saturate here so
/// that later products fit comfortably in `i128`.
pub const COORD_LIMIT: i64 = 0x100_0000_0000;

/// Largest canvas side length the library accepts.
pub const MAX_DIM: usize = 0x8000;

/// Largest fixed-point value of a colour channel (the channel 255).
pub const CHAN_MAX: i64 = 255 * 1024;

/// What `v` clamped to the inclusive range `[lo, hi]` is.
pub open spec fn spec_clamp(v: int, lo: int, hi: int) -> int {
    if v < lo {
        lo
    } else if v > hi {
        hi
    } else {
        v
    }
}

/// Clamps a wide intermediate value to an `i64` range.
pub fn clamp_i128(v: i128, lo: i64, hi: i64) -> (r: i64)
    requires
        lo <= hi,
    ensures
        r == spec_clamp(v as int, lo as int, hi as int),
{
    if v < lo as i128 {
        lo
    } else if v > hi as i128 {
        hi
    } else {
        v as i64
    }
}

/// What division truncated toward zero yields: the quotient of the
/// magnitudes, negated when the operands' signs differ.
pub open spec fn spec_div_trunc(n: int, d: int) -> int
    recommends
        d != 0,
{
    let q = abs_int(n) / abs_int(d);
    if (n >= 0) == (d > 0) {
        q
    } else {
        -q
    }
}

/// The absolute value of a mathematical integer.
pub open spec fn abs_int(v: int) -> int {
    if v >= 0 {
        v
    } else {
        -v
    }
}

/// Division truncated toward zero, on wide intermediates.
pub fn div_trunc(n: i128, d: i128) -> (r: i128)
    requires
        d != 0,
        -0x1000_0000_0000_0000_0000_0000_0000_0000 < n,
        -0x1000_0000_0000_0000_0000_0000_0000_0000 < d,
    ensures
        r == spec_div_trunc(n as int, d as int),
        abs_int(r as int) <= abs_int(n as int),
{
    let na: u128 = if n >= 0 {
        n as u128
    } else {
        (-n) as u128
    };
    let da: u128 = if d >= 0 {
        d as u128
    } else {
        (-d) as u128
    };
    let q: u128 = na / da;
    assert(q <= na) by {
        assert(na as int / da as int <= na as int) by (nonlinear_arith)
            requires
                da >= 1,
                na >= 0,
        ;
    }
    if (n >= 0) == (d > 0) {
        q as i128
    } else {
        -(q as i128)
    }
}

/// What mapping a fixed-point coordinate to a grid cell yields: round to
/// the nearest cell, then clamp to `[0, max]`.
pub open spec fn spec_fx_to_cell(v: int, max: int) -> int {
    if v <= 0 {
        0
    } else if (v + FX_HALF) / (FX_SCALE as int) > max {
        max
    } else {
        (v + FX_HALF) / (FX_SCALE as int)
    }
}

/// Maps a fixed-point coordinate to the nearest grid cell index,
/// clamped to `[0, max]`.
pub fn fx_to_cell(v: i64, max: usize) -> (r: usize)
    requires
        max <= MAX_DIM,
    ensures
        r == spec_fx_to_cell(v as int, max as int),
        r <= max,
{
    if v <= 0 {
        0
    } else {
        let q: u64 = (v as u64 + FX_HALF as u64) / FX_SCALE as u64;
        if q > max as u64 {
            max
        } else {
            q as usize
        }
    }
}

/// Mapping to grid cells preserves order.
pub proof fn lemma_fx_to_cell_monotone(v1: int, v2: int, max: int)
    requires
        v1 <= v2,
        0 <= max,
    ensures
        0 <= spec_fx_to_cell(v1, max) <= spec_fx_to_cell(v2, max) <= max,
{
    if 0 < v2 {
        vstd::arithmetic::div_mod::lemma_div_pos_is_pos(v2 + FX_HALF, FX_SCALE as int);
        if 0 < v1 {
            vstd::arithmetic::div_mod::lemma_div_is_ordered(
                v1 + FX_HALF,
                v2 + FX_HALF,
                FX_SCALE as int,
            );
            vstd::arithmetic::div_mod::lemma_div_pos_is_pos(v1 + FX_HALF, FX_SCALE as int);
        }
    }
}

/// The integer square root: the greatest `r` with `r * r <= n`.
pub open spec fn spec_isqrt(n: nat) -> nat
    decreases n,
{
    if n == 0 {
        0
    } else {
        let s = spec_isqrt((n - 1) as nat);
        if (s + 1) * (s + 1) <= n {
            s + 1
        } else {
            s
        }
    }
}

/// The integer square root is characterised by its two bounds.
pub proof fn lemma_isqrt_bounds(n: nat)
    ensures
        spec_isqrt(n) * spec_isqrt(n) <= n,
        n < (spec_isqrt(n) + 1) * (spec_isqrt(n) + 1),
    decreases n,
{
    if n == 0 {
        assert(spec_isqrt(0) == 0);
        assert(n < (spec_isqrt(n) + 1) * (spec_isqrt(n) + 1)) by (nonlinear_arith)
            requires
                n == 0 && spec_isqrt(n) == 0,
        ;
    } else {
        lemma_isqrt_bounds((n - 1) as nat);
        let s = spec_isqrt((n - 1) as nat);
        if (s + 1) * (s + 1) <= n {
            assert(spec_isqrt(n) == s + 1);
            assert(n < (s + 2) * (s + 2)) by (nonlinear_arith)
                requires
                    n - 1 < (s + 1) * (s + 1),
            ;
            assert(n < (spec_isqrt(n) + 1) * (spec_isqrt(n) + 1));
        } else {
            assert(spec_isqrt(n) == s);
            assert(n < (spec_isqrt(n) + 1) * (spec_isqrt(n) + 1));
        }
    }
}

/// Any `r` that lies between the two square bounds is the integer
/// square root.
pub proof fn lemma_isqrt_unique(n: nat, r: nat)
    requires
        r * r <= n,
        n < (r + 1) * (r + 1),
    ensures
        r == spec_isqrt(n),
{
    lemma_isqrt_bounds(n);
    let s = spec_isqrt(n);
    if r < s {
        assert((r + 1) * (r + 1) <= s * s) by (nonlinear_arith)
            requires
                r + 1 <= s,
        ;
    }
    if s < r {
        assert((s + 1) * (s + 1) <= r * r) by (nonlinear_arith)
            requires
                s + 1 <= r,
        ;
    }
}

/// Computes the integer square root by bisection.
pub fn isqrt_u128(n: u128) -> (r: u128)
    ensures
        r == spec_isqrt(n as nat),
{
    let mut lo: u128 = 0;
    let mut hi: u128 = 0x1_0000_0000_0000_0000;
    while hi - lo > 1
        invariant
            lo < hi,
            hi <= 0x1_0000_0000_0000_0000,
            lo * lo <= n,
            (n as int) < (hi as int) * (hi as int),
        decreases hi - lo,
    {
        let mid: u128 = lo + (hi - lo) / 2;
        assert((mid as int) * (mid as int) < 0x1_0000_0000_0000_0000 * 0x1_0000_0000_0000_0000)
            by (nonlinear_arith)
            requires
                0 <= mid < 0x1_0000_0000_0000_0000,
        ;
        let sq: u128 = mid * mid;
        if sq <= n {
            lo = mid;
        } else {
            hi = mid;
        }
    }
    proof {
        lemma_isqrt_unique(n as nat, lo as nat);
    }
    lo
}

} // verus!
