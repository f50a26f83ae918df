//! RGBA colours in fixed-point units.

use vstd::prelude::*;

use crate::fixed::{clamp_i128, CHAN_MAX, FX_SCALE};
use crate::random::{normal, uniform};

verus! {

/// An RGBA colour.  Channels are fixed-point: `r`, `g`, `b` range over
/// `[0, CHAN_MAX]` (the 8-bit channel values 0 to 255) and `a` over
/// `[0, FX_SCALE]` (alpha zero to one).
#[derive(Clone, Copy, Debug, PartialEq, Eq, Structural)]
pub struct Color {
    pub r: i64,
    pub g: i64,
    pub b: i64,
    pub a: i64,
}

impl Color {
    /// All four channels within their ranges.
    pub open spec fn wf(&self) -> bool {
        &&& 0 <= self.r <= CHAN_MAX
        &&& 0 <= self.g <= CHAN_MAX
        &&& 0 <= self.b <= CHAN_MAX
        &&& 0 <= self.a <= FX_SCALE
    }

    /// A colour with uniformly random channels: `r`, `g`, `b` drawn from
    /// `[0, 255)` channel units and `a` from `[0, 1)` alpha units.
    pub fn rand_new() -> (c: Color)
        ensures
            c.wf(),
            0 <= c.r < CHAN_MAX,
            0 <= c.g < CHAN_MAX,
            0 <= c.b < CHAN_MAX,
            0 <= c.a < FX_SCALE,
    {
        Color {
            r: uniform(0, CHAN_MAX),
            g: uniform(0, CHAN_MAX),
            b: uniform(0, CHAN_MAX),
            a: uniform(0, FX_SCALE),
        }
    }

    /// Perturbs every channel with Gaussian noise — standard deviation
    /// 20 channel units times `amp` for `r`, `g`, `b` and 0.03 alpha
    /// units times `amp` for `a` — then clamps each channel back into
    /// its range.  Whatever the amplitude and the prior value of the
    /// colour, the result is within range; a zero amplitude leaves a
    /// colour already in range exactly as it was.
    pub fn mutate(&mut self, amp: i64)
        ensures
            final (self).wf(),
            old(self).wf() && amp == 0 ==> *final (self) == *old(self),
    {
        let mag: u128 = if amp >= 0 {
            amp as u128
        } else {
            (-(amp as i128)) as u128
        };
        let sigma_rgb: u32 = if 20 * mag > u32::MAX as u128 {
            u32::MAX
        } else {
            (20 * mag) as u32
        };
        let sigma_a: u32 = if 3 * mag / 100 > u32::MAX as u128 {
            u32::MAX
        } else {
            (3 * mag / 100) as u32
        };
        self.r = clamp_i128(self.r as i128 + normal(sigma_rgb) as i128, 0, CHAN_MAX);
        self.g = clamp_i128(self.g as i128 + normal(sigma_rgb) as i128, 0, CHAN_MAX);
        self.b = clamp_i128(self.b as i128 + normal(sigma_rgb) as i128, 0, CHAN_MAX);
        self.a = clamp_i128(self.a as i128 + normal(sigma_a) as i128, 0, FX_SCALE);
    }
}

} // verus!
