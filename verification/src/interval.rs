//! A closed range of scalars, used to clamp accumulated samples.

use vstd::prelude::*;
use crate::fixed::Fx;

verus! {

/// A closed numeric range `[min, max]`.
#[derive(Clone, Copy, Debug, PartialEq, Eq, Structural)]
pub struct Interval {
    pub min: Fx,
    pub max: Fx,
}

impl Interval {
    /// The range `[min, max]`; callers keep the ends ordered.
    pub fn new(min: Fx, max: Fx) -> (iv: Interval)
        requires
            min@ <= max@,
        ensures
            iv == (Interval { min, max }),
    {
        Interval { min, max }
    }

    /// What `contains` returns.
    pub open spec fn contains_v(self, x: Fx) -> bool {
        self.min@ <= x@ <= self.max@
    }

    /// Whether `x` lies in the closed range.
    pub fn contains(&self, x: Fx) -> (r: bool)
        ensures
            r == self.contains_v(x),
    {
        self.min.le(x) && x.le(self.max)
    }

    /// What `surrounds` returns.
    pub open spec fn surrounds_v(self, x: Fx) -> bool {
        self.min@ < x@ < self.max@
    }

    /// Whether `x` lies strictly inside the range.
    pub fn surrounds(&self, x: Fx) -> (r: bool)
        ensures
            r == self.surrounds_v(x),
    {
        self.min.lt(x) && x.lt(self.max)
    }

    /// What `clamp` returns: `min` wins first, then `max`, then `x` itself.
    pub open spec fn clamp_v(self, x: Fx) -> Fx {
        if self.min@ > x@ {
            self.min
        } else if self.max@ < x@ {
            self.max
        } else {
            x
        }
    }

    /// `x` forced into the range.
    pub fn clamp(&self, x: Fx) -> (r: Fx)
        ensures
            r == self.clamp_v(x),
    {
        if x.lt(self.min) {
            return self.min;
        }
        if self.max.lt(x) {
            return self.max;
        }
        x
    }

    /// What `sample` returns.
    pub open spec fn sample_v(self, color: Fx, pixels_per_sample: i32) -> Fx
        recommends
            pixels_per_sample >= 1,
    {
        let scale = crate::fixed::fx_one().div_v(
            Fx { raw: crate::fixed::clip(pixels_per_sample * crate::fixed::SCALE) as i64 },
        );
        self.clamp_v(color.mul_v(scale))
    }

    /// An accumulated channel sum scaled by `1 / pixels_per_sample` and
    /// clamped into the range.
    pub fn sample(&self, color: Fx, pixels_per_sample: i32) -> (r: Fx)
        requires
            pixels_per_sample >= 1,
        ensures
            r == self.sample_v(color, pixels_per_sample),
    {
        let denom = Fx::from_int(pixels_per_sample as i64);
        proof {
            lemma_from_int_pos(pixels_per_sample as i64);
        }
        let scale = Fx::one().div(denom);
        let new_color = color.mul(scale);
        self.clamp(new_color)
    }
}

/// A positive integer stays positive as a scalar.
proof fn lemma_from_int_pos(i: i64)
    requires
        i >= 1,
    ensures
        crate::fixed::clip(i * crate::fixed::SCALE) >= 1,
{
    assert(i * crate::fixed::SCALE >= 1 * crate::fixed::SCALE) by (nonlinear_arith)
        requires
            i >= 1,
            crate::fixed::SCALE > 0,
    ;
}

} // verus!
