//! A closed scalar range, used both as a valid hit-parameter window and as
//! the clamp range for color output.

use vstd::prelude::*;

use crate::fixed::Fx;

verus! {

/// Clamping into `[min, max]`. An inverted range clamps to its bounds in
/// branch order, exactly as the executable code does.
pub open spec fn iv_clamp(min: int, max: int, x: int) -> int {
    if x < min {
        min
    } else if x > max {
        max
    } else {
        x
    }
}

/// A closed interval `[min, max]`. An inverted interval (`min > max`) simply
/// never surrounds anything.
#[derive(Clone, Copy, Debug)]
pub struct Interval {
    pub min: Fx,
    pub max: Fx,
}

impl Interval {
    /// An interval with the given bounds.
    pub fn new(min: Fx, max: Fx) -> (r: Interval)
        ensures
            r.min@ == min@,
            r.max@ == max@,
    {
        Interval { min, max }
    }

    /// Whether `x` lies strictly inside the interval.
    pub fn surrounds(&self, x: Fx) -> (r: bool)
        ensures
            r == (self.min@ < x@ && x@ < self.max@),
    {
        self.min.lt(x) && x.lt(self.max)
    }

    /// `x` saturated to the interval's bounds.
    pub fn clamp(&self, x: Fx) -> (r: Fx)
        ensures
            r@ == iv_clamp(self.min@, self.max@, x@),
    {
        if x.lt(self.min) {
            return self.min;
        }
        if self.max.lt(x) {
            return self.max;
        }
        x
    }
}

} // verus!
