//! Closed ranges of fixed-point scalars, used to bound acceptable
//! intersection parameters and to clamp color channels.
use vstd::prelude::*;
use crate::fx::{FX_MAX, fxv};

verus! {

/// A closed range of raw scalars. The saturation bound stands in for an
/// infinite endpoint, so the default interval spans every representable
/// value.
#[derive(Clone, Copy, PartialEq, Eq, Structural, Debug)]
pub struct Interval {
    pub lower: i64,
    pub upper: i64,
}

/// Whether both endpoints lie in the representable scalar range.
pub open spec fn interval_ok(i: Interval) -> bool {
    fxv(i.lower as int) && fxv(i.upper as int)
}

/// `x` clamped into the interval; an endpoint wins as soon as `x` reaches
/// it.
pub open spec fn spec_clamp(i: Interval, x: int) -> int {
    if x <= i.lower {
        i.lower as int
    } else if x >= i.upper {
        i.upper as int
    } else {
        x
    }
}

impl Interval {
    pub fn new(lower: i64, upper: i64) -> (r: Interval)
        requires
            fxv(lower as int),
            fxv(upper as int),
        ensures
            r == (Interval { lower, upper }),
            interval_ok(r),
    {
        Interval { lower, upper }
    }

    /// Whether `x` lies in the closed interval.
    pub fn contains(&self, x: i64) -> (r: bool)
        ensures
            r == (self.lower <= x && x <= self.upper),
    {
        self.lower <= x && x <= self.upper
    }

    /// Whether `x` lies strictly between the endpoints; intersection
    /// parameters are accepted only this way, keeping a bounced ray from
    /// hitting its own origin.
    pub fn surrounds(&self, x: i64) -> (r: bool)
        ensures
            r == (self.lower < x && x < self.upper),
    {
        self.lower < x && x < self.upper
    }

    /// Clamp `x` into the interval.
    pub fn clamp(self, x: i64) -> (r: i64)
        ensures
            r == spec_clamp(self, x as int),
    {
        if x <= self.lower {
            self.lower
        } else if x >= self.upper {
            self.upper
        } else {
            x
        }
    }
}

impl Default for Interval {
    /// The interval spanning every representable scalar.
    fn default() -> (r: Interval)
        ensures
            r == (Interval { lower: (-FX_MAX) as i64, upper: FX_MAX }),
            interval_ok(r),
    {
        Interval { lower: -FX_MAX, upper: FX_MAX }
    }
}

} // verus!
