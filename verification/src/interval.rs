//! Closed scalar intervals.
//!
//! An interval bounds valid ray parameters during intersection search and
//! clamps color channels before quantization.

use vstd::prelude::*;

verus! {

#[derive(Copy, Clone, Debug, PartialEq, Eq, Structural)]
pub struct Interval {
    pub min: i64,
    pub max: i64,
}

impl Interval {
    pub fn new(min: i64, max: i64) -> (r: Interval)
        ensures r == (Interval { min, max }),
    {
        Interval { min, max }
    }

    /// Closed membership: `min <= x <= max`.
    pub fn contains(&self, x: i64) -> (r: bool)
        ensures r == (self.min <= x <= self.max),
    {
        self.min <= x && x <= self.max
    }

    /// Strict membership: `min < x < max`.
    pub fn surrounds(&self, x: i64) -> (r: bool)
        ensures r == (self.min < x < self.max),
    {
        self.min < x && x < self.max
    }

    /// Project `x` into `[min, max]`.
    pub fn clamp(&self, x: i64) -> (r: i64)
        ensures
            r == (if x < self.min {
                self.min
            } else if x > self.max {
                self.max
            } else {
                x
            }),
    {
        if x < self.min {
            self.min
        } else if x > self.max {
            self.max
        } else {
            x
        }
    }
}

} // verus!
