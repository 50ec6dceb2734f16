//! Signed elapsed-time spans with one-second resolution.

use vstd::prelude::*;

verus! {

/// The absolute value of a mathematical integer.
pub open spec fn abs_i(x: int) -> int {
    if x < 0 {
        -x
    } else {
        x
    }
}

/// The larger of two mathematical integers.
pub open spec fn max_i(a: int, b: int) -> int {
    if a < b {
        b
    } else {
        a
    }
}

/// `n / d` rounded to the nearest integer, halves away from zero.
pub open spec fn round_div(n: int, d: int) -> int
    recommends
        d != 0,
{
    let q = (2 * abs_i(n) + abs_i(d)) / (2 * abs_i(d));
    if (n >= 0) == (d > 0) {
        q
    } else {
        -q
    }
}

/// A signed span of elapsed time, counted in whole seconds.
///
/// Spans are used for goals, breaks, and computed remainders; a negative
/// span points against the direction its context implies (for instance an
/// end time that lies before the start time).
#[derive(Clone, Copy, Debug, PartialEq, Eq, Structural)]
pub struct Duration {
    pub secs: i64,
}

impl View for Duration {
    type V = int;

    open spec fn view(&self) -> int {
        self.secs as int
    }
}

impl Duration {
    /// The empty span.
    pub fn zero() -> (d: Duration)
        ensures
            d@ == 0,
    {
        Duration { secs: 0 }
    }

    /// The span of `h` hours, `m` minutes and `s` seconds.
    pub fn from_hms(h: u32, m: u32, s: u32) -> (d: Duration)
        ensures
            d@ == h * 3600 + m * 60 + s,
    {
        Duration { secs: h as i64 * 3600 + m as i64 * 60 + s as i64 }
    }
}

} // verus!
