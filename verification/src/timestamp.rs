//! Points in time on the current local calendar day.

use vstd::prelude::*;
use crate::duration::{abs_i, Duration};

verus! {

/// The number of seconds in one day.
pub const SECS_PER_DAY: u32 = 86400;

/// A point in time on the current local calendar day, with one-second
/// resolution.
#[derive(Clone, Copy, Debug, PartialEq, Eq, Structural)]
pub struct Timestamp {
    pub hour: u32,
    pub minute: u32,
    pub second: u32,
}

impl Timestamp {
    /// The fields name a valid time of day.
    pub open spec fn wf(self) -> bool {
        self.hour < 24 && self.minute < 60 && self.second < 60
    }

    /// The number of seconds since midnight.
    pub open spec fn sec_of_day(self) -> int {
        self.hour as int * 3600 + self.minute as int * 60 + self.second as int
    }

    /// A timestamp from its clock components.
    pub fn new(hour: u32, minute: u32, second: u32) -> (t: Timestamp)
        requires
            hour < 24,
            minute < 60,
            second < 60,
        ensures
            t.wf(),
            t.hour == hour,
            t.minute == minute,
            t.second == second,
    {
        Timestamp { hour, minute, second }
    }

    /// The number of seconds since midnight, as a machine integer.
    pub fn seconds_of_day(self) -> (s: u32)
        requires
            self.wf(),
        ensures
            s == self.sec_of_day(),
            s < SECS_PER_DAY,
    {
        self.hour * 3600 + self.minute * 60 + self.second
    }

    /// The timestamp `s` seconds after midnight.
    pub fn from_sec_of_day(s: u32) -> (t: Timestamp)
        requires
            s < SECS_PER_DAY,
        ensures
            t.wf(),
            t.sec_of_day() == s,
    {
        Timestamp { hour: s / 3600, minute: (s % 3600) / 60, second: s % 60 }
    }
}

/// The undirected span between two times of day: how long a break lasting
/// from `a` to `b` (or from `b` to `a`) takes.
pub fn duration_between(a: Timestamp, b: Timestamp) -> (d: Duration)
    requires
        a.wf(),
        b.wf(),
    ensures
        d@ == abs_i(b.sec_of_day() - a.sec_of_day()),
        d@ >= 0,
{
    let sa = a.seconds_of_day();
    let sb = b.seconds_of_day();
    if sb < sa {
        Duration { secs: (sa - sb) as i64 }
    } else {
        Duration { secs: (sb - sa) as i64 }
    }
}

} // verus!
