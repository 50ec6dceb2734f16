//! Reading the wall clock: the one place the library touches the outside
//! world. Everything downstream takes the current time as a plain value.

use vstd::prelude::*;
use chrono::Timelike;
use crate::timestamp::Timestamp;

verus! {

/// Relies on chrono's `Local::now` and the `Timelike` accessors on its time
/// of day: `hour()` returns 0 to 23, `minute()` and `second()` return 0 to
/// 59 (leap seconds live in the nanosecond field).
#[verifier::external_body]
fn now_hms() -> (r: (u32, u32, u32))
    ensures
        r.0 < 24,
        r.1 < 60,
        r.2 < 60,
{
    let t = chrono::Local::now().time();
    (t.hour(), t.minute(), t.second())
}

/// The current local time of day, read from the system clock.
pub fn now_timestamp() -> (t: Timestamp)
    ensures
        t.wf(),
{
    let (h, m, s) = now_hms();
    Timestamp::new(h, m, s)
}

} // verus!
