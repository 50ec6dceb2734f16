//! The work-hour report: break accumulation, goal and start-time
//! resolution, and the derived durations and projections printed at exit.

use vstd::prelude::*;
use crate::duration::{abs_i, max_i, round_div, Duration};
use crate::parse::{
    break_error, break_parts, break_secs, calculate_duration_from_string_ts, create_duration,
    duration_error, is_valid_break, is_valid_duration, lemma_valid_time_sec_bounds,
    time_sec_of_day, views_of, InputError,
};
use crate::timestamp::{Timestamp, SECS_PER_DAY};

verus! {

/// The short default break, taken below the long-day threshold.
pub const SHORT_BREAK_SECS: i64 = 1800;

/// The large default break, taken on long days and used as a floor in
/// clock-out projections.
pub const LARGE_BREAK_SECS: i64 = 2700;

/// Elapsed time at or above this (nine hours plus the short break) makes a
/// day long enough for the large default break.
pub const LONG_DAY_THRESHOLD_SECS: i64 = 34200;

/// Nine working hours, one of the fixed projection thresholds.
pub const NINE_HOURS_SECS: i64 = 32400;

/// Ten working hours, the larger fixed projection threshold.
pub const TEN_HOURS_SECS: i64 = 36000;

/// The earliest plausible workday start, 06:00: earlier start times are
/// clamped up to it.
pub const MIN_START_SECS: u32 = 21600;

/// A weekly goal is spread over this many workdays.
pub const WORKDAYS_PER_WEEK: i64 = 5;

/// An upper bound on the spans the report computes with; sums below it stay
/// clear of `i64` overflow.
pub const MAX_SPAN_SECS: i64 = 0x2000_0000_0000_0000;

/// The default break when no intervals were given: short below the long-day
/// threshold, large at or above it.
pub open spec fn default_break_secs(total: int) -> int {
    if total >= LONG_DAY_THRESHOLD_SECS {
        LARGE_BREAK_SECS as int
    } else {
        SHORT_BREAK_SECS as int
    }
}

/// Every string in `bs` parses as a break interval.
pub open spec fn all_breaks_valid(bs: Seq<Seq<char>>) -> bool {
    forall|i: int| 0 <= i < bs.len() ==> is_valid_break(#[trigger] bs[i])
}

/// The summed spans of a sequence of break intervals.
pub open spec fn sum_break_secs(bs: Seq<Seq<char>>) -> int
    recommends
        all_breaks_valid(bs),
    decreases bs.len(),
{
    if bs.len() == 0 {
        0
    } else {
        sum_break_secs(bs.drop_last()) + break_secs(bs.last())
    }
}

/// The longest single span among a sequence of break intervals; zero when
/// there are none.
pub open spec fn max_break_secs(bs: Seq<Seq<char>>) -> int
    recommends
        all_breaks_valid(bs),
    decreases bs.len(),
{
    if bs.len() == 0 {
        0
    } else {
        max_i(max_break_secs(bs.drop_last()), break_secs(bs.last()))
    }
}

/// Sums the given break intervals and tracks the longest one; with no
/// intervals given, falls back to the default break policy (and reports no
/// longest break). Returns `(total break, longest break)`.
///
/// The bound on the number of intervals keeps the summed seconds within an
/// `i64`; each interval spans less than a day.
pub fn accumulate_breaks(total_time: Duration, breaks: &Vec<String>) -> (r: Result<
    (Duration, Duration),
    InputError,
>)
    requires
        breaks@.len() <= 100_000_000_000,
    ensures
        breaks@.len() == 0 ==> r is Ok,
        match r {
            Ok(p) => {
                &&& breaks@.len() == 0 ==> p.0@ == default_break_secs(total_time@) && p.1@ == 0
                &&& breaks@.len() > 0 ==> {
                    &&& all_breaks_valid(views_of(breaks@))
                    &&& p.0@ == sum_break_secs(views_of(breaks@))
                    &&& p.1@ == max_break_secs(views_of(breaks@))
                }
                &&& 0 <= p.1@ <= p.0@ <= MAX_SPAN_SECS
            },
            Err(e) => {
                &&& breaks@.len() > 0
                &&& exists|i: int|
                    {
                        &&& 0 <= i < breaks@.len()
                        &&& !is_valid_break(#[trigger] views_of(breaks@)[i])
                        &&& e == break_error(views_of(breaks@)[i])
                        &&& forall|j: int| 0 <= j < i ==> is_valid_break(views_of(breaks@)[j])
                    }
            },
        },
{
    if breaks.len() == 0 {
        let d = if total_time.secs >= LONG_DAY_THRESHOLD_SECS {
            Duration { secs: LARGE_BREAK_SECS }
        } else {
            Duration { secs: SHORT_BREAK_SECS }
        };
        return Ok((d, Duration { secs: 0 }));
    }
    let ghost bs = views_of(breaks@);
    let mut total: i64 = 0;
    let mut longest: i64 = 0;
    let mut i: usize = 0;
    while i < breaks.len()
        invariant
            breaks@.len() <= 100_000_000_000,
            bs == views_of(breaks@),
            0 <= i <= breaks@.len(),
            forall|j: int| 0 <= j < i ==> is_valid_break(#[trigger] bs[j]),
            total == sum_break_secs(bs.take(i as int)),
            longest == max_break_secs(bs.take(i as int)),
            0 <= longest <= total <= i * 86399,
        decreases breaks@.len() - i,
    {
        assert(breaks@[i as int]@ == bs[i as int]);
        let d = match calculate_duration_from_string_ts(&breaks[i]) {
            Ok(d) => d,
            Err(e) => {
                return Err(e);
            },
        };
        assert(d@ <= 86399) by {
            lemma_valid_time_sec_bounds(break_parts(bs[i as int])[0]);
            lemma_valid_time_sec_bounds(break_parts(bs[i as int])[1]);
        }
        if d.secs > longest {
            longest = d.secs;
        }
        total = total + d.secs;
        proof {
            assert(bs.take(i + 1).drop_last() =~= bs.take(i as int));
            assert(bs.take(i + 1).last() == bs[i as int]);
        }
        i += 1;
    }
    proof {
        assert(bs.take(breaks@.len() as int) =~= bs);
    }
    Ok((Duration { secs: total }, Duration { secs: longest }))
}

/// Resolves the daily work-hour goal: an explicit daily goal wins; else a
/// weekly goal is split evenly over the workdays of a week; with neither,
/// the goal is missing.
pub fn resolve_goal(daily: Option<&str>, weekly: Option<&str>) -> (r: Result<Duration, InputError>)
    ensures
        match r {
            Ok(g) => {
                &&& daily matches Some(d) ==> is_valid_duration(d@) && g@ == time_sec_of_day(d@)
                &&& daily is None ==> (weekly matches Some(w) ==> is_valid_duration(w@) && g@
                    == time_sec_of_day(w@) / (WORKDAYS_PER_WEEK as int))
                &&& !(daily is None && weekly is None)
                &&& 0 <= g@
            },
            Err(e) => {
                &&& daily matches Some(d) ==> !is_valid_duration(d@) && e == duration_error(d@)
                &&& daily is None ==> (weekly matches Some(w) ==> !is_valid_duration(w@) && e
                    == duration_error(w@))
                &&& daily is None && weekly is None ==> e == InputError::NoGoal
            },
        },
{
    match daily {
        Some(d) => create_duration(d),
        None => match weekly {
            Some(w) => {
                let full = match create_duration(w) {
                    Ok(full) => full,
                    Err(e) => {
                        return Err(e);
                    },
                };
                Ok(Duration { secs: full.secs / WORKDAYS_PER_WEEK })
            },
            None => Err(InputError::NoGoal),
        },
    }
}

/// Clamps a start time to the earliest plausible workday start, 06:00.
/// The flag says that the clamp took effect, so that the caller can emit an
/// informational notice.
pub fn resolve_start_time(given: Timestamp) -> (r: (Timestamp, bool))
    requires
        given.wf(),
    ensures
        r.1 == (given.sec_of_day() < MIN_START_SECS),
        r.1 ==> r.0 == (Timestamp { hour: 6, minute: 0, second: 0 }),
        !r.1 ==> r.0 == given,
        r.0.wf(),
        r.0.sec_of_day() >= MIN_START_SECS,
{
    if given.seconds_of_day() < MIN_START_SECS {
        (Timestamp { hour: 6, minute: 0, second: 0 }, true)
    } else {
        (given, false)
    }
}

/// Work time as a share of the goal, in hundredths of a percent, rounded to
/// the nearest (halves away from zero); `None` when the goal is empty and
/// the share undefined.
pub fn percent_of_goal(work: Duration, goal: Duration) -> (r: Option<i128>)
    ensures
        goal@ == 0 ==> r is None,
        goal@ != 0 ==> (r matches Some(q) && q == round_div(10000 * work@, goal@)),
{
    if goal.secs == 0 {
        return None;
    }
    let n: i128 = 10000 * (work.secs as i128);
    let d: i128 = goal.secs as i128;
    let na: i128 = if n < 0 {
        -n
    } else {
        n
    };
    let da: i128 = if d < 0 {
        -d
    } else {
        d
    };
    let q = (2 * na + da) / (2 * da);
    if (n >= 0) == (d > 0) {
        Some(q)
    } else {
        Some(-q)
    }
}

/// The second of the day work ended: the given end time, or the current
/// time when none was given.
pub open spec fn effective_end(end: Option<Timestamp>, now: Timestamp) -> int {
    match end {
        Some(e) => e.sec_of_day(),
        None => now.sec_of_day(),
    }
}

/// The elapsed time between the start and the end of work (or the current
/// time, when work has no end yet). Negative when the end lies before the
/// start.
pub fn elapsed_time(start: Timestamp, end: Option<Timestamp>, now: Timestamp) -> (d: Duration)
    requires
        start.wf(),
        now.wf(),
        end matches Some(e) ==> e.wf(),
    ensures
        d@ == effective_end(end, now) - start.sec_of_day(),
{
    let end_s: i64 = match end {
        Some(e) => e.seconds_of_day() as i64,
        None => now.seconds_of_day() as i64,
    };
    Duration { secs: end_s - start.seconds_of_day() as i64 }
}

/// Everything the one-shot report prints, derived once from the resolved
/// inputs.
#[derive(Clone, Copy, Debug)]
pub struct Report {
    /// The (clamped) start time.
    pub start: Timestamp,
    /// The given end time, if any.
    pub end: Option<Timestamp>,
    /// The resolved daily goal.
    pub workday: Duration,
    /// End (or now) minus start.
    pub total_time: Duration,
    /// Total break time, explicit or by policy.
    pub break_time: Duration,
    /// The longest explicit break; zero when breaks came from the policy.
    pub longest_break: Duration,
    /// Elapsed time net of breaks.
    pub work_time: Duration,
    /// Work time has exceeded the goal.
    pub done: bool,
    /// How far work time lies from the goal; the report's text labels it
    /// "more" or "remaining" by the `done` flag.
    pub remainder: Duration,
    /// Work time over goal in hundredths of a percent; `None` on an empty
    /// goal.
    pub percent_hundredths: Option<i128>,
    /// Projected clock-out at the goal plus the actual break.
    pub goal_end: Timestamp,
    /// Projected clock-out at nine hours plus the larger of the large break
    /// and the actual break.
    pub nine_hour_end: Timestamp,
    /// Projected clock-out at ten hours plus the larger of the large break
    /// and the actual break.
    pub ten_hour_end: Timestamp,
    /// Time from now to the ten-hour clock-out.
    pub max_remaining: Duration,
}

/// The time of day `total` seconds after midnight, wrapped around the day.
fn wrap_to_day(total: i64) -> (t: Timestamp)
    requires
        0 <= total,
    ensures
        t.wf(),
        t.sec_of_day() == (total as int) % (SECS_PER_DAY as int),
{
    Timestamp::from_sec_of_day((total % (SECS_PER_DAY as i64)) as u32)
}

/// Derives the report from the resolved start, end, goal and breaks, at the
/// injected reference time `now`.
///
/// The bounds on the goal and the break keep every computed span within an
/// `i64`; both are non-negative as parsing and accumulation produce them.
pub fn compute_report(
    start: Timestamp,
    end: Option<Timestamp>,
    now: Timestamp,
    workday: Duration,
    break_time: Duration,
    longest_break: Duration,
) -> (r: Report)
    requires
        start.wf(),
        now.wf(),
        end matches Some(e) ==> e.wf(),
        0 <= workday@,
        0 <= break_time@,
        workday@ + break_time@ <= MAX_SPAN_SECS,
    ensures
        r.start == start,
        r.end == end,
        r.workday == workday,
        r.break_time == break_time,
        r.longest_break == longest_break,
        r.total_time@ == effective_end(end, now) - start.sec_of_day(),
        r.work_time@ == r.total_time@ - break_time@,
        r.done == (r.work_time@ > workday@),
        r.remainder@ == (if r.done {
            workday@ + break_time@ - r.total_time@
        } else {
            r.total_time@ - (workday@ + break_time@)
        }),
        workday@ == 0 ==> r.percent_hundredths is None,
        workday@ != 0 ==> (r.percent_hundredths matches Some(q) && q == round_div(
            10000 * r.work_time@,
            workday@,
        )),
        r.goal_end.wf(),
        r.goal_end.sec_of_day() == (start.sec_of_day() + workday@ + break_time@) % (
        SECS_PER_DAY as int),
        r.nine_hour_end.wf(),
        r.nine_hour_end.sec_of_day() == (start.sec_of_day() + NINE_HOURS_SECS + max_i(
            LARGE_BREAK_SECS as int,
            break_time@,
        )) % (SECS_PER_DAY as int),
        r.ten_hour_end.wf(),
        r.ten_hour_end.sec_of_day() == (start.sec_of_day() + TEN_HOURS_SECS + max_i(
            LARGE_BREAK_SECS as int,
            break_time@,
        )) % (SECS_PER_DAY as int),
        r.max_remaining@ == start.sec_of_day() + TEN_HOURS_SECS + max_i(
            LARGE_BREAK_SECS as int,
            break_time@,
        ) - now.sec_of_day(),
{
    let start_s = start.seconds_of_day() as i64;
    let end_s: i64 = match end {
        Some(e) => e.seconds_of_day() as i64,
        None => now.seconds_of_day() as i64,
    };
    let now_s = now.seconds_of_day() as i64;
    let total = end_s - start_s;
    let work = total - break_time.secs;
    let done = work > workday.secs;
    let remainder = if done {
        workday.secs + break_time.secs - total
    } else {
        total - (workday.secs + break_time.secs)
    };
    let percent = percent_of_goal(Duration { secs: work }, workday);
    let projected_break = if break_time.secs > LARGE_BREAK_SECS {
        break_time.secs
    } else {
        LARGE_BREAK_SECS
    };
    let goal_end = wrap_to_day(start_s + workday.secs + break_time.secs);
    let nine_hour_end = wrap_to_day(start_s + NINE_HOURS_SECS + projected_break);
    let ten_hour_end = wrap_to_day(start_s + TEN_HOURS_SECS + projected_break);
    let max_remaining = start_s + TEN_HOURS_SECS + projected_break - now_s;
    Report {
        start,
        end,
        workday,
        total_time: Duration { secs: total },
        break_time,
        longest_break,
        work_time: Duration { secs: work },
        done,
        remainder: Duration { secs: remainder },
        percent_hundredths: percent,
        goal_end,
        nine_hour_end,
        ten_hour_end,
        max_remaining: Duration { secs: max_remaining },
    }
}

impl Report {
    /// The longest single break to report: when only the implicit policy
    /// break was taken, the total stands in for it.
    pub fn longest_break_shown(&self) -> (d: Duration)
        ensures
            d@ == (if self.longest_break@ == 0 {
                self.break_time@
            } else {
                self.longest_break@
            }),
    {
        if self.longest_break.secs == 0 {
            self.break_time
        } else {
            self.longest_break
        }
    }
}

} // verus!
