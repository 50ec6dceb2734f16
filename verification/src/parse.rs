//! Parsers for clock times (`"HH:MM[:SS]"`), goal durations, and break
//! intervals (`"HH:MM[:SS]-HH:MM[:SS]"`).

use vstd::prelude::*;
use vstd::string::StrSliceExecFns;
use vstd::string::StringExecFns;
use crate::duration::{abs_i, Duration};
use crate::timestamp::{duration_between, Timestamp};

verus! {

/// `c` is one of the characters `'0'` through `'9'`.
pub open spec fn is_dec_digit(c: char) -> bool {
    48 <= c as u32 <= 57
}

/// The numeric value of a decimal digit character.
pub open spec fn digit_val(c: char) -> int
    recommends
        is_dec_digit(c),
{
    c as u32 - 48
}

/// The number a string of decimal digits denotes.
pub open spec fn dec_val(s: Seq<char>) -> int
    recommends
        forall|i: int| 0 <= i < s.len() ==> is_dec_digit(s[i]),
    decreases s.len(),
{
    if s.len() == 0 {
        0
    } else {
        dec_val(s.drop_last()) * 10 + digit_val(s.last())
    }
}

/// `s` is a non-empty string of decimal digits.
pub open spec fn is_dec_string(s: Seq<char>) -> bool {
    s.len() > 0 && forall|i: int| 0 <= i < s.len() ==> is_dec_digit(s[i])
}

/// `s` denotes a number that fits in a `u32`.
pub open spec fn parses_u32(s: Seq<char>) -> bool {
    is_dec_string(s) && dec_val(s) <= u32::MAX
}

/// The parts of `s` between occurrences of the separator `sep`, in order.
/// An empty string has one (empty) part, as does every stretch between two
/// adjacent separators.
pub open spec fn split_on(s: Seq<char>, sep: char) -> Seq<Seq<char>>
    decreases s.len(),
{
    match s.index_of_first(sep) {
        // a found index is always in range; the guard keeps the recursion
        // visibly bounded
        Some(i) => if 0 <= i < s.len() {
            seq![s.take(i)] + split_on(s.skip(i + 1), sep)
        } else {
            seq![s]
        },
        None => seq![s],
    }
}

/// How `split_on` consumes its input: up to the first separator (at `k`, if
/// any) comes one part, and the rest is split in turn.
pub proof fn lemma_split_on_step(s: Seq<char>, sep: char, k: int)
    requires
        0 <= k <= s.len(),
        forall|j: int| 0 <= j < k ==> s[j] != sep,
        k < s.len() ==> s[k] == sep,
    ensures
        k == s.len() ==> split_on(s, sep) == seq![s],
        k < s.len() ==> split_on(s, sep) == seq![s.take(k)] + split_on(s.skip(k + 1), sep),
{
    s.index_of_first_ensures(sep);
    if k == s.len() {
        assert(s.index_of_first(sep) is None);
    } else {
        assert(s.contains(sep)) by {
            assert(s[k] == sep);
        }
        let i = s.index_of_first(sep)->Some_0;
        assert(i == k) by {
            if i < k {
                assert(s[i] != sep);
            }
            if k < i {
                assert(s[k] != sep);
            }
        }
    }
}

/// The value of one more digit appended to a digit string.
proof fn lemma_dec_val_take_succ(s: Seq<char>, i: int)
    requires
        0 <= i < s.len(),
    ensures
        dec_val(s.take(i + 1)) == dec_val(s.take(i)) * 10 + digit_val(s[i]),
{
    assert(s.take(i + 1).drop_last() =~= s.take(i));
    assert(s.take(i + 1).last() == s[i]);
}

proof fn lemma_dec_val_nonneg(s: Seq<char>)
    requires
        forall|j: int| 0 <= j < s.len() ==> is_dec_digit(s[j]),
    ensures
        dec_val(s) >= 0,
    decreases s.len(),
{
    if s.len() > 0 {
        lemma_dec_val_nonneg(s.drop_last());
    }
}

/// A digit string's value is at least the value of any prefix.
proof fn lemma_dec_val_prefix_le(s: Seq<char>, i: int)
    requires
        0 <= i <= s.len(),
        forall|j: int| 0 <= j < s.len() ==> is_dec_digit(s[j]),
    ensures
        dec_val(s.take(i)) <= dec_val(s),
    decreases s.len() - i,
{
    if i == s.len() {
        assert(s.take(i) =~= s);
    } else {
        lemma_dec_val_take_succ(s, i);
        assert(forall|j: int| 0 <= j < s.take(i).len() ==> is_dec_digit(s.take(i)[j]));
        lemma_dec_val_nonneg(s.take(i));
        lemma_dec_val_prefix_le(s, i + 1);
    }
}

/// Parses a non-empty, all-digit string as a `u32`; `None` on any other
/// input, including numbers too large for a `u32`.
pub fn parse_u32(s: &str) -> (r: Option<u32>)
    ensures
        parses_u32(s@) ==> r == Some(dec_val(s@) as u32),
        !parses_u32(s@) ==> r is None,
{
    let n = s.unicode_len();
    if n == 0 {
        return None;
    }
    let mut acc: u32 = 0;
    let mut i: usize = 0;
    while i < n
        invariant
            0 < n == s@.len(),
            0 <= i <= n,
            forall|j: int| 0 <= j < i ==> is_dec_digit(s@[j]),
            acc == dec_val(s@.take(i as int)),
        decreases n - i,
    {
        let c = s.get_char(i);
        let v = c as u32;
        if v < 48 || v > 57 {
            assert(!is_dec_digit(s@[i as int]));
            return None;
        }
        let d = v - 48;
        if acc > (u32::MAX - d) / 10 {
            proof {
                if is_dec_string(s@) {
                    lemma_dec_val_take_succ(s@, i as int);
                    lemma_dec_val_prefix_le(s@, i + 1);
                }
            }
            return None;
        }
        acc = acc * 10 + d;
        proof {
            lemma_dec_val_take_succ(s@, i as int);
        }
        i += 1;
    }
    proof {
        assert(s@.take(n as int) =~= s@);
    }
    Some(acc)
}

/// The views of a vector of strings.
pub open spec fn views_of(parts: Seq<String>) -> Seq<Seq<char>> {
    parts.map_values(|p: String| p@)
}

proof fn lemma_views_of_push(parts: Seq<String>, x: String)
    ensures
        views_of(parts.push(x)) =~= views_of(parts).push(x@),
{
}

/// Splits `s` at every occurrence of `sep`.
pub fn split_str(s: &str, sep: char) -> (parts: Vec<String>)
    ensures
        views_of(parts@) == split_on(s@, sep),
{
    let n = s.unicode_len();
    let mut parts: Vec<String> = Vec::new();
    proof {
        assert(views_of(parts@) =~= Seq::<Seq<char>>::empty());
        assert(s@.skip(0) =~= s@);
        assert(views_of(parts@) + split_on(s@, sep) =~= split_on(s@, sep));
    }
    let mut start: usize = 0;
    let mut i: usize = 0;
    while i < n
        invariant
            n == s@.len(),
            0 <= start <= i <= n,
            forall|j: int| start <= j < i ==> s@[j] != sep,
            split_on(s@, sep) == views_of(parts@) + split_on(s@.skip(start as int), sep),
        decreases n - i,
    {
        let c = s.get_char(i);
        if c == sep {
            let part = String::from_str(s.substring_char(start, i));
            proof {
                let tail = s@.skip(start as int);
                lemma_split_on_step(tail, sep, i - start);
                assert(tail.take(i - start) =~= s@.subrange(start as int, i as int));
                assert(tail.skip(i - start + 1) =~= s@.skip(i + 1));
                lemma_views_of_push(parts@, part);
                assert(views_of(parts@).push(part@) + split_on(s@.skip(i + 1), sep) =~= views_of(
                    parts@,
                ) + (seq![part@] + split_on(s@.skip(i + 1), sep)));
            }
            parts.push(part);
            start = i + 1;
        }
        i += 1;
    }
    let last = String::from_str(s.substring_char(start, n));
    proof {
        let tail = s@.skip(start as int);
        lemma_split_on_step(tail, sep, n - start);
        assert(tail =~= s@.subrange(start as int, n as int));
        lemma_views_of_push(parts@, last);
        assert(views_of(parts@).push(last@) =~= views_of(parts@) + seq![tail]);
    }
    parts.push(last);
    parts
}

/// Every part of `s`, split on `':'`, is a number that fits in a `u32`.
pub open spec fn all_parts_numeric(s: Seq<char>) -> bool {
    forall|i: int| 0 <= i < split_on(s, ':').len() ==> parses_u32(#[trigger] split_on(s, ':')[i])
}

/// Splits `input` on `':'` and parses every part as a non-negative number:
/// the hours, minutes, and seconds of a time or duration string. `None` as
/// soon as one part does not parse.
pub fn extract(input: &str) -> (r: Option<Vec<u32>>)
    ensures
        match r {
            Some(v) => {
                &&& all_parts_numeric(input@)
                &&& v@.len() == split_on(input@, ':').len()
                &&& forall|i: int|
                    0 <= i < v@.len() ==> v@[i] == dec_val(#[trigger] split_on(input@, ':')[i])
            },
            None => !all_parts_numeric(input@),
        },
{
    let parts = split_str(input, ':');
    let mut values: Vec<u32> = Vec::new();
    let mut i: usize = 0;
    while i < parts.len()
        invariant
            views_of(parts@) == split_on(input@, ':'),
            0 <= i <= parts@.len(),
            values@.len() == i,
            forall|j: int| 0 <= j < i ==> parses_u32(#[trigger] split_on(input@, ':')[j]),
            forall|j: int| 0 <= j < i ==> values@[j] == dec_val(split_on(input@, ':')[j]),
        decreases parts@.len() - i,
    {
        assert(parts@[i as int]@ == split_on(input@, ':')[i as int]);
        match parse_u32(parts[i].as_str()) {
            Some(v) => {
                proof {
                    lemma_dec_val_nonneg(split_on(input@, ':')[i as int]);
                }
                values.push(v);
            },
            None => {
                return None;
            },
        }
        i += 1;
    }
    Some(values)
}

/// Why an input string was rejected.
#[derive(Clone, Copy, Debug, PartialEq, Eq, Structural)]
pub enum InputError {
    /// A part of a time or duration string is not a number that fits in a
    /// `u32` (empty, a non-digit character, or too large).
    BadNumber,
    /// A time or duration string does not have two or three `':'`-separated
    /// parts, or a break interval does not have exactly two `'-'`-separated
    /// sides.
    WrongPartCount,
    /// A time string names an impossible time of day.
    OutOfRange,
    /// Neither a daily nor a weekly work-hour goal was given.
    NoGoal,
}

/// The `':'`-separated parts of a time or duration string.
pub open spec fn time_parts(s: Seq<char>) -> Seq<Seq<char>> {
    split_on(s, ':')
}

/// The string has an hour and a minute part, and optionally a second part.
pub open spec fn part_count_ok(s: Seq<char>) -> bool {
    time_parts(s).len() == 2 || time_parts(s).len() == 3
}

/// The hour a time or duration string names.
pub open spec fn time_hour(s: Seq<char>) -> int
    recommends
        part_count_ok(s),
{
    dec_val(time_parts(s)[0])
}

/// The minute a time or duration string names.
pub open spec fn time_minute(s: Seq<char>) -> int
    recommends
        part_count_ok(s),
{
    dec_val(time_parts(s)[1])
}

/// The second a time or duration string names; a two-part string means zero
/// seconds.
pub open spec fn time_second(s: Seq<char>) -> int
    recommends
        part_count_ok(s),
{
    if time_parts(s).len() == 3 {
        dec_val(time_parts(s)[2])
    } else {
        0
    }
}

/// The named parts name a valid time of day.
pub open spec fn time_in_range(s: Seq<char>) -> bool {
    time_hour(s) < 24 && time_minute(s) < 60 && time_second(s) < 60
}

/// `s` parses as a clock time.
pub open spec fn is_valid_time(s: Seq<char>) -> bool {
    all_parts_numeric(s) && part_count_ok(s) && time_in_range(s)
}

/// The second of the day a valid time string names; for a duration string,
/// the total number of seconds it spans.
pub open spec fn time_sec_of_day(s: Seq<char>) -> int
    recommends
        part_count_ok(s),
{
    time_hour(s) * 3600 + time_minute(s) * 60 + time_second(s)
}

/// A valid time string names a second within the day.
pub proof fn lemma_valid_time_sec_bounds(s: Seq<char>)
    requires
        is_valid_time(s),
    ensures
        0 <= time_sec_of_day(s) <= 86399,
{
    lemma_dec_val_nonneg(time_parts(s)[0]);
    lemma_dec_val_nonneg(time_parts(s)[1]);
    if time_parts(s).len() == 3 {
        lemma_dec_val_nonneg(time_parts(s)[2]);
    }
}

/// The error an invalid time string is rejected with: parts are parsed as
/// numbers first, then counted, then checked against the clock.
pub open spec fn time_error(s: Seq<char>) -> InputError
    recommends
        !is_valid_time(s),
{
    if !all_parts_numeric(s) {
        InputError::BadNumber
    } else if !part_count_ok(s) {
        InputError::WrongPartCount
    } else {
        InputError::OutOfRange
    }
}

/// Parses `"HH:MM"` or `"HH:MM:SS"` as a time of day on the current local
/// calendar day. A two-part string means zero seconds.
pub fn create_time(input: &str) -> (r: Result<Timestamp, InputError>)
    ensures
        match r {
            Ok(t) => {
                &&& is_valid_time(input@)
                &&& t.wf()
                &&& t.hour == time_hour(input@)
                &&& t.minute == time_minute(input@)
                &&& t.second == time_second(input@)
            },
            Err(e) => !is_valid_time(input@) && e == time_error(input@),
        },
{
    let hm = match extract(input) {
        Some(v) => v,
        None => {
            return Err(InputError::BadNumber);
        },
    };
    let (h, m, s): (u32, u32, u32) = if hm.len() == 2 {
        (hm[0], hm[1], 0)
    } else if hm.len() == 3 {
        (hm[0], hm[1], hm[2])
    } else {
        return Err(InputError::WrongPartCount);
    };
    if h >= 24 || m >= 60 || s >= 60 {
        return Err(InputError::OutOfRange);
    }
    Ok(Timestamp::new(h, m, s))
}

/// `s` parses as an elapsed-time span (`"HH:MM"` or `"HH:MM:SS"`). Unlike a
/// time of day, the parts are not held to the clock: `"99:99"` is 99 hours
/// and 99 minutes.
pub open spec fn is_valid_duration(s: Seq<char>) -> bool {
    all_parts_numeric(s) && part_count_ok(s)
}

/// The error an invalid duration string is rejected with.
pub open spec fn duration_error(s: Seq<char>) -> InputError
    recommends
        !is_valid_duration(s),
{
    if !all_parts_numeric(s) {
        InputError::BadNumber
    } else {
        InputError::WrongPartCount
    }
}

/// Parses `"HH:MM"` or `"HH:MM:SS"` as an elapsed-time span: for goals and
/// other lengths of time rather than points on the clock.
pub fn create_duration(input: &str) -> (r: Result<Duration, InputError>)
    ensures
        match r {
            Ok(d) => {
                &&& is_valid_duration(input@)
                &&& d@ == time_sec_of_day(input@)
                &&& 0 <= d@
            },
            Err(e) => !is_valid_duration(input@) && e == duration_error(input@),
        },
{
    let hm = match extract(input) {
        Some(v) => v,
        None => {
            return Err(InputError::BadNumber);
        },
    };
    proof {
        if hm@.len() > 0 {
            lemma_dec_val_nonneg(split_on(input@, ':')[0]);
        }
        if hm@.len() > 1 {
            lemma_dec_val_nonneg(split_on(input@, ':')[1]);
        }
        if hm@.len() > 2 {
            lemma_dec_val_nonneg(split_on(input@, ':')[2]);
        }
    }
    let (h, m, s): (u32, u32, u32) = if hm.len() == 2 {
        (hm[0], hm[1], 0)
    } else if hm.len() == 3 {
        (hm[0], hm[1], hm[2])
    } else {
        return Err(InputError::WrongPartCount);
    };
    Ok(Duration { secs: h as i64 * 3600 + m as i64 * 60 + s as i64 })
}

/// The `'-'`-separated sides of a break interval.
pub open spec fn break_parts(s: Seq<char>) -> Seq<Seq<char>> {
    split_on(s, '-')
}

/// `s` parses as a break interval: two valid times joined by `'-'`.
pub open spec fn is_valid_break(s: Seq<char>) -> bool {
    &&& break_parts(s).len() == 2
    &&& is_valid_time(break_parts(s)[0])
    &&& is_valid_time(break_parts(s)[1])
}

/// The seconds a break interval spans, regardless of the order of its two
/// endpoints.
pub open spec fn break_secs(s: Seq<char>) -> int
    recommends
        is_valid_break(s),
{
    abs_i(time_sec_of_day(break_parts(s)[1]) - time_sec_of_day(break_parts(s)[0]))
}

/// The error an invalid break interval is rejected with: sides are counted
/// first, then each side is parsed as a time, left before right.
pub open spec fn break_error(s: Seq<char>) -> InputError
    recommends
        !is_valid_break(s),
{
    if break_parts(s).len() != 2 {
        InputError::WrongPartCount
    } else if !is_valid_time(break_parts(s)[0]) {
        time_error(break_parts(s)[0])
    } else {
        time_error(break_parts(s)[1])
    }
}

/// Joining two `'-'`-free strings with `'-'` yields exactly those two
/// sides.
proof fn lemma_join_sides(a: Seq<char>, b: Seq<char>)
    requires
        forall|i: int| 0 <= i < a.len() ==> a[i] != '-',
        forall|i: int| 0 <= i < b.len() ==> b[i] != '-',
    ensures
        break_parts(a + seq!['-'] + b) == seq![a, b],
{
    let s = a + seq!['-'] + b;
    lemma_split_on_step(s, '-', a.len() as int);
    assert(s.take(a.len() as int) =~= a);
    assert(s.skip(a.len() as int + 1) =~= b);
    lemma_split_on_step(b, '-', b.len() as int);
    assert(seq![a] + seq![b] =~= seq![a, b]);
}

/// Law: a break interval's span does not depend on the order of its two
/// endpoints. For any two sides free of `'-'` (as every time string is),
/// `"a-b"` and `"b-a"` parse alike, and when they parse they span the same
/// seconds.
pub proof fn lemma_break_span_symmetric(a: Seq<char>, b: Seq<char>)
    requires
        forall|i: int| 0 <= i < a.len() ==> a[i] != '-',
        forall|i: int| 0 <= i < b.len() ==> b[i] != '-',
    ensures
        is_valid_break(a + seq!['-'] + b) <==> is_valid_break(b + seq!['-'] + a),
        is_valid_break(a + seq!['-'] + b) ==> break_secs(a + seq!['-'] + b) == break_secs(
            b + seq!['-'] + a,
        ),
{
    lemma_join_sides(a, b);
    lemma_join_sides(b, a);
}

/// Parses a break interval `"<time>-<time>"` and returns the time between
/// its two endpoints, whichever of them comes first on the clock.
pub fn calculate_duration_from_string_ts(input: &String) -> (r: Result<Duration, InputError>)
    ensures
        match r {
            Ok(d) => is_valid_break(input@) && d@ == break_secs(input@) && 0 <= d@,
            Err(e) => !is_valid_break(input@) && e == break_error(input@),
        },
{
    let sides = split_str(input.as_str(), '-');
    if sides.len() != 2 {
        return Err(InputError::WrongPartCount);
    }
    assert(sides@[0]@ == break_parts(input@)[0]);
    assert(sides@[1]@ == break_parts(input@)[1]);
    let start = match create_time(sides[0].as_str()) {
        Ok(t) => t,
        Err(e) => {
            return Err(e);
        },
    };
    let end = match create_time(sides[1].as_str()) {
        Ok(t) => t,
        Err(e) => {
            return Err(e);
        },
    };
    Ok(duration_between(start, end))
}

} // verus!
