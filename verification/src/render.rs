//! Renders spans and times of day as text: zero-padded `HH:MM:SS`, and
//! decimal hours or percentages rounded to two decimal places.

use vstd::prelude::*;
use vstd::string::StringExecFns;
use crate::duration::{abs_i, Duration};
use crate::timestamp::Timestamp;

verus! {

/// The character for one decimal digit.
pub open spec fn digit_char(d: int) -> char
    recommends
        0 <= d < 10,
{
    if d == 0 {
        '0'
    } else if d == 1 {
        '1'
    } else if d == 2 {
        '2'
    } else if d == 3 {
        '3'
    } else if d == 4 {
        '4'
    } else if d == 5 {
        '5'
    } else if d == 6 {
        '6'
    } else if d == 7 {
        '7'
    } else if d == 8 {
        '8'
    } else {
        '9'
    }
}

/// The decimal digits of a non-negative number, most significant first,
/// without leading zeros (except for the number zero itself).
pub open spec fn dec_str(n: int) -> Seq<char>
    recommends
        n >= 0,
    decreases n,
{
    if n < 10 {
        seq![digit_char(n)]
    } else {
        dec_str(n / 10).push(digit_char(n % 10))
    }
}

/// The decimal digits of a non-negative number, zero-padded to at least two
/// places.
pub open spec fn pad2(n: int) -> Seq<char>
    recommends
        n >= 0,
{
    if n < 10 {
        seq!['0'] + dec_str(n)
    } else {
        dec_str(n)
    }
}

/// A span rendered as zero-padded `HH:MM:SS` of its absolute value; the
/// sign is discarded, direction is for the surrounding text to convey.
pub open spec fn spec_format_duration(secs: int) -> Seq<char> {
    pad2(abs_i(secs) / 3600) + seq![':'] + pad2((abs_i(secs) % 3600) / 60) + seq![':'] + pad2(
        abs_i(secs) % 60,
    )
}

/// A count of hundredths rendered as a decimal number, with trailing zeros
/// of the fractional part (and a bare decimal point) dropped.
pub open spec fn spec_format_decimal(hundredths: int) -> Seq<char>
    recommends
        hundredths >= 0,
{
    let whole = hundredths / 100;
    let frac = hundredths % 100;
    if frac == 0 {
        dec_str(whole)
    } else if frac % 10 == 0 {
        dec_str(whole) + seq!['.'] + dec_str(frac / 10)
    } else {
        dec_str(whole) + seq!['.'] + pad2(frac)
    }
}

/// A signed count of hundredths rendered as a decimal number.
pub open spec fn spec_format_decimal_signed(hundredths: int) -> Seq<char> {
    if hundredths < 0 {
        seq!['-'] + spec_format_decimal(-hundredths)
    } else {
        spec_format_decimal(hundredths)
    }
}

/// A span's length in hundredths of an hour: whole hours and minutes of the
/// absolute value, the minutes rounded to the nearest hundredth. Seconds
/// beyond the last whole minute are not counted.
pub open spec fn spec_hundredths_of_hours(secs: int) -> int {
    let a = abs_i(secs);
    (a / 3600) * 100 + (10 * ((a % 3600) / 60) + 3) / 6
}

/// A span rendered as decimal hours, rounded to two decimal places.
pub open spec fn spec_format_duration_hours(secs: int) -> Seq<char> {
    spec_format_decimal(spec_hundredths_of_hours(secs))
}

/// A time of day rendered as zero-padded `HH:MM:SS`.
pub open spec fn spec_format_timestamp(t: Timestamp) -> Seq<char> {
    pad2(t.hour as int) + seq![':'] + pad2(t.minute as int) + seq![':'] + pad2(t.second as int)
}

/// Law: a span and its reverse render the same; `HH:MM:SS` text shows the
/// absolute value, in full hours and in decimal hours alike.
pub proof fn lemma_format_ignores_direction(secs: int)
    ensures
        spec_format_duration(-secs) == spec_format_duration(secs),
        spec_format_duration_hours(-secs) == spec_format_duration_hours(secs),
{
}

fn digit_str(d: u32) -> (r: &'static str)
    requires
        d < 10,
    ensures
        r@ == seq![digit_char(d as int)],
{
    proof {
        reveal_strlit("0");
        reveal_strlit("1");
        reveal_strlit("2");
        reveal_strlit("3");
        reveal_strlit("4");
        reveal_strlit("5");
        reveal_strlit("6");
        reveal_strlit("7");
        reveal_strlit("8");
        reveal_strlit("9");
    }
    let r = if d == 0 {
        "0"
    } else if d == 1 {
        "1"
    } else if d == 2 {
        "2"
    } else if d == 3 {
        "3"
    } else if d == 4 {
        "4"
    } else if d == 5 {
        "5"
    } else if d == 6 {
        "6"
    } else if d == 7 {
        "7"
    } else if d == 8 {
        "8"
    } else {
        "9"
    };
    proof {
        assert(r@ =~= seq![digit_char(d as int)]);
    }
    r
}

/// Renders a number in decimal.
pub fn format_u128(n: u128) -> (r: String)
    ensures
        r@ == dec_str(n as int),
    decreases n,
{
    if n < 10 {
        String::from_str(digit_str(n as u32))
    } else {
        let mut s = format_u128(n / 10);
        s.append(digit_str((n % 10) as u32));
        proof {
            assert(dec_str((n / 10) as int).push(digit_char((n % 10) as int)) =~= dec_str(
                (n / 10) as int,
            ) + seq![digit_char((n % 10) as int)]);
        }
        s
    }
}

/// Renders a number in decimal, zero-padded to at least two places.
pub fn format_2d(n: u64) -> (r: String)
    ensures
        r@ == pad2(n as int),
{
    if n < 10 {
        let mut s = String::from_str("0");
        s.append(digit_str(n as u32));
        proof {
            reveal_strlit("0");
            assert("0"@ =~= seq!['0']);
        }
        s
    } else {
        format_u128(n as u128)
    }
}

/// Renders a span as zero-padded `HH:MM:SS` of its absolute value. The sign
/// is discarded: the report labels direction with its surrounding text.
pub fn format_duration(input: &Duration) -> (r: String)
    requires
        input@ > i64::MIN,
    ensures
        r@ == spec_format_duration(input@),
{
    let a: u64 = if input.secs < 0 {
        (-input.secs) as u64
    } else {
        input.secs as u64
    };
    let mut out = format_2d(a / 3600);
    out.append(":");
    let mid = format_2d((a % 3600) / 60);
    out.append(mid.as_str());
    out.append(":");
    let last = format_2d(a % 60);
    out.append(last.as_str());
    proof {
        reveal_strlit(":");
        assert(":"@ =~= seq![':']);
    }
    out
}

/// Renders a count of hundredths as a decimal number, dropping trailing
/// fractional zeros.
pub fn format_decimal(hundredths: u128) -> (r: String)
    ensures
        r@ == spec_format_decimal(hundredths as int),
{
    let whole = hundredths / 100;
    let frac = (hundredths % 100) as u64;
    if frac == 0 {
        format_u128(whole)
    } else {
        let mut out = format_u128(whole);
        out.append(".");
        proof {
            reveal_strlit(".");
            assert("."@ =~= seq!['.']);
        }
        if frac % 10 == 0 {
            let tenths = format_u128((frac / 10) as u128);
            out.append(tenths.as_str());
        } else {
            let cents = format_2d(frac);
            out.append(cents.as_str());
        }
        out
    }
}

/// Renders a signed count of hundredths as a decimal number.
pub fn format_decimal_signed(hundredths: i128) -> (r: String)
    requires
        hundredths > i128::MIN,
    ensures
        r@ == spec_format_decimal_signed(hundredths as int),
{
    if hundredths < 0 {
        let mut out = String::from_str("-");
        let mag = format_decimal((-hundredths) as u128);
        out.append(mag.as_str());
        proof {
            reveal_strlit("-");
            assert("-"@ =~= seq!['-']);
        }
        out
    } else {
        format_decimal(hundredths as u128)
    }
}

/// Renders a span as decimal hours, rounded to two decimal places, of its
/// absolute value.
pub fn format_duration_hours(input: &Duration) -> (r: String)
    requires
        input@ > i64::MIN,
    ensures
        r@ == spec_format_duration_hours(input@),
{
    let a: u64 = if input.secs < 0 {
        (-input.secs) as u64
    } else {
        input.secs as u64
    };
    let h = a / 3600;
    let m = (a % 3600) / 60;
    let hundredths: u128 = (h as u128) * 100 + ((10 * m + 3) / 6) as u128;
    format_decimal(hundredths)
}

/// Renders a time of day as zero-padded `HH:MM:SS`.
pub fn format_timestamp(t: &Timestamp) -> (r: String)
    requires
        t.wf(),
    ensures
        r@ == spec_format_timestamp(*t),
{
    let mut out = format_2d(t.hour as u64);
    out.append(":");
    let mid = format_2d(t.minute as u64);
    out.append(mid.as_str());
    out.append(":");
    let last = format_2d(t.second as u64);
    out.append(last.as_str());
    proof {
        reveal_strlit(":");
        assert(":"@ =~= seq![':']);
    }
    out
}

} // verus!
