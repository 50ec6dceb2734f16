use worktime::duration::Duration;
use worktime::parse::{
    calculate_duration_from_string_ts, create_duration, create_time, extract, parse_u32,
    InputError,
};
use worktime::timestamp::Timestamp;

#[test]
fn time_two_parts_means_zero_seconds() {
    assert_eq!(
        create_time("8:30"),
        Ok(Timestamp { hour: 8, minute: 30, second: 0 })
    );
}

#[test]
fn time_three_parts() {
    assert_eq!(
        create_time("8:30:15"),
        Ok(Timestamp { hour: 8, minute: 30, second: 15 })
    );
}

#[test]
fn time_four_parts_is_rejected() {
    assert_eq!(create_time("8:30:15:00"), Err(InputError::WrongPartCount));
}

#[test]
fn time_one_part_is_rejected() {
    assert_eq!(create_time("830"), Err(InputError::WrongPartCount));
}

#[test]
fn time_with_non_digit_is_rejected() {
    assert_eq!(create_time("8:3a"), Err(InputError::BadNumber));
    assert_eq!(create_time(""), Err(InputError::BadNumber));
    assert_eq!(create_time("8:"), Err(InputError::BadNumber));
    assert_eq!(create_time("-8:30"), Err(InputError::BadNumber));
}

#[test]
fn time_out_of_range_is_rejected() {
    assert_eq!(create_time("24:00"), Err(InputError::OutOfRange));
    assert_eq!(create_time("8:60"), Err(InputError::OutOfRange));
    assert_eq!(create_time("8:30:60"), Err(InputError::OutOfRange));
    assert_eq!(create_time("23:59:59"), Ok(Timestamp { hour: 23, minute: 59, second: 59 }));
}

#[test]
fn parse_u32_bounds() {
    assert_eq!(parse_u32("0"), Some(0));
    assert_eq!(parse_u32("008"), Some(8));
    assert_eq!(parse_u32("4294967295"), Some(u32::MAX));
    assert_eq!(parse_u32("4294967296"), None);
    assert_eq!(parse_u32("99999999999"), None);
    assert_eq!(parse_u32(""), None);
    assert_eq!(parse_u32("1 2"), None);
}

#[test]
fn extract_splits_on_colons() {
    assert_eq!(extract("8:30:15"), Some(vec![8, 30, 15]));
    assert_eq!(extract("08:05"), Some(vec![8, 5]));
    assert_eq!(extract("7"), Some(vec![7]));
    assert_eq!(extract("8::30"), None);
    assert_eq!(extract("8:30:"), None);
}

#[test]
fn duration_parses_unclamped_parts() {
    assert_eq!(create_duration("39:00"), Ok(Duration { secs: 140400 }));
    assert_eq!(create_duration("0:90"), Ok(Duration { secs: 5400 }));
    assert_eq!(create_duration("1:2:3"), Ok(Duration { secs: 3723 }));
    assert_eq!(create_duration("99:99"), Ok(Duration { secs: 362340 }));
}

#[test]
fn duration_rejects_bad_input() {
    assert_eq!(create_duration("39"), Err(InputError::WrongPartCount));
    assert_eq!(create_duration("1:2:3:4"), Err(InputError::WrongPartCount));
    assert_eq!(create_duration("x:00"), Err(InputError::BadNumber));
}

#[test]
fn break_interval_is_order_independent() {
    let forward = calculate_duration_from_string_ts(&"9:00-9:30".to_string());
    let backward = calculate_duration_from_string_ts(&"9:30-9:00".to_string());
    assert_eq!(forward, Ok(Duration { secs: 1800 }));
    assert_eq!(backward, Ok(Duration { secs: 1800 }));
}

#[test]
fn break_interval_with_seconds() {
    assert_eq!(
        calculate_duration_from_string_ts(&"12:00:30-12:10:00".to_string()),
        Ok(Duration { secs: 570 })
    );
}

#[test]
fn break_interval_rejects_bad_input() {
    assert_eq!(
        calculate_duration_from_string_ts(&"9:00".to_string()),
        Err(InputError::WrongPartCount)
    );
    assert_eq!(
        calculate_duration_from_string_ts(&"9:00-9:30-10:00".to_string()),
        Err(InputError::WrongPartCount)
    );
    assert_eq!(
        calculate_duration_from_string_ts(&"9:00-x".to_string()),
        Err(InputError::BadNumber)
    );
    assert_eq!(
        calculate_duration_from_string_ts(&"25:00-9:30".to_string()),
        Err(InputError::OutOfRange)
    );
}
