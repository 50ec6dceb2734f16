use worktime::duration::Duration;
use worktime::render::{
    format_decimal, format_decimal_signed, format_duration, format_duration_hours,
    format_timestamp,
};
use worktime::timestamp::Timestamp;

#[test]
fn duration_renders_zero_padded() {
    assert_eq!(format_duration(&Duration { secs: 3600 + 30 * 60 + 5 }), "01:30:05");
    assert_eq!(format_duration(&Duration { secs: 0 }), "00:00:00");
    assert_eq!(format_duration(&Duration { secs: 59 }), "00:00:59");
}

#[test]
fn negative_duration_renders_its_absolute_value() {
    assert_eq!(format_duration(&Duration { secs: -(3600 + 30 * 60 + 5) }), "01:30:05");
    assert_eq!(format_duration(&Duration { secs: -1080 }), "00:18:00");
}

#[test]
fn duration_beyond_a_day_keeps_full_hours() {
    assert_eq!(format_duration(&Duration { secs: 100 * 3600 + 60 + 1 }), "100:01:01");
}

#[test]
fn decimal_hours_drop_trailing_zeros() {
    assert_eq!(format_duration_hours(&Duration { secs: 7 * 3600 + 48 * 60 }), "7.8");
    assert_eq!(format_duration_hours(&Duration { secs: 8 * 3600 }), "8");
    assert_eq!(format_duration_hours(&Duration { secs: 8 * 3600 + 15 * 60 }), "8.25");
    assert_eq!(format_duration_hours(&Duration { secs: -(7 * 3600 + 30 * 60) }), "7.5");
}

#[test]
fn decimal_hours_round_minutes_to_hundredths() {
    // 7 minutes are 0.11666... hours
    assert_eq!(format_duration_hours(&Duration { secs: 7 * 60 }), "0.12");
    // 59 minutes are 0.98333... hours
    assert_eq!(format_duration_hours(&Duration { secs: 59 * 60 }), "0.98");
    // seconds beyond the last whole minute are not counted
    assert_eq!(format_duration_hours(&Duration { secs: 59 }), "0");
}

#[test]
fn decimal_rendering() {
    assert_eq!(format_decimal(9615), "96.15");
    assert_eq!(format_decimal(10000), "100");
    assert_eq!(format_decimal(105), "1.05");
    assert_eq!(format_decimal(150), "1.5");
    assert_eq!(format_decimal_signed(-9615), "-96.15");
    assert_eq!(format_decimal_signed(0), "0");
}

#[test]
fn timestamp_renders_zero_padded() {
    assert_eq!(format_timestamp(&Timestamp { hour: 6, minute: 0, second: 0 }), "06:00:00");
    assert_eq!(format_timestamp(&Timestamp { hour: 23, minute: 59, second: 9 }), "23:59:09");
}
