use worktime::duration::Duration;
use worktime::parse::InputError;
use worktime::report::{accumulate_breaks, resolve_goal, resolve_start_time};
use worktime::timestamp::Timestamp;

#[test]
fn default_break_is_short_below_threshold() {
    let total = Duration { secs: 9 * 3600 + 30 * 60 - 1 };
    let r = accumulate_breaks(total, &Vec::new()).unwrap();
    assert_eq!(r, (Duration::from_hms(0, 30, 0), Duration::zero()));
}

#[test]
fn default_break_is_large_at_threshold() {
    let total = Duration { secs: 9 * 3600 + 30 * 60 };
    let r = accumulate_breaks(total, &Vec::new()).unwrap();
    assert_eq!(r, (Duration::from_hms(0, 45, 0), Duration::zero()));
}

#[test]
fn explicit_breaks_are_summed_and_longest_tracked() {
    let breaks = vec!["9:00-9:15".to_string(), "12:00-12:40".to_string()];
    let r = accumulate_breaks(Duration { secs: 0 }, &breaks).unwrap();
    assert_eq!(r.0, Duration { secs: 55 * 60 });
    assert_eq!(r.1, Duration { secs: 40 * 60 });
}

#[test]
fn first_invalid_break_reports_its_error() {
    let breaks = vec!["9:00-9:15".to_string(), "nonsense".to_string()];
    assert_eq!(
        accumulate_breaks(Duration { secs: 0 }, &breaks),
        Err(InputError::WrongPartCount)
    );
    let breaks = vec!["9:00-9:1x".to_string(), "nonsense".to_string()];
    assert_eq!(
        accumulate_breaks(Duration { secs: 0 }, &breaks),
        Err(InputError::BadNumber)
    );
}

#[test]
fn weekly_goal_is_split_over_five_days() {
    let g = resolve_goal(None, Some("39:00")).unwrap();
    assert_eq!(g, Duration::from_hms(7, 48, 0));
}

#[test]
fn daily_goal_wins_over_weekly() {
    let g = resolve_goal(Some("8:00"), Some("39:00")).unwrap();
    assert_eq!(g, Duration { secs: 28800 });
}

#[test]
fn missing_goal_is_an_error() {
    assert_eq!(resolve_goal(None, None), Err(InputError::NoGoal));
    assert_eq!(
        resolve_goal(Some("8x:00"), Some("39:00")),
        Err(InputError::BadNumber)
    );
    assert_eq!(resolve_goal(None, Some("39")), Err(InputError::WrongPartCount));
}

#[test]
fn early_start_is_clamped_to_six() {
    let (start, clamped) = resolve_start_time(Timestamp { hour: 5, minute: 0, second: 0 });
    assert_eq!(start, Timestamp { hour: 6, minute: 0, second: 0 });
    assert!(clamped);
}

#[test]
fn just_before_six_is_clamped() {
    let (start, clamped) = resolve_start_time(Timestamp { hour: 5, minute: 59, second: 59 });
    assert_eq!(start, Timestamp { hour: 6, minute: 0, second: 0 });
    assert!(clamped);
}

#[test]
fn six_or_later_is_kept() {
    let given = Timestamp { hour: 6, minute: 0, second: 0 };
    assert_eq!(resolve_start_time(given), (given, false));
    let later = Timestamp { hour: 8, minute: 15, second: 0 };
    assert_eq!(resolve_start_time(later), (later, false));
}
