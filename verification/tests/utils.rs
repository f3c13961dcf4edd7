use mfaws::profile::DateTime;
use mfaws::utils::{
    confirm_prompt, format_duration, get_input, get_remaining_time, means_yes, remaining_at,
};
use std::time::{Duration, SystemTime, UNIX_EPOCH};

fn date_time(time: SystemTime) -> DateTime {
    let since_epoch = time.duration_since(UNIX_EPOCH).unwrap();
    DateTime::from_secs_and_nanos(since_epoch.as_secs() as i64, since_epoch.subsec_nanos())
}

#[test]
fn test_format_duration_1() {
    let dur = Duration::from_secs(3600);
    assert_eq!(format_duration(dur.as_secs()), "1h".to_string());
}

#[test]
fn test_format_duration_2() {
    let dur = Duration::from_secs(3599);
    assert_eq!(format_duration(dur.as_secs()), "59m 59s".to_string());
}

#[test]
fn test_format_duration_3() {
    let dur = Duration::from_secs(59);
    assert_eq!(format_duration(dur.as_secs()), "59s".to_string());
}

#[test]
fn test_format_duration_4() {
    let dur = Duration::from_secs(0);
    assert_eq!(format_duration(dur.as_secs()), "".to_string());
}

#[test]
fn test_format_remaining() {
    let past_time = SystemTime::now() - Duration::from_secs(1);
    assert!(get_remaining_time(date_time(past_time)).is_none());
}

#[test]
fn format_duration_leaves_out_zero_components() {
    assert_eq!(format_duration(1), "1s");
    assert_eq!(format_duration(60), "1m");
    assert_eq!(format_duration(61), "1m 1s");
    assert_eq!(format_duration(3601), "1h 1s");
    assert_eq!(format_duration(3660), "1h 1m");
    assert_eq!(format_duration(3661), "1h 1m 1s");
    assert_eq!(format_duration(43_200), "12h");
    assert_eq!(format_duration(86_399), "23h 59m 59s");
}

#[test]
fn format_duration_counts_hours_beyond_a_day() {
    assert_eq!(format_duration(360_000), "100h");
    assert_eq!(format_duration(u64::MAX), "5124095576030431h 15s");
}

#[test]
fn remaining_at_rounds_down_to_the_second() {
    let now = DateTime::from_secs_and_nanos(100, 900_000_000);
    assert_eq!(remaining_at(DateTime::from_secs(102), now), Some("1s".to_owned()));
    assert_eq!(remaining_at(DateTime::from_secs(101), now), Some(String::new()));
    assert_eq!(remaining_at(DateTime::from_secs_and_nanos(100, 900_000_000), now), Some(String::new()));
    assert_eq!(remaining_at(DateTime::from_secs_and_nanos(100, 899_999_999), now), None);
}

#[test]
fn remaining_at_spans_the_whole_range_of_instants() {
    let first = DateTime::from_secs(i64::MIN);
    let last = DateTime::from_secs_and_nanos(i64::MAX, 999_999_999);
    assert_eq!(remaining_at(last, first), Some("5124095576030431h 15s".to_owned()));
    assert_eq!(remaining_at(first, last), None);
    assert_eq!(
        remaining_at(DateTime::from_secs(-1), DateTime::from_secs_and_nanos(-2, 500_000_000)),
        Some(String::new())
    );
}

#[test]
fn get_remaining_time_of_a_future_instant() {
    let future_time = SystemTime::now() + Duration::from_secs(7_200);
    let left = get_remaining_time(date_time(future_time)).unwrap();
    assert!(left == "2h" || left.starts_with("1h 59m"));
}

#[test]
fn confirm_prompt_takes_y_and_yes() {
    assert!(confirm_prompt("y\n"));
    assert!(confirm_prompt("yes\n"));
    assert!(confirm_prompt("  YES \r\n"));
    assert!(confirm_prompt("Y"));
    assert!(confirm_prompt("yEs"));
    assert!(!confirm_prompt("\n"));
    assert!(!confirm_prompt("n\n"));
    assert!(!confirm_prompt("no\n"));
    assert!(!confirm_prompt("yess\n"));
    assert!(!confirm_prompt("y es\n"));
    assert!(!confirm_prompt(""));
}

#[test]
fn means_yes_takes_the_word_as_it_is() {
    assert!(means_yes(&"y".to_owned()));
    assert!(means_yes(&"yes".to_owned()));
    assert!(!means_yes(&"Y".to_owned()));
    assert!(!means_yes(&" yes".to_owned()));
    assert!(!means_yes(&"".to_owned()));
}

#[test]
fn get_input_drops_the_white_space_around_a_line() {
    assert_eq!(get_input("123456\n"), "123456");
    assert_eq!(get_input("  123 456\t\r\n"), "123 456");
    assert_eq!(get_input("\n"), "");
}
