use container_logs::time::{decimal, format_datetime, relative_label, Instant};

fn now() -> Instant {
    let at = chrono::Utc::now();
    Instant { seconds: at.timestamp(), nanos: at.timestamp_subsec_nanos() }
}

#[test]
fn decimal_writes_digits() {
    assert_eq!(decimal(0), "0");
    assert_eq!(decimal(7), "7");
    assert_eq!(decimal(10), "10");
    assert_eq!(decimal(12345), "12345");
    assert_eq!(decimal(9_007_199_254_740_993), "9007199254740993");
    assert_eq!(decimal(u64::MAX), "18446744073709551615");
}

#[test]
fn short_times_are_a_few_moments() {
    assert_eq!(relative_label(0).unwrap(), "a few moments ago");
    assert_eq!(relative_label(9).unwrap(), "a few moments ago");
}

#[test]
fn times_to_come_are_a_few_moments() {
    assert_eq!(relative_label(-1).unwrap(), "a few moments ago");
    assert_eq!(relative_label(-86_400).unwrap(), "a few moments ago");
    assert_eq!(relative_label(i64::MIN).unwrap(), "a few moments ago");
}

#[test]
fn seconds_from_ten_on() {
    assert_eq!(relative_label(10).unwrap(), "10 seconds ago");
    assert_eq!(relative_label(59).unwrap(), "59 seconds ago");
}

#[test]
fn one_minute_is_singular() {
    assert_eq!(relative_label(60).unwrap(), "1 minute ago");
    assert_eq!(relative_label(119).unwrap(), "1 minute ago");
}

#[test]
fn minutes_from_two_on() {
    assert_eq!(relative_label(120).unwrap(), "2 minutes ago");
    assert_eq!(relative_label(3599).unwrap(), "59 minutes ago");
}

#[test]
fn one_hour_is_singular() {
    assert_eq!(relative_label(3600).unwrap(), "1 hour ago");
    assert_eq!(relative_label(7199).unwrap(), "1 hour ago");
}

#[test]
fn hours_up_to_eleven() {
    assert_eq!(relative_label(7200).unwrap(), "2 hours ago");
    assert_eq!(relative_label(43_199).unwrap(), "11 hours ago");
}

#[test]
fn twelve_hours_have_no_relative_wording() {
    assert!(relative_label(43_200).is_none());
    assert!(relative_label(1_000_000).is_none());
    assert!(relative_label(i64::MAX).is_none());
}

#[test]
fn an_instant_just_now_reads_as_a_few_moments() {
    assert_eq!(format_datetime(&now()).unwrap(), "a few moments ago");
}

#[test]
fn an_instant_three_hours_back_reads_in_hours() {
    let mut at = now();
    at.seconds -= 3 * 3600 + 5;
    assert_eq!(format_datetime(&at).unwrap(), "3 hours ago");
}

#[test]
fn an_instant_days_back_reads_as_a_date() {
    let mut at = now();
    at.seconds -= 3 * 86_400;
    let label = format_datetime(&at).unwrap();
    assert!(!label.ends_with("ago"));
    // weekday, day, month and time of day: "Mon, 01 Jan 10:00"
    assert_eq!(label.len(), 17);
    assert_eq!(&label[3..5], ", ");
    assert_eq!(&label[14..15], ":");
}

#[test]
fn an_instant_beyond_the_calendar_has_no_label() {
    assert!(format_datetime(&Instant { seconds: i64::MAX, nanos: 0 }).is_none());
    assert!(format_datetime(&Instant { seconds: 0, nanos: 2_000_000_000 }).is_none());
}
