use gravedigger::clock::{
    date_and_minute, days_between, days_since_date_prefix, days_since_on, days_since_unix,
    days_since_unix_at, now, timestamp, Moment, EPOCH_DAY, LAST_SECOND,
};

#[test]
fn a_date_is_counted_from_its_first_ten_bytes() {
    // 1 January 2024 is 19723 days after the epoch
    let today = EPOCH_DAY + 19_723;
    assert_eq!(days_since_on("2024-01-01", today), Some(0));
    assert_eq!(days_since_on("2024-01-01T10:11:12Z", today), Some(0));
    assert_eq!(days_since_on("2023-12-31 anything", today), Some(1));
    assert_eq!(days_since_on("2023-01-01", today), Some(365));
    assert_eq!(days_since_on("2024-01-03", today), Some(-2));
    assert_eq!(days_since_on("1970-01-01", EPOCH_DAY), Some(0));
    assert_eq!(days_since_on("0001-01-01", 1), Some(0));
}

#[test]
fn what_is_no_date_has_no_age() {
    assert_eq!(days_since_on("2024-01-1", 1), None);
    assert_eq!(days_since_on("2024-02-30", 1), None);
    assert_eq!(days_since_on("not a date at all", 1), None);
    assert_eq!(days_since_on("", 1), None);
    // byte 10 lies within a character
    assert_eq!(days_since_on("2024-01-0é", 1), None);
    assert_eq!(days_between(None, 5), None);
    assert_eq!(days_between(Some(3), 5), Some(2));
}

#[test]
fn age_goes_by_the_current_date() {
    let before = now().today();
    let age = days_since_date_prefix("1970-01-01").unwrap();
    let after = now().today();
    assert!((before - EPOCH_DAY) as i64 <= age && age <= (after - EPOCH_DAY) as i64);
    assert!(before > EPOCH_DAY + 19_723);
    assert_eq!(days_since_date_prefix("yesterday"), None);
}

#[test]
fn seconds_are_counted_in_whole_days() {
    let at = Moment { secs: 10 * 86_400 + 5, nanos: 0 };
    assert_eq!(days_since_unix_at(at, 0), 10);
    assert_eq!(days_since_unix_at(at, 5), 10);
    assert_eq!(days_since_unix_at(at, 6), 9);
    assert_eq!(days_since_unix_at(at, 10 * 86_400 + 6), 0);
    assert_eq!(days_since_unix_at(at, 11 * 86_400 + 5), -1);
    // a moment later it is a whole day no more
    let later = Moment { secs: 10 * 86_400 + 5, nanos: 1 };
    assert_eq!(days_since_unix_at(later, 11 * 86_400 + 5), 0);
    let today = (now().secs / 86_400) as i64;
    assert!(days_since_unix(0) >= today);
}

#[test]
fn moments_are_written_in_utc() {
    assert_eq!(date_and_minute(0), "1970-01-01 00:00 UTC");
    assert_eq!(date_and_minute(1_704_067_199), "2023-12-31 23:59 UTC");
    assert_eq!(timestamp(Moment { secs: 0, nanos: 0 }), "1970-01-01T00:00:00+00:00");
    assert_eq!(
        timestamp(Moment { secs: 1_704_067_199, nanos: 500_000_000 }),
        "2023-12-31T23:59:59.500+00:00"
    );
}

#[test]
fn a_moment_knows_its_day() {
    assert_eq!(Moment { secs: 0, nanos: 0 }.today(), EPOCH_DAY);
    assert_eq!(Moment { secs: 86_399, nanos: 0 }.today(), EPOCH_DAY);
    assert_eq!(Moment { secs: 86_400, nanos: 0 }.today(), EPOCH_DAY + 1);
}

#[test]
fn the_last_second_has_a_date() {
    assert_eq!(date_and_minute(LAST_SECOND), "+262142-12-31 23:59 UTC");
    assert!(chrono::DateTime::from_timestamp(LAST_SECOND as i64 + 1, 0).is_none());
}
