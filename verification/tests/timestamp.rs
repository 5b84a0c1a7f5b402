use std::cmp::Ordering;

use blindkopie::timestamp::{Error, Timestamp, FIRST_SECOND, LAST_SECOND};

#[test]
fn default_timestamp_is_noon_of_new_year() {
    let timestamp = Timestamp::default();
    assert_eq!(timestamp.unix_ts, 1577880000);
    assert_eq!(timestamp.nanos, 0);
}

#[test]
fn seconds_within_the_calendar_are_timestamps() {
    for second in [0, -1, 1577880000, FIRST_SECOND, LAST_SECOND] {
        let timestamp = Timestamp::try_from(second).unwrap();
        assert_eq!(timestamp.unix_ts, second);
        assert_eq!(timestamp.nanos, 0);
        assert!(chrono::DateTime::from_timestamp(second, 0).is_some());
    }
}

#[test]
fn seconds_outside_of_the_calendar_are_refused() {
    for second in [FIRST_SECOND - 1, LAST_SECOND + 1, i64::MIN, i64::MAX] {
        assert_eq!(
            Timestamp::try_from(second).unwrap_err(),
            Error::CannotConvertToTimestamp(second)
        );
        assert!(chrono::DateTime::from_timestamp(second, 0).is_none());
    }
}

#[test]
fn refusal_names_the_second() {
    assert_eq!(
        Error::CannotConvertToTimestamp(-9223372036854775808).message(),
        "Illegal UNIX timestamp: -9223372036854775808"
    );
}

#[test]
fn timestamps_compare_by_the_second() {
    let early = Timestamp::from_utc(10, 5);
    let late = Timestamp::from_utc(10, 6);
    let later = Timestamp::from_utc(11, 0);
    assert!(early == late);
    assert_eq!(early.cmp(&late), Ordering::Equal);
    assert_eq!(early.cmp(&later), Ordering::Less);
    assert_eq!(later.cmp(&early), Ordering::Greater);
    assert_eq!(later.partial_cmp(&early), Some(Ordering::Greater));
    assert!(late.is_after(&early));
    assert!(!early.is_after(&late));
    assert!(!early.is_after(&early));
    assert!(later.is_after(&late));
}

#[test]
fn timestamps_are_moved_by_seconds() {
    let now = Timestamp::from_utc(1577880000, 17);
    let later = now.plus_seconds(3600).unwrap();
    assert_eq!((later.unix_ts, later.nanos), (1577883600, 17));
    let earlier = now.plus_seconds(-60).unwrap();
    assert_eq!((earlier.unix_ts, earlier.nanos), (1577879940, 17));
    assert!(now.plus_seconds(i64::MAX).is_none());
    assert!(now.plus_seconds(i64::MIN).is_none());
    let last = Timestamp::from_utc(LAST_SECOND, 999_999_999);
    assert!(last.plus_seconds(0).is_some());
    assert!(last.plus_seconds(1).is_none());
    let first = Timestamp::from_utc(FIRST_SECOND, 0);
    assert!(first.plus_seconds(-1).is_none());
}

#[test]
fn timestamps_leave_a_leap_second_when_they_are_moved() {
    let leap = Timestamp::from_utc(1483228799, 1_500_000_000);
    let same = leap.plus_seconds(0).unwrap();
    assert_eq!((same.unix_ts, same.nanos), (1483228799, 1_500_000_000));
    let later = leap.plus_seconds(1).unwrap();
    assert_eq!((later.unix_ts, later.nanos), (1483228800, 500_000_000));
    let earlier = leap.plus_seconds(-1).unwrap();
    assert_eq!((earlier.unix_ts, earlier.nanos), (1483228799, 500_000_000));
}
