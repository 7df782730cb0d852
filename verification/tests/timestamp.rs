use chrono::{DateTime, Utc};
use greptimedb_wide_metrics::timestamp::{Timestamp, MAX_SECONDS, MIN_SECONDS};

#[test]
fn range_is_that_of_utc_times() {
    assert_eq!(MIN_SECONDS, DateTime::<Utc>::MIN_UTC.timestamp());
    assert_eq!(MAX_SECONDS, DateTime::<Utc>::MAX_UTC.timestamp());
    assert!(Timestamp::new(MIN_SECONDS, 0).is_some());
    assert!(Timestamp::new(MAX_SECONDS, 999_999_999).is_some());
    assert!(Timestamp::new(MIN_SECONDS - 1, 0).is_none());
    assert!(Timestamp::new(MAX_SECONDS + 1, 0).is_none());
    assert!(Timestamp::new(0, 2_000_000_000).is_none());
    assert!(Timestamp::new(0, 1_999_999_999).is_some());
}

#[test]
fn milliseconds_are_those_of_utc_times() {
    for (seconds, nanos) in [
        (0, 0),
        (1, 444_000_000),
        (1_000_000_000, 555_999_999),
        (-1, 1),
        (-1, 999_999_999),
        (1_483_228_799, 1_500_000_000),
        (MIN_SECONDS, 0),
        (MAX_SECONDS, 999_999_999),
    ] {
        let time = DateTime::<Utc>::from_timestamp(seconds, nanos).unwrap();
        let timestamp = Timestamp::new(time.timestamp(), time.timestamp_subsec_nanos()).unwrap();
        assert_eq!(timestamp.timestamp_millis(), time.timestamp_millis());
    }
    assert_eq!(Timestamp::new(1, 444_000_000).unwrap().timestamp_millis(), 1_444);
    assert_eq!(Timestamp::new(-1, 1).unwrap().timestamp_millis(), -1_000);
}
