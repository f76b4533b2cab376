use better_im::time::{apple_time_to_utc, parse_iso_millis, utc_to_apple_nanos, UtcTime, CHRONO_MAX_SECS, CHRONO_MIN_SECS};
use better_im::index_model::IndexedMessage;
use chrono::{TimeZone, Utc};

fn utc(y: i32, mo: u32, d: u32, h: u32, mi: u32, s: u32) -> UtcTime {
    let dt = Utc.with_ymd_and_hms(y, mo, d, h, mi, s).unwrap();
    UtcTime::from_timestamp(dt.timestamp(), 0).unwrap()
}

#[test]
fn apple_epoch_nanoseconds_round_trips_to_known_utc() {
    let raw = 674_524_800_000_000_000;
    let expected = utc(2022, 5, 18, 0, 0, 0);
    assert_eq!(apple_time_to_utc(raw), Some(expected));
    assert_eq!(utc_to_apple_nanos(expected), raw);
}

#[test]
fn apple_epoch_preserves_subsecond_nanos() {
    let raw = 674_524_800_500_000_000;
    let dt = apple_time_to_utc(raw).unwrap();
    assert_eq!(dt.subsec_nanos(), 500_000_000);
}

#[test]
fn apple_epoch_legacy_seconds_path() {
    let secs = 674_524_800;
    let expected = utc(2022, 5, 18, 0, 0, 0);
    assert_eq!(apple_time_to_utc(secs), Some(expected));
}

#[test]
fn apple_epoch_zero_is_none() {
    assert_eq!(apple_time_to_utc(0), None);
}

#[test]
fn negative_fractional_apple_nanos_are_rejected() {
    // A negative nanosecond value that is not a whole second wraps to an
    // invalid nanosecond count.
    assert_eq!(apple_time_to_utc(-1_000_000_000_500), None);
    // A whole second before the threshold is fine.
    let t = apple_time_to_utc(-2_000_000_000_000).unwrap();
    assert_eq!(t.timestamp(), 978_307_200 - 2_000);
    assert_eq!(t.subsec_nanos(), 0);
}

#[test]
fn rfc3339_rendering_matches_chrono() {
    let t = utc(2022, 5, 18, 0, 0, 0);
    assert_eq!(t.to_rfc3339(), "2022-05-18T00:00:00+00:00");
    let half = apple_time_to_utc(674_524_800_500_000_000).unwrap();
    assert_eq!(half.to_rfc3339(), "2022-05-18T00:00:00.500+00:00");
}

#[test]
fn millis_round_trip() {
    assert_eq!(IndexedMessage::datetime_from_millis(0), None);
    let t = IndexedMessage::datetime_from_millis(1_652_832_000_123).unwrap();
    assert_eq!(t.timestamp(), 1_652_832_000);
    assert_eq!(t.subsec_nanos(), 123_000_000);
    assert_eq!(t.timestamp_millis(), 1_652_832_000_123);
    let before_epoch = IndexedMessage::datetime_from_millis(-1).unwrap();
    assert_eq!(before_epoch.timestamp(), -1);
    assert_eq!(before_epoch.subsec_nanos(), 999_000_000);
}

#[test]
fn out_of_range_instants_are_refused() {
    assert!(UtcTime::from_timestamp(i64::MAX, 0).is_none());
    assert!(UtcTime::from_timestamp(0, 2_000_000_000).is_none());
    assert!(UtcTime::from_timestamp(0, 999_999_999).is_some());
}

#[test]
fn iso_cursors_parse_to_utc() {
    let t = better_im::time::parse_iso("2023-06-15T12:30:00.5+02:00").unwrap();
    assert_eq!(t.timestamp(), 1_686_825_000);
    assert_eq!(t.subsec_nanos(), 500_000_000);
    assert_eq!(better_im::time::parse_iso_millis("2023-06-15T12:30:00Z"), Ok(1_686_832_200_000));
    let err = better_im::time::parse_iso("not-a-date").unwrap_err();
    assert!(err.starts_with("invalid ISO-8601 timestamp \"not-a-date\": "), "{err}");
    let err = better_im::time::parse_iso_millis("say \"hi\"").unwrap_err();
    assert!(err.starts_with("invalid ISO-8601 timestamp \"say \\\"hi\\\"\": "), "{err}");
}

#[test]
fn chrono_calendar_bounds_are_the_representable_seconds() {
    assert!(UtcTime::from_timestamp(CHRONO_MIN_SECS, 0).is_some());
    assert!(UtcTime::from_timestamp(CHRONO_MIN_SECS - 1, 999_999_999).is_none());
    assert!(UtcTime::from_timestamp(CHRONO_MAX_SECS, 999_999_999).is_some());
    assert!(UtcTime::from_timestamp(CHRONO_MAX_SECS + 1, 0).is_none());
    assert_eq!(chrono::DateTime::from_timestamp(CHRONO_MIN_SECS, 0).unwrap().date_naive(), chrono::NaiveDate::MIN);
    assert_eq!(chrono::DateTime::from_timestamp(CHRONO_MAX_SECS, 0).unwrap().date_naive(), chrono::NaiveDate::MAX);
}

#[test]
fn leap_nanoseconds_only_on_the_last_second_of_a_minute() {
    assert!(UtcTime::from_timestamp(59, 1_500_000_000).is_some());
    assert!(UtcTime::from_timestamp(58, 1_500_000_000).is_none());
    assert!(UtcTime::from_timestamp(-1, 1_000_000_000).is_some());
    assert!(UtcTime::from_timestamp(59, 2_000_000_000).is_none());
}

#[test]
fn rfc3339_cursor_millis_count_whole_milliseconds() {
    assert_eq!(parse_iso_millis("1970-01-01T00:00:01.2349Z"), Ok(1_234));
    assert_eq!(parse_iso_millis("1969-12-31T23:59:59.5Z"), Ok(-500));
    assert_eq!(parse_iso_millis("2023-01-01T01:00:00+01:00"), Ok(1_672_531_200_000));
    assert!(parse_iso_millis("nope").is_err());
}

#[test]
fn datetime_from_millis_keeps_the_sub_second_part() {
    let t = IndexedMessage::datetime_from_millis(1_500).unwrap();
    assert_eq!(t.timestamp(), 1);
    assert_eq!(t.subsec_nanos(), 500_000_000);
    let neg = IndexedMessage::datetime_from_millis(-1).unwrap();
    assert_eq!(neg.timestamp(), -1);
    assert_eq!(neg.subsec_nanos(), 999_000_000);
}
