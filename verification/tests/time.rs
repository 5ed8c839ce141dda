use connect4::clock::{as_signed, deadline, grace_period, now_unix, reading_stamp, unix_stamp};
use connect4::text::parse_trimmed;
use std::time::{Duration, UNIX_EPOCH};

#[test]
fn grace_defaults_to_a_minute() {
    assert_eq!(grace_period(None), 60);
    assert_eq!(grace_period(Some("")), 60);
    assert_eq!(grace_period(Some("soon")), 60);
    assert_eq!(grace_period(Some("-5")), 60);
    assert_eq!(grace_period(Some(" 5")), 60);
    assert_eq!(grace_period(Some("5m")), 60);
    assert_eq!(grace_period(Some("s")), 60);
    assert_eq!(grace_period(Some("+")), 60);
    assert_eq!(grace_period(Some("++5")), 60);
    assert_eq!(grace_period(Some("1_0")), 60);
    assert_eq!(grace_period(Some("\u{0665}")), 60);
}

#[test]
fn grace_reads_seconds() {
    assert_eq!(grace_period(Some("5")), 5);
    assert_eq!(grace_period(Some("5s")), 5);
    assert_eq!(grace_period(Some("90sss")), 90);
    assert_eq!(grace_period(Some("+7s")), 7);
    assert_eq!(grace_period(Some("0")), 0);
    assert_eq!(grace_period(Some("00000000000000000000000012")), 12);
}

#[test]
fn grace_stops_at_the_greatest_number() {
    assert_eq!(grace_period(Some("18446744073709551615")), u64::MAX);
    assert_eq!(grace_period(Some("18446744073709551616")), 60);
    assert_eq!(grace_period(Some("99999999999999999999")), 60);
}

#[test]
fn parses_as_the_standard_library_does() {
    for s in ["", "x", "xx", "12x", "1x2", "+12", "+", "-1", "1 ", "007", "18446744073709551616x"] {
        let expected = s.trim_end_matches('x').parse::<u64>().ok();
        assert_eq!(parse_trimmed(s, 'x'), expected, "{s:?}");
    }
}

#[test]
fn stamps_count_whole_seconds() {
    assert_eq!(unix_stamp(Duration::from_millis(1_700_000_000_999)), 1_700_000_000);
    assert_eq!(unix_stamp(Duration::from_secs(0)), 0);
    assert_eq!(unix_stamp(Duration::from_secs(u64::MAX)), -1);
}

#[test]
fn a_reading_before_the_epoch_has_no_stamp() {
    let later = UNIX_EPOCH + Duration::from_secs(90);
    assert_eq!(reading_stamp(later.duration_since(UNIX_EPOCH)), Some(90));
    assert_eq!(reading_stamp(UNIX_EPOCH.duration_since(UNIX_EPOCH)), Some(0));
    assert_eq!(reading_stamp(UNIX_EPOCH.duration_since(later)), None);
}

#[test]
fn the_clock_is_past_the_epoch() {
    let now = now_unix().unwrap();
    assert!(now > 1_600_000_000);
}

#[test]
fn counts_of_seconds_go_on_below_zero() {
    assert_eq!(as_signed(5), 5);
    assert_eq!(as_signed(i64::MAX as u64), i64::MAX);
    assert_eq!(as_signed(i64::MAX as u64 + 1), i64::MIN);
}

#[test]
fn deadlines_have_a_limit() {
    assert_eq!(deadline(1_000, 60), Some(1_060));
    assert_eq!(deadline(i64::MAX, 1), None);
    assert_eq!(deadline(1_000, u64::MAX), Some(999));
}
