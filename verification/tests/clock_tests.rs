use bicischools_core::clock::{
    arrival_seconds_or_default, minutes_to_hhmm, parse_hhmm_fields, parse_hhmm_to_seconds,
};
use bicischools_core::config::{default_arrival_time, default_max_routes};

#[test]
fn parses_plain_times() {
    assert_eq!(parse_hhmm_to_seconds("08:45"), Some(31500));
    assert_eq!(parse_hhmm_to_seconds("00:00"), Some(0));
    assert_eq!(parse_hhmm_to_seconds("7:5"), Some(7 * 3600 + 5 * 60));
    assert_eq!(parse_hhmm_to_seconds("25:99"), Some(25 * 3600 + 99 * 60));
}

#[test]
fn trims_whitespace_and_accepts_plus_sign() {
    assert_eq!(parse_hhmm_to_seconds("  07:30\t\n"), Some(27000));
    assert_eq!(parse_hhmm_to_seconds("+08:+00"), Some(28800));
    assert_eq!(parse_hhmm_to_seconds("\u{3000}09:15\u{a0}"), Some(33300));
}

#[test]
fn rejects_malformed_times() {
    assert_eq!(parse_hhmm_to_seconds(""), None);
    assert_eq!(parse_hhmm_to_seconds("0845"), None);
    assert_eq!(parse_hhmm_to_seconds("08:45:00"), None);
    assert_eq!(parse_hhmm_to_seconds(":45"), None);
    assert_eq!(parse_hhmm_to_seconds("08:"), None);
    assert_eq!(parse_hhmm_to_seconds("ab:cd"), None);
    assert_eq!(parse_hhmm_to_seconds("-1:00"), None);
    assert_eq!(parse_hhmm_to_seconds("+:00"), None);
    assert_eq!(parse_hhmm_to_seconds("08 :45"), None);
    assert_eq!(parse_hhmm_to_seconds("4294967296:00"), None);
}

#[test]
fn fields_are_reported_before_any_overflow() {
    assert_eq!(parse_hhmm_fields("4294967295:1"), Some((4294967295, 1)));
    assert_eq!(parse_hhmm_fields(" 12:34 "), Some((12, 34)));
    assert_eq!(parse_hhmm_fields("12-34"), None);
}

#[test]
fn falls_back_to_quarter_to_nine() {
    assert_eq!(arrival_seconds_or_default("not a time"), 31500);
    assert_eq!(arrival_seconds_or_default("09:00"), 32400);
}

#[test]
fn formats_minutes_on_a_24_hour_clock() {
    assert_eq!(minutes_to_hhmm(525), "08:45");
    assert_eq!(minutes_to_hhmm(0), "00:00");
    assert_eq!(minutes_to_hhmm(1439), "23:59");
    assert_eq!(minutes_to_hhmm(1440 + 5), "00:05");
    assert_eq!(minutes_to_hhmm(-1), "23:59");
    assert_eq!(minutes_to_hhmm(-1440 * 3 - 61), "22:59");
}

#[test]
fn every_time_of_day_survives_a_roundtrip() {
    for m in 0..1440i64 {
        let text = minutes_to_hhmm(m);
        assert_eq!(parse_hhmm_to_seconds(&text), Some((m * 60) as u32));
    }
}

#[test]
fn defaults() {
    assert_eq!(default_max_routes(), 3);
    assert_eq!(default_arrival_time(), "08:45");
    assert_eq!(parse_hhmm_to_seconds(&default_arrival_time()), Some(31500));
}
