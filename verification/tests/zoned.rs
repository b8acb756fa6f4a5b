use calnexus::error::ErrorKind;
use calnexus::zoned::{
    parse_date_with_format, parse_str_to_zoned, read_with_format, reformat_date, utc_suffix_as_offset,
    zoned_to_rfc3339,
};

#[test]
fn test_parse_date_basic() {
    let result = parse_date_with_format("25/07/2026", "%d/%m/%Y").unwrap();
    assert_eq!(result, "2026-07-25T00:00:00+00:00");
}

#[test]
fn test_parse_date_mismatch() {
    let result = parse_date_with_format("invalid", "%Y-%m-%d");
    assert!(matches!(result, Err(e) if e.kind == ErrorKind::Domain));
}

#[test]
fn test_reformat_date_basic() {
    let result = reformat_date("25/07/2026", "%d/%m/%Y", "%Y-%m-%d").unwrap();
    assert_eq!(result, "2026-07-25");
}

#[test]
fn test_reformat_date_parse_fail() {
    let result = reformat_date("invalid", "%d/%m/%Y", "%Y-%m-%d");
    assert!(matches!(result, Err(e) if e.kind == ErrorKind::Domain));
}

#[test]
fn test_format_mismatch_has_i18n_key() {
    let e = parse_date_with_format("invalid", "%Y-%m-%d").unwrap_err();
    assert_eq!(e.i18n_key, Some("msg.time.format_mismatch"));
}

#[test]
fn test_parse_str_to_zoned_rfc3339() {
    let z = parse_str_to_zoned("2026-07-25T00:00:00+00:00").unwrap();
    assert_eq!(z.datetime.date.year, 2026);
}

#[test]
fn test_parse_str_to_zoned_z_suffix() {
    let result = parse_str_to_zoned("2026-07-25T00:00:00Z");
    assert!(result.is_ok());
}

#[test]
fn test_parse_str_to_zoned_date_only() {
    let z = parse_str_to_zoned("2026-07-25").unwrap();
    assert_eq!(z.datetime.date.year, 2026);
    assert_eq!(z.datetime.date.month, 7);
}

#[test]
fn test_zoned_to_rfc3339_utc() {
    let z = parse_str_to_zoned("2026-07-25T12:30:00+00:00").unwrap();
    let s = zoned_to_rfc3339(&z);
    assert_eq!(s, "2026-07-25T12:30:00+00:00");
}

#[test]
fn test_zoned_to_rfc3339_roundtrip() {
    let original = "2026-07-25T12:30:00+00:00";
    let z = parse_str_to_zoned(original).unwrap();
    let s = zoned_to_rfc3339(&z);
    assert_eq!(s, original);
}

#[test]
fn parse_date_reads_a_zoned_date_time_when_the_date_reading_fails() {
    // the date reading comes first and keeps only the date
    let s = parse_date_with_format("2026-07-25 08:15:00 +02:00", "%Y-%m-%d %H:%M:%S %:z").unwrap();
    assert_eq!(s, "2026-07-25T00:00:00+00:00");
    // a Unix timestamp has no year for the date reading
    let s = parse_date_with_format("3600 +02:00", "%s %:z").unwrap();
    assert_eq!(s, "1970-01-01T03:00:00+02:00");
    let e = parse_date_with_format("2026-07-25", "%d/%m/%Y").unwrap_err();
    assert_eq!(e.message, "format mismatch: %d/%m/%Y");
}

#[test]
fn reformat_date_reports_the_failing_format() {
    let e = reformat_date("25/07/2026", "%Y-%m-%d", "%Y").unwrap_err();
    assert_eq!(e.message, "format mismatch: %Y-%m-%d");
    assert_eq!(reformat_date("25/07/2026", "%d/%m/%Y", "%d.%m.%Y").unwrap(), "25.07.2026");
    assert_eq!(
        reformat_date("2026-07-25 08:15:00 +02:00", "%Y-%m-%d %H:%M:%S %:z", "%H:%M %:z").unwrap(),
        "00:00 +00:00"
    );
    assert_eq!(
        reformat_date("3600 +02:00", "%s %:z", "%Y-%m-%d %H:%M %:z").unwrap(),
        "1970-01-01 03:00 +02:00"
    );
}

#[test]
fn read_with_format_takes_a_date_at_midnight_utc() {
    let z = read_with_format("25/07/2026", "%d/%m/%Y").unwrap();
    assert_eq!(z.datetime.hour, 0);
    assert_eq!(z.offset_seconds, 0);
    assert_eq!(z.time_zone, None);
}

#[test]
fn utc_suffix_becomes_an_offset() {
    assert_eq!(utc_suffix_as_offset("2026-07-25T00:00:00Z"), "2026-07-25T00:00:00+00:00");
    assert_eq!(utc_suffix_as_offset("2026-07-25"), "2026-07-25");
    assert_eq!(utc_suffix_as_offset(""), "");
}

#[test]
fn parse_str_to_zoned_keeps_the_offset_and_falls_back_to_the_library_formats() {
    let z = parse_str_to_zoned("2026-07-25 08:15:00-05:00").unwrap();
    assert_eq!(z.offset_seconds, -5 * 3600);
    assert_eq!(z.datetime.hour, 8);
    assert_eq!(zoned_to_rfc3339(&z), "2026-07-25T08:15:00-05:00");
    let z = parse_str_to_zoned("2026/07/25 12:30:00").unwrap();
    assert_eq!(zoned_to_rfc3339(&z), "2026-07-25T12:30:00+00:00");
    let e = parse_str_to_zoned("01/02/2026").unwrap_err();
    assert_eq!(e.i18n_key, Some("msg.time.ambiguous_format"));
    let e = parse_str_to_zoned("nonsense").unwrap_err();
    assert_eq!(e.i18n_key, Some("msg.time.invalid_date"));
}

#[test]
fn parse_str_to_zoned_rejects_a_date_before_the_first_instant() {
    let e = parse_str_to_zoned("-009999-01-01").unwrap_err();
    assert_eq!(e.kind, ErrorKind::Domain);
    assert_eq!(e.i18n_key, Some("msg.time.invalid_date"));
    let z = parse_str_to_zoned("-009998-06-01").unwrap();
    assert_eq!(z.datetime.date.year, -9998);
}
