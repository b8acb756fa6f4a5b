use calnexus::datetime::{parse_date_multi_format, parse_datetime_multi_format, parse_timestamp_strptime, CivilDate};

#[test]
fn test_parse_date_iso() {
    assert!(parse_date_multi_format("2026-07-25").is_ok());
}

#[test]
fn test_parse_date_slash() {
    assert!(parse_date_multi_format("2026/07/25").is_ok());
}

#[test]
fn test_parse_date_dot() {
    assert!(parse_date_multi_format("2026.07.25").is_ok());
}

#[test]
fn test_parse_date_basic_format() {
    assert!(parse_date_multi_format("20260725").is_ok());
}

#[test]
fn test_parse_date_english_abbr() {
    assert!(parse_date_multi_format("25 Jul 2026").is_ok());
}

#[test]
fn test_parse_date_english_abbr2() {
    assert!(parse_date_multi_format("Jul 25, 2026").is_ok());
}

#[test]
fn test_parse_date_english_full() {
    assert!(parse_date_multi_format("July 25, 2026").is_ok());
}

#[test]
fn test_parse_date_chinese() {
    assert!(parse_date_multi_format("2026年7月25日").is_ok());
}

#[test]
fn test_parse_date_ambiguous_rejected() {
    assert!(parse_date_multi_format("01/02/2026").is_err());
    assert!(parse_date_multi_format("13/07/2026").is_err());
    assert!(parse_date_multi_format("01-02-2026").is_err());
    assert!(parse_date_multi_format("01.02.2026").is_err());
}

#[test]
fn test_parse_date_invalid() {
    assert!(parse_date_multi_format("2026-02-30").is_err());
    assert!(parse_date_multi_format("invalid").is_err());
    assert!(parse_date_multi_format("").is_err());
}

#[test]
fn test_parse_datetime_iso() {
    let dt = parse_datetime_multi_format("2026-07-25T12:30:00").unwrap();
    assert_eq!(dt.hour, 12);
    assert_eq!(dt.minute, 30);
}

#[test]
fn test_parse_datetime_space_separated() {
    assert!(parse_datetime_multi_format("2026/07/25 12:30:00").is_ok());
}

#[test]
fn test_parse_datetime_fallback_to_date() {
    let dt = parse_datetime_multi_format("2026-07-25").unwrap();
    assert_eq!(dt.hour, 0);
}

#[test]
fn test_parse_timestamp_rfc3339() {
    assert!(parse_timestamp_strptime("2026-07-25T00:00:00Z").is_ok()
        || parse_timestamp_strptime("2026-07-25T00:00:00+00:00").is_ok());
}

#[test]
fn test_parse_timestamp_invalid() {
    assert!(parse_timestamp_strptime("not-a-timestamp").is_err());
    assert!(parse_timestamp_strptime("2026-07-25").is_err());
}

// ----- further cases -----

#[test]
fn every_date_format_names_the_same_day() {
    let expected = CivilDate { year: 2026, month: 7, day: 25 };
    for s in ["2026-07-25", "2026/07/25", "2026.07.25", "20260725", "25 Jul 2026", "Jul 25, 2026", "July 25, 2026", "2026年7月25日"] {
        assert_eq!(parse_date_multi_format(s).unwrap(), expected, "{}", s);
    }
}

#[test]
fn date_errors_carry_their_messages() {
    let e = parse_date_multi_format("01/02/2026").unwrap_err();
    assert_eq!(e.message, "ambiguous date format, use parse_date() with explicit format");
    assert_eq!(e.i18n_key, Some("msg.time.ambiguous_format"));
    let e = parse_date_multi_format("2026年2月30日").unwrap_err();
    assert_eq!(e.message, "invalid date: 2026年2月30日");
    assert_eq!(e.i18n_key, Some("msg.time.invalid_date"));
    assert_eq!(e.i18n_args, vec![("value".to_string(), "2026年2月30日".to_string())]);
}

#[test]
fn leap_days_follow_the_calendar() {
    assert!(parse_date_multi_format("2024-02-29").is_ok());
    assert!(parse_date_multi_format("2023-02-29").is_err());
    assert!(parse_date_multi_format("2000年2月29日").is_ok());
    assert!(parse_date_multi_format("1900年2月29日").is_err());
}

#[test]
fn chinese_datetimes() {
    let t = parse_datetime_multi_format("2026年7月25日 12:30:45").unwrap();
    assert_eq!((t.date.year, t.date.month, t.date.day), (2026, 7, 25));
    assert_eq!((t.hour, t.minute, t.second), (12, 30, 45));
    let t = parse_datetime_multi_format("2026年7月25日").unwrap();
    assert_eq!((t.hour, t.minute, t.second), (0, 0, 0));
    let t = parse_datetime_multi_format("2026年7月25日 9:05").unwrap();
    assert_eq!((t.hour, t.minute, t.second), (9, 5, 0));
    assert!(parse_datetime_multi_format("2026年7月25日 25:61").is_err());
}

#[test]
fn timestamps_read_offsets() {
    let t = parse_timestamp_strptime("1970-01-01T00:00:10+00:00").unwrap();
    assert_eq!((t.second, t.nanosecond), (10, 0));
    let t = parse_timestamp_strptime("1970-01-01T01:00:00+01:00").unwrap();
    assert_eq!(t.second, 0);
}
