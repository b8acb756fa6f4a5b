use calnexus::calendar::{format_mismatch_error, is_leap_year};


#[test]
fn time_test_is_leap_year_2024() {
    assert!(is_leap_year(2024));
}

#[test]
fn time_test_is_leap_year_2000() {
    assert!(is_leap_year(2000));
}

#[test]
fn test_is_leap_year_2400() {
    assert!(is_leap_year(2400));
}

#[test]
fn time_test_is_leap_year_2026() {
    assert!(!is_leap_year(2026));
}

#[test]
fn time_test_is_leap_year_1900() {
    assert!(!is_leap_year(1900));
}

#[test]
fn test_is_leap_year_2100() {
    assert!(!is_leap_year(2100));
}

#[test]
fn test_format_mismatch_error_has_i18n() {
    let err = format_mismatch_error("%Y-%m-%d");
    assert_eq!(err.i18n_key, Some("msg.time.format_mismatch"));
}
