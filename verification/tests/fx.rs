use calnexus::error::{CalcError, ErrorKind};
use calnexus::fx::{conversion_rates, get_rate, unknown_currency_error, RateTable};

fn eur_table() -> RateTable {
    let mut table = RateTable::new("EUR".to_string(), "2026-07-25".to_string());
    table.insert("USD".to_string(), f64::to_bits(1.08));
    table.insert("CNY".to_string(), f64::to_bits(7.85));
    table.insert("GBP".to_string(), f64::to_bits(0.85));
    table.insert("JPY".to_string(), f64::to_bits(165.0));
    table
}

/// The conversion through the base currency, as the application computes it.
fn convert(value: f64, from: &str, to: &str, table: &RateTable) -> Result<f64, CalcError> {
    match conversion_rates(from, to, table)? {
        None => Ok(value),
        Some((a, b)) => Ok(value / f64::from_bits(a) * f64::from_bits(b)),
    }
}

#[test]
fn test_convert_same_currency() {
    let table = eur_table();
    assert_eq!(convert(100.0, "USD", "USD", &table).unwrap(), 100.0);
}

#[test]
fn test_convert_triangle() {
    let table = eur_table();
    let r = convert(100.0, "USD", "CNY", &table).unwrap();
    assert!((r - 100.0 / 1.08 * 7.85).abs() < 1e-9);
}

#[test]
fn test_convert_with_base_from() {
    let table = eur_table();
    let r = convert(100.0, "EUR", "USD", &table).unwrap();
    assert!((r - 108.0).abs() < 1e-9);
}

#[test]
fn test_convert_with_base_to() {
    let table = eur_table();
    let r = convert(108.0, "USD", "EUR", &table).unwrap();
    assert!((r - 100.0).abs() < 1e-9);
}

#[test]
fn test_convert_unknown_currency() {
    let table = eur_table();
    let err = convert(100.0, "XYZ", "USD", &table).expect_err("expected error");
    assert_eq!(err.kind, ErrorKind::Domain);
    assert_eq!(err.i18n_key, Some("msg.fx.unknown_currency"));
}

#[test]
fn test_get_rate_base_currency() {
    let table = eur_table();
    assert_eq!(f64::from_bits(get_rate("EUR", &table).unwrap()), 1.0);
}

#[test]
fn test_get_rate_known_currency() {
    let table = eur_table();
    assert!((f64::from_bits(get_rate("USD", &table).unwrap()) - 1.08).abs() < 1e-9);
}

#[test]
fn test_get_rate_unknown_currency() {
    let table = eur_table();
    let err = get_rate("XYZ", &table).expect_err("expected error");
    assert_eq!(err.kind, ErrorKind::Domain);
    assert_eq!(err.i18n_key, Some("msg.fx.unknown_currency"));
}

#[test]
fn test_unknown_currency_error_message_includes_count() {
    let table = eur_table();
    let err = unknown_currency_error("XYZ", &table);
    assert!(err.message.contains("XYZ"));
    assert!(err.message.contains("5 currencies"));
    assert_eq!(err.i18n_key, Some("msg.fx.unknown_currency"));
}

#[test]
fn test_unknown_currency_error_empty_table() {
    let table = RateTable::new("EUR".to_string(), "2026-07-25".to_string());
    let err = unknown_currency_error("XYZ", &table);
    assert!(err.message.contains("1 currencies"));
}

#[test]
fn test_rate_table_clone() {
    let table = eur_table();
    let cloned = table.clone();
    assert_eq!(cloned.base(), table.base());
    assert_eq!(cloned.date(), table.date());
    assert_eq!(cloned.rate_count(), table.rate_count());
}

#[test]
fn test_rate_table_debug() {
    let table = eur_table();
    let s = format!("{:?}", table);
    assert!(s.contains("EUR"));
}

// ----- further cases -----

#[test]
fn inserting_a_code_again_replaces_its_rate() {
    let mut table = eur_table();
    table.insert("USD".to_string(), f64::to_bits(1.10));
    assert_eq!(table.rate_count(), 4);
    assert_eq!(f64::from_bits(table.lookup("USD").unwrap()), 1.10);
    assert!(table.lookup("EUR").is_none());
}

#[test]
fn unknown_currency_message_in_full() {
    let table = eur_table();
    let err = get_rate("XYZ", &table).unwrap_err();
    assert_eq!(err.message, "unknown currency: XYZ, 5 currencies supported (base: EUR)");
    assert_eq!(err.i18n_args, vec![("code".to_string(), "XYZ".to_string())]);
    let err = conversion_rates("USD", "ABC", &table).unwrap_err();
    assert_eq!(err.message, "unknown currency: ABC, 5 currencies supported (base: EUR)");
}

#[test]
fn a_rate_set_is_read_back_and_others_stay() {
    let mut table = RateTable::new("EUR".to_string(), "2026-01-01".to_string());
    table.insert("USD".to_string(), 1.08f64.to_bits());
    table.insert("JPY".to_string(), 160.5f64.to_bits());
    table.insert("GBP".to_string(), 0.85f64.to_bits());
    assert_eq!(table.lookup("JPY"), Some(160.5f64.to_bits()));
    table.insert("JPY".to_string(), 161.0f64.to_bits());
    assert_eq!(table.lookup("JPY"), Some(161.0f64.to_bits()));
    assert_eq!(table.lookup("USD"), Some(1.08f64.to_bits()));
    assert_eq!(table.lookup("GBP"), Some(0.85f64.to_bits()));
    assert_eq!(table.lookup("CHF"), None);
    assert_eq!(table.rate_count(), 3);
}
