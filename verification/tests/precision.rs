use calnexus::bigint::{BigInt, BigRational};
use calnexus::error::ErrorKind;
use calnexus::precision::{factorial, format_bigrational, rational_to_int, rational_to_result, MAX_FACTORIAL_INPUT};
use calnexus::result::EvalResult;

fn b(v: i64) -> BigInt {
    BigInt::from_i64(v)
}

fn q(n: i64, d: i64) -> BigRational {
    BigRational::new(b(n), b(d))
}

#[test]
fn precision_test_factorial_zero() {
    assert_eq!(factorial(&BigInt::zero()).unwrap(), BigInt::one());
}

#[test]
fn precision_test_factorial_five() {
    assert_eq!(factorial(&b(5)).unwrap(), b(120));
}

#[test]
fn precision_test_factorial_negative() {
    assert!(factorial(&b(-1)).is_err());
}

#[test]
fn test_factorial_exceeds_max() {
    let oversized = BigInt::from_u64(MAX_FACTORIAL_INPUT + 1);
    assert!(factorial(&oversized).is_err());
}

#[test]
fn test_factorial_at_bound() {
    let at_bound = BigInt::from_u64(MAX_FACTORIAL_INPUT);
    let result = factorial(&at_bound);
    assert!(result.is_ok());
}

#[test]
fn test_format_fraction() {
    let r = q(1, 3);
    assert_eq!(format_bigrational(&r, None), "1/3");
}

#[test]
fn test_format_integer_fraction() {
    let r = q(4, 2);
    assert_eq!(format_bigrational(&r, None), "2");
}

#[test]
fn test_format_decimal_precision_zero() {
    let r = q(7, 2);
    assert_eq!(format_bigrational(&r, Some(0)), "3");
}

#[test]
fn test_format_decimal_half() {
    let r = q(1, 2);
    assert_eq!(format_bigrational(&r, Some(3)), "0.500");
}

#[test]
fn test_format_decimal_negative() {
    let r = q(-1, 3);
    assert_eq!(format_bigrational(&r, Some(5)), "-0.33333");
}

#[test]
fn test_format_decimal_50_digits() {
    let r = q(1, 3);
    let formatted = format_bigrational(&r, Some(50));
    assert!(formatted.starts_with("0.3"));
    assert_eq!(formatted.len(), 52);
    assert!(formatted.chars().skip(2).all(|c| c == '3'));
}

#[test]
fn test_rational_to_int_integer() {
    let r = BigRational::from_integer(b(42));
    assert_eq!(rational_to_int(&r, "test").unwrap(), b(42));
}

#[test]
fn test_rational_to_int_non_integer_error() {
    let r = q(1, 3);
    assert!(rational_to_int(&r, "test").is_err());
}

#[test]
fn test_rational_to_result_integer() {
    let r = BigRational::from_integer(b(42));
    let result = rational_to_result(r);
    assert!(matches!(result, EvalResult::BigInt(_)));
}

#[test]
fn test_rational_to_result_fraction() {
    let r = q(1, 3);
    let result = rational_to_result(r);
    assert!(matches!(result, EvalResult::BigRational(_)));
}

// ----- further cases -----

#[test]
fn factorial_values_and_messages() {
    assert_eq!(factorial(&b(20)).unwrap(), BigInt::from_u64(2_432_902_008_176_640_000));
    let f25 = factorial(&b(25)).unwrap();
    assert_eq!(f25.to_decimal_string(), "15511210043330985984000000");
    let e = factorial(&b(-3)).unwrap_err();
    assert_eq!(e.kind, ErrorKind::Domain);
    assert_eq!(e.message, "factorial requires non-negative integer, got -3");
    let e = factorial(&b(10001)).unwrap_err();
    assert_eq!(e.message, "factorial input must not exceed 10000 (got 10001)");
}

#[test]
fn fractions_are_reduced_with_positive_denominator() {
    let r = q(6, -4);
    assert_eq!(r.numer(), &b(-3));
    assert_eq!(r.denom(), &b(2));
    assert_eq!(format_bigrational(&r, None), "-3/2");
    assert_eq!(format_bigrational(&q(0, -5), None), "0");
    assert_eq!(format_bigrational(&q(-7, 2), Some(2)), "-3.50");
    assert_eq!(format_bigrational(&q(-1, 3), Some(0)), "-0");
    assert_eq!(format_bigrational(&q(1, 1000), Some(4)), "0.0010");
}

#[test]
fn rational_to_int_message_names_the_fraction() {
    let e = rational_to_int(&q(-5, 10), "gcd").unwrap_err();
    assert_eq!(e.kind, ErrorKind::Domain);
    assert_eq!(e.message, "gcd requires integer operand, got -1/2");
}
