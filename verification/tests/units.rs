use calnexus::ast::AstNode;
use calnexus::error::ErrorKind;
use calnexus::unit_table::Dimension;
use calnexus::units::{dimension_mismatch_error, plan_conversion, unknown_unit_error, ConversionPlan, TemperatureUnit};


#[test]
fn test_unknown_unit_error_with_suggestion() {
    let err = unknown_unit_error("metr");
    assert!(err.message.contains("did you mean"));
    assert!(err.message.contains("meter") || err.message.contains("metre"));
}

#[test]
fn test_unknown_unit_error_no_suggestion_for_far_unit() {
    let err = unknown_unit_error("ZZZZZZ");
    assert!(!err.message.contains("did you mean"));
}

#[test]
fn test_dimension_mismatch_error_message() {
    let err = dimension_mismatch_error("m", Dimension::Length, "kg", Dimension::Mass);
    assert_eq!(err.kind, ErrorKind::Domain);
    assert!(err.message.contains("Length"));
    assert!(err.message.contains("Mass"));
    assert_eq!(err.i18n_key, Some("msg.unit.dimension_mismatch"));
    let arg_keys: Vec<&str> = err.i18n_args.iter().map(|(k, _)| k.as_str()).collect();
    assert_eq!(arg_keys, vec!["from", "from_dim", "to", "to_dim"]);
}

#[test]
fn test_dimension_mismatch_error_time_vs_length() {
    let err = dimension_mismatch_error("m", Dimension::Length, "s", Dimension::Time);
    assert!(err.message.contains("Length"));
    assert!(err.message.contains("Time"));
}

#[test]
fn converting_back_swaps_the_plan() {
    let there = plan_conversion("km", "m").unwrap();
    let back = plan_conversion("m", "km").unwrap();
    match (there, back) {
        (
            ConversionPlan::Linear { from_num: a, from_den: b, to_num: c, to_den: d },
            ConversionPlan::Linear { from_num: a2, from_den: b2, to_num: c2, to_den: d2 },
        ) => {
            assert_eq!((a, b, c, d), (c2, d2, a2, b2));
            assert_eq!(a * d, 1000 * b * c);
        }
        _ => panic!("linear units convert linearly"),
    }
    assert_eq!(
        plan_conversion("C", "F").unwrap(),
        ConversionPlan::Affine { from: TemperatureUnit::Celsius, to: TemperatureUnit::Fahrenheit }
    );
    assert_eq!(
        plan_conversion("F", "C").unwrap(),
        ConversionPlan::Affine { from: TemperatureUnit::Fahrenheit, to: TemperatureUnit::Celsius }
    );
    assert_eq!(plan_conversion("m", "kg").unwrap_err().kind, ErrorKind::Domain);
    assert_eq!(plan_conversion("kg", "m").unwrap_err().kind, ErrorKind::Domain);
}

#[test]
fn unit_calls_check_their_shape() {
    assert!(calnexus::units::unit_call_arity_error("convert", 3).is_none());
    let e = calnexus::units::unit_call_arity_error("convert", 2).unwrap();
    assert_eq!(e.message, "convert() requires exactly 3 arguments, got 2");
    assert_eq!(e.i18n_key, Some("msg.unit.invalid_argument"));
    let e = calnexus::units::unit_call_arity_error("abs", 0).unwrap();
    assert_eq!(e.message, "abs() requires exactly 1 argument, got 0");
    let args = vec![AstNode::Number(1.0f64.to_bits()), AstNode::Str("m".to_string()), AstNode::Str("km".to_string())];
    assert_eq!(calnexus::units::convert_unit_names(&args).unwrap(), ("m".to_string(), "km".to_string()));
    let args = vec![AstNode::Number(1.0f64.to_bits()), AstNode::Number(2.0f64.to_bits()), AstNode::Str("km".to_string())];
    let e = calnexus::units::convert_unit_names(&args).unwrap_err();
    assert_eq!(e.i18n_args[0].1, "convert() 'from' unit must be a string literal");
}
