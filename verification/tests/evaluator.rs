use calnexus::ast::{AstNode, BinaryOp};
use calnexus::canonical::CanonicalForm;
use calnexus::evaluator::{cache_key, check_evaluation_request, extract_format_precision};


#[test]
fn test_extract_format_precision_float_n() {
    let ast = AstNode::FunctionCall(
        "precision".to_string(),
        vec![
            AstNode::Number(f64::to_bits(2.5)),
            AstNode::BinaryOp(
                BinaryOp::Div,
                Box::new(AstNode::Number(f64::to_bits(1.0))),
                Box::new(AstNode::Number(f64::to_bits(3.0))),
            ),
        ],
    );
    assert_eq!(extract_format_precision(&ast), None);
}

#[test]
fn test_extract_format_precision_non_number_n() {
    let ast = AstNode::FunctionCall(
        "precision".to_string(),
        vec![AstNode::Variable("x".to_string()), AstNode::Number(f64::to_bits(1.0))],
    );
    assert_eq!(extract_format_precision(&ast), None);
}

#[test]
fn test_extract_format_precision_bignumber_n() {
    let ast = AstNode::FunctionCall(
        "precision".to_string(),
        vec![AstNode::BigNumber("5".to_string()), AstNode::Number(f64::to_bits(1.0))],
    );
    assert_eq!(extract_format_precision(&ast), None);
}

#[test]
fn test_extract_format_precision_valid() {
    let ast = AstNode::FunctionCall(
        "precision".to_string(),
        vec![AstNode::Number(f64::to_bits(5.0)), AstNode::Number(f64::to_bits(1.0))],
    );
    assert_eq!(extract_format_precision(&ast), Some(5));
}

#[test]
fn test_extract_format_precision_non_precision_call() {
    let ast = AstNode::FunctionCall("sin".to_string(), vec![AstNode::Number(f64::to_bits(1.0))]);
    assert_eq!(extract_format_precision(&ast), None);
}

#[test]
fn test_extract_format_precision_non_function() {
    let ast = AstNode::Number(f64::to_bits(42.0));
    assert_eq!(extract_format_precision(&ast), None);
}

#[test]
fn evaluation_requests_are_checked_before_reading() {
    assert_eq!(check_evaluation_request(true, None).unwrap_err().kind, calnexus::error::ErrorKind::Timeout);
    let e = check_evaluation_request(false, Some(1001)).unwrap_err();
    assert_eq!(e.message, "precision 1001 exceeds limit 1000");
    assert!(check_evaluation_request(false, Some(1000)).is_ok());
    assert!(check_evaluation_request(false, None).is_ok());
}

#[test]
fn precision_mode_has_its_own_cache_keys() {
    let cf = CanonicalForm::new("(+ 1 2)");
    assert_eq!(cache_key(&cf, Some(5)).as_str(), "precision:(+ 1 2)");
    assert_eq!(cache_key(&cf, None).as_str(), "(+ 1 2)");
}
