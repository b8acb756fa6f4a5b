use calnexus::ast::BinaryOp;
use calnexus::steps::{binary_op_str, gcd_i64, has_floating_point_noise, lcm_i64};

#[test]
fn step_operator_symbols() {
    assert_eq!(binary_op_str(BinaryOp::Add), "+");
    assert_eq!(binary_op_str(BinaryOp::Sub), "-");
    assert_eq!(binary_op_str(BinaryOp::Mul), "*");
    assert_eq!(binary_op_str(BinaryOp::Div), "/");
    assert_eq!(binary_op_str(BinaryOp::Pow), "^");
    assert_eq!(binary_op_str(BinaryOp::Mod), "%");
}

#[test]
fn floating_point_noise_detection() {
    assert!(has_floating_point_noise("0.30000000000000004"));
    assert!(has_floating_point_noise("0.09999999999999998"));
    assert!(!has_floating_point_noise("0.3"));
    assert!(!has_floating_point_noise("1000000"));
    assert!(has_floating_point_noise("10000000"));
    assert!(!has_floating_point_noise(""));
}

#[test]
fn step_gcd_and_lcm_of_machine_integers() {
    assert_eq!(gcd_i64(12, 18), 6);
    assert_eq!(gcd_i64(-12, 18), 6);
    assert_eq!(gcd_i64(0, 0), 0);
    assert_eq!(gcd_i64(0, -7), 7);
    assert_eq!(gcd_i64(i64::MAX, 1), 1);
    assert_eq!(lcm_i64(4, 6), 12);
    assert_eq!(lcm_i64(-4, 6), 12);
    assert_eq!(lcm_i64(0, 5), 0);
    assert_eq!(lcm_i64(7, 0), 0);
}
