use calnexus::ast::{AstNode, BinaryOp, UnaryOp};
use calnexus::domains::{
    contains_symbolic_function, contains_unit_function, SymbolicDomain, TimeDomain, UnitDomain,
    VectorDomain,
};

/// The trees the parser builds for the expressions of these tests.
fn num(v: f64) -> AstNode {
    AstNode::Number(v.to_bits())
}

fn var(name: &str) -> AstNode {
    AstNode::Variable(name.to_string())
}

fn text(s: &str) -> AstNode {
    AstNode::Str(s.to_string())
}

fn call(name: &str, args: Vec<AstNode>) -> AstNode {
    AstNode::FunctionCall(name.to_string(), args)
}

fn bin(op: BinaryOp, l: AstNode, r: AstNode) -> AstNode {
    AstNode::BinaryOp(op, Box::new(l), Box::new(r))
}

fn list(v: &[f64]) -> AstNode {
    AstNode::List(v.iter().map(|x| num(*x)).collect())
}

/// `[1,2]` and `[3,4]`.
fn pair_args() -> Vec<AstNode> {
    vec![list(&[1.0, 2.0]), list(&[3.0, 4.0])]
}

/// `[1,2]+[3,4]`.
fn list_sum() -> AstNode {
    bin(BinaryOp::Add, list(&[1.0, 2.0]), list(&[3.0, 4.0]))
}

/// `convert(v,"from","to")`.
fn convert(v: f64, from: &str, to: &str) -> AstNode {
    call("convert", vec![num(v), text(from), text(to)])
}


#[test]
fn time_test_domain_info() {
    let domain = TimeDomain;
    assert_eq!(domain.domain_name(), "time");
    assert_eq!(domain.priority(), 30);
    assert_eq!(domain.nondeterministic_functions(), &["now", "today"]);
}

#[test]
fn time_test_default_impl() {
    let domain = TimeDomain;
    assert_eq!(domain.domain_name(), "time");
}

#[test]
fn unit_test_domain_info() {
    let domain = UnitDomain;
    assert_eq!(domain.domain_name(), "unit");
    assert_eq!(domain.priority(), 30);
}

#[test]
fn unit_test_default_impl() {
    let domain = UnitDomain;
    assert_eq!(domain.domain_name(), "unit");
}

#[test]
fn test_contains_unit_function_str_returns_false() {
    let ast = AstNode::Str("convert".to_string());
    assert!(!contains_unit_function(&ast));
}

#[test]
fn test_contains_unit_function_number_returns_false() {
    let ast = AstNode::Number(f64::to_bits(1.0));
    assert!(!contains_unit_function(&ast));
}

#[test]
fn test_contains_unit_function_complex_returns_false() {
    let ast = AstNode::Complex(f64::to_bits(1.0), f64::to_bits(2.0));
    assert!(!contains_unit_function(&ast));
}

#[test]
fn test_contains_unit_function_bignumber_returns_false() {
    let ast = AstNode::BigNumber("123".to_string());
    assert!(!contains_unit_function(&ast));
}

#[test]
fn test_supports_date() {
    let ast = call("date", vec![text("2026-07-25")]);
    assert!(TimeDomain.supports(&ast));
}

#[test]
fn time_test_supports_nested() {
    let ast = bin(BinaryOp::Add, call("timestamp", vec![text("2026-07-25T00:00:00Z")]), num(3600.0));
    assert!(TimeDomain.supports(&ast));
}

#[test]
fn test_supports_now() {
    let ast = call("now", vec![]);
    assert!(TimeDomain.supports(&ast));
}

#[test]
fn test_not_supports_arithmetic() {
    let ast = bin(BinaryOp::Add, num(1.0), num(2.0));
    assert!(!TimeDomain.supports(&ast));
}

#[test]
fn test_not_supports_sin() {
    let ast = call("sin", vec![num(1.0)]);
    assert!(!TimeDomain.supports(&ast));
}

#[test]
fn test_supports_convert() {
    let ast = convert(100.0, "cm", "m");
    assert!(UnitDomain.supports(&ast));
}

#[test]
fn test_supports_nested_in_binary() {
    let ast = bin(BinaryOp::Mul, convert(100.0, "cm", "m"), num(2.0));
    assert!(UnitDomain.supports(&ast));
}

#[test]
fn test_supports_unary() {
    let ast = AstNode::UnaryOp(UnaryOp::Neg, Box::new(convert(1.0, "km", "m")));
    assert!(UnitDomain.supports(&ast));
}

#[test]
fn test_not_supports_pure_arithmetic() {
    let ast = bin(BinaryOp::Add, num(1.0), num(2.0));
    assert!(!UnitDomain.supports(&ast));
}

#[test]
fn test_not_supports_scientific() {
    let ast = call("sin", vec![num(1.0)]);
    assert!(!UnitDomain.supports(&ast));
}

#[test]
fn test_supports_matrix_with_convert() {
    let ast = AstNode::Matrix(vec![vec![convert(1.0, "m", "m")]]);
    assert!(UnitDomain.supports(&ast));
}

#[test]
fn test_supports_list_with_convert() {
    let ast = AstNode::List(vec![convert(1.0, "m", "m")]);
    assert!(UnitDomain.supports(&ast));
}

#[test]
fn test_domain_name_and_priority() {
    let domain = SymbolicDomain;
    assert_eq!(domain.domain_name(), "symbolic");
    assert_eq!(domain.priority(), 30);
}

#[test]
fn test_supports_diff() {
    let domain = SymbolicDomain;
    let ast = call("diff", vec![bin(BinaryOp::Pow, var("x"), num(2.0)), var("x")]);
    assert!(domain.supports(&ast));
}

#[test]
fn test_supports_not_arithmetic() {
    let domain = SymbolicDomain;
    let ast = bin(BinaryOp::Add, num(2.0), num(3.0));
    assert!(!domain.supports(&ast));
}

#[test]
fn symbolic_test_supports_nested() {
    let domain = SymbolicDomain;
    let ast = bin(BinaryOp::Add, num(2.0), call("diff", vec![var("x"), var("x")]));
    assert!(domain.supports(&ast));
}

#[test]
fn test_symbolic_domain_default() {
    let domain = SymbolicDomain;
    assert_eq!(domain.domain_name(), "symbolic");
    assert_eq!(domain.priority(), 30);
}

#[test]
fn test_contains_symbolic_function_unary_op() {
    let ast = AstNode::UnaryOp(UnaryOp::Neg, Box::new(call("diff", vec![var("x"), var("x")])));
    assert!(contains_symbolic_function(&ast));
    let ast2 = AstNode::UnaryOp(UnaryOp::Neg, Box::new(num(5.0)));
    assert!(!contains_symbolic_function(&ast2));
}

#[test]
fn vector_test_domain_info() {
    let domain = VectorDomain;
    assert_eq!(domain.domain_name(), "vector");
    assert_eq!(domain.priority(), 30);
}

#[test]
fn vector_test_default_impl() {
    let domain = VectorDomain;
    assert_eq!(domain.domain_name(), "vector");
}

#[test]
fn test_supports_dot() {
    assert!(VectorDomain.supports(&call("dot", pair_args())));
}

#[test]
fn test_supports_vector_add() {
    assert!(VectorDomain.supports(&list_sum()));
}

#[test]
fn test_supports_scalar_mul() {
    let ast = bin(BinaryOp::Mul, num(3.0), list(&[1.0, 2.0, 3.0]));
    assert!(VectorDomain.supports(&ast));
}

#[test]
fn test_not_supports_plain_arithmetic() {
    let ast = bin(BinaryOp::Add, num(1.0), num(2.0));
    assert!(!VectorDomain.supports(&ast));
}

#[test]
fn test_not_supports_statistics() {
    let ast = call("mean", vec![list(&[1.0, 2.0, 3.0])]);
    assert!(!VectorDomain.supports(&ast));
}

#[test]
fn test_contains_vector_function_recursive() {
    let ast = bin(BinaryOp::Add, call("dot", pair_args()), num(5.0));
    assert!(VectorDomain.supports(&ast));
}

#[test]
fn test_contains_vector_arithmetic_unary() {
    let ast = AstNode::UnaryOp(UnaryOp::Neg, Box::new(list_sum()));
    assert!(VectorDomain.supports(&ast));
}

#[test]
fn test_contains_vector_arithmetic_function() {
    let ast = call("norm", vec![list_sum()]);
    assert!(VectorDomain.supports(&ast));
}

#[test]
fn test_contains_vector_function_in_matrix() {
    let ast = AstNode::Matrix(vec![vec![call("dot", pair_args())]]);
    assert!(VectorDomain.supports(&ast));
}

#[test]
fn test_contains_vector_arithmetic_in_list() {
    let ast = AstNode::List(vec![list_sum()]);
    assert!(VectorDomain.supports(&ast));
}

#[test]
fn test_not_supports_bignumber() {
    let ast = AstNode::BigNumber("42".to_string());
    assert!(!VectorDomain.supports(&ast));
}

#[test]
fn test_not_supports_complex() {
    let ast = AstNode::Complex(1.0f64.to_bits(), 2.0f64.to_bits());
    assert!(!VectorDomain.supports(&ast));
}

#[test]
fn test_contains_vector_arithmetic_in_matrix() {
    let ast = AstNode::Matrix(vec![vec![list_sum()]]);
    assert!(VectorDomain.supports(&ast));
}

#[test]
fn test_supports_cosine_similarity() {
    assert!(VectorDomain.supports(&call("cosine_similarity", pair_args())));
}

#[test]
fn test_supports_project() {
    assert!(VectorDomain.supports(&call("project", pair_args())));
}

#[test]
fn test_supports_reflect() {
    assert!(VectorDomain.supports(&call("reflect", pair_args())));
}

#[test]
fn test_supports_euclidean() {
    assert!(VectorDomain.supports(&call("euclidean", pair_args())));
}

#[test]
fn test_supports_manhattan() {
    assert!(VectorDomain.supports(&call("manhattan", pair_args())));
}

#[test]
fn test_supports_outer() {
    assert!(VectorDomain.supports(&call("outer", pair_args())));
}

#[test]
fn test_supports_lerp() {
    let mut args = pair_args();
    args.push(num(0.5));
    assert!(VectorDomain.supports(&call("lerp", args)));
}

#[test]
fn test_supports_hadamard_product() {
    let ast = bin(BinaryOp::Mul, list(&[1.0, 2.0]), list(&[3.0, 4.0]));
    assert!(VectorDomain.supports(&ast));
}
