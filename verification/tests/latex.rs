use calnexus::ast::{AstNode, BinaryOp, UnaryOp};
use calnexus::bigint::{BigInt, BigRational};
use calnexus::latex::{
    ast_to_latex_expr, format_latex, format_latex_bigint, format_latex_bigrational, format_latex_complex,
    format_latex_complex_list, format_latex_matrix, format_latex_polynomial, format_latex_scalar,
    format_latex_symbolic, format_latex_vector, symbolic_str_to_latex,
};
use calnexus::result::EvalResult;

/// No supplied decimal texts: every number in these trees is integral.
fn no_texts() -> Vec<(u64, String)> {
    Vec::new()
}

/// The decimal texts of the given values, as `{}` formats a binary64.
fn decimal_texts(v: &[f64]) -> Vec<(u64, String)> {
    v.iter().map(|x| (x.to_bits(), format!("{}", x))).collect()
}

fn bits(v: &[f64]) -> Vec<u64> {
    v.iter().map(|x| x.to_bits()).collect()
}


#[test]
fn latex_symbolic_diff() {
    let ast = AstNode::FunctionCall(
        "diff".to_string(),
        vec![
            AstNode::BinaryOp(
                BinaryOp::Pow,
                Box::new(AstNode::Variable("x".to_string())),
                Box::new(AstNode::Number(f64::to_bits(2.0))),
            ),
            AstNode::Variable("x".to_string()),
        ],
    );
    let s = format_latex_symbolic("diff", &ast, "2*x", &no_texts());
    assert_eq!(s, "\\frac{d}{dx}\\left(x^{2}\\right) = 2 \\cdot x");
}

#[test]
fn latex_symbolic_integrate() {
    let ast = AstNode::FunctionCall(
        "integrate".to_string(),
        vec![
            AstNode::Variable("x".to_string()),
            AstNode::Variable("x".to_string()),
        ],
    );
    let s = format_latex_symbolic("integrate", &ast, "x^2/2", &no_texts());
    assert!(s.contains("\\int"));
    assert!(s.contains("\\, dx"));
}

#[test]
fn latex_symbolic_limit() {
    let ast = AstNode::FunctionCall(
        "limit".to_string(),
        vec![
            AstNode::Variable("x".to_string()),
            AstNode::Variable("x".to_string()),
            AstNode::Number(f64::to_bits(0.0)),
        ],
    );
    let s = format_latex_symbolic("limit", &ast, "1", &no_texts());
    assert!(s.contains("\\lim_{x \\to 0}"));
}

#[test]
fn latex_top_level_scalar() {
    let r = EvalResult::Scalar(f64::to_bits(5.0));
    let ast = AstNode::Number(f64::to_bits(5.0));
    assert_eq!(format_latex(&r, &ast, "2+3", None, &no_texts()), "5");
}

#[test]
fn latex_top_level_matrix() {
    let r = EvalResult::Matrix(vec![bits(&[1.0, 2.0]), bits(&[3.0, 4.0])]);
    let ast = AstNode::Number(f64::to_bits(0.0));
    assert_eq!(
        format_latex(&r, &ast, "[[1,2],[3,4]]", None, &no_texts()),
        "\\begin{pmatrix}1 & 2 \\\\ 3 & 4\\end{pmatrix}"
    );
}

#[test]
fn latex_top_level_symbolic_diff() {
    let r = EvalResult::Symbolic("2*x".to_string());
    let ast = AstNode::FunctionCall(
        "diff".to_string(),
        vec![
            AstNode::BinaryOp(
                BinaryOp::Pow,
                Box::new(AstNode::Variable("x".to_string())),
                Box::new(AstNode::Number(f64::to_bits(2.0))),
            ),
            AstNode::Variable("x".to_string()),
        ],
    );
    let s = format_latex(&r, &ast, "diff(x^2,x)", None, &no_texts());
    assert_eq!(s, "\\frac{d}{dx}\\left(x^{2}\\right) = 2 \\cdot x");
}

#[test]
fn latex_top_level_latex_passthrough() {
    let r = EvalResult::LaTeX("\\alpha".to_string());
    let ast = AstNode::Number(f64::to_bits(0.0));
    assert_eq!(format_latex(&r, &ast, "", None, &no_texts()), "\\alpha");
}

#[test]
fn latex_top_level_steps_join() {
    let r = EvalResult::Steps(vec!["2+9=11".to_string(), "11*7=77".to_string()]);
    let ast = AstNode::Number(f64::to_bits(0.0));
    assert_eq!(format_latex(&r, &ast, "", None, &no_texts()), "2+9=11 \\to 11*7=77");
}

#[test]
fn latex_symbolic_str_to_latex_multiplies() {
    assert_eq!(symbolic_str_to_latex("2*x*y"), "2 \\cdot x \\cdot y");
}

#[test]
fn latex_ast_to_latex_expr_pow() {
    let node = AstNode::BinaryOp(
        BinaryOp::Pow,
        Box::new(AstNode::Variable("x".to_string())),
        Box::new(AstNode::Number(f64::to_bits(2.0))),
    );
    assert_eq!(ast_to_latex_expr(&node, &no_texts()), Some("x^{2}".to_string()));
}

#[test]
fn latex_ast_to_latex_expr_div() {
    let node = AstNode::BinaryOp(
        BinaryOp::Div,
        Box::new(AstNode::Number(f64::to_bits(1.0))),
        Box::new(AstNode::Number(f64::to_bits(2.0))),
    );
    assert_eq!(ast_to_latex_expr(&node, &no_texts()), Some("\\frac{1}{2}".to_string()));
}

#[test]
fn latex_ast_to_latex_expr_unary_neg() {
    let node = AstNode::UnaryOp(UnaryOp::Neg, Box::new(AstNode::Variable("x".to_string())));
    assert_eq!(ast_to_latex_expr(&node, &no_texts()), Some("-x".to_string()));
}

#[test]
fn latex_ast_to_latex_expr_factorial() {
    let node = AstNode::UnaryOp(UnaryOp::Factorial, Box::new(AstNode::Number(f64::to_bits(5.0))));
    assert_eq!(ast_to_latex_expr(&node, &no_texts()), Some("5!".to_string()));
}

#[test]
fn latex_symbolic_non_functioncall_ast() {
    let ast = AstNode::Number(f64::to_bits(0.0));
    let s = format_latex_symbolic("diff", &ast, "2*x", &no_texts());
    assert_eq!(s, "2 \\cdot x");
}

#[test]
fn latex_symbolic_series_branch() {
    let ast = AstNode::FunctionCall(
        "series".to_string(),
        vec![AstNode::Variable("x".to_string())],
    );
    let s = format_latex_symbolic("series", &ast, "1+x+x^2", &no_texts());
    assert!(s.contains("\\text{Taylor series of}"));
    assert!(s.contains("x"));
}

#[test]
fn latex_symbolic_taylor_branch() {
    let ast = AstNode::FunctionCall(
        "taylor".to_string(),
        vec![AstNode::Variable("x".to_string())],
    );
    let s = format_latex_symbolic("taylor", &ast, "1+x", &no_texts());
    assert!(s.contains("\\text{Taylor series of}"));
}

#[test]
fn latex_symbolic_unknown_op() {
    let ast = AstNode::FunctionCall(
        "unknown".to_string(),
        vec![AstNode::Variable("x".to_string())],
    );
    let s = format_latex_symbolic("unknown", &ast, "42", &no_texts());
    assert_eq!(s, "42");
}

#[test]
fn latex_ast_to_latex_expr_bignumber() {
    let node = AstNode::BigNumber("1234567890123456".to_string());
    assert_eq!(
        ast_to_latex_expr(&node, &no_texts()),
        Some("1234567890123456".to_string())
    );
}

#[test]
fn latex_ast_to_latex_expr_add_sub_mul_mod() {
    let add = AstNode::BinaryOp(
        BinaryOp::Add,
        Box::new(AstNode::Variable("a".to_string())),
        Box::new(AstNode::Variable("b".to_string())),
    );
    assert_eq!(ast_to_latex_expr(&add, &no_texts()), Some("a + b".to_string()));

    let sub = AstNode::BinaryOp(
        BinaryOp::Sub,
        Box::new(AstNode::Variable("a".to_string())),
        Box::new(AstNode::Variable("b".to_string())),
    );
    assert_eq!(ast_to_latex_expr(&sub, &no_texts()), Some("a - b".to_string()));

    let mul = AstNode::BinaryOp(
        BinaryOp::Mul,
        Box::new(AstNode::Variable("a".to_string())),
        Box::new(AstNode::Variable("b".to_string())),
    );
    assert_eq!(ast_to_latex_expr(&mul, &no_texts()), Some("a \\cdot b".to_string()));

    let modulo = AstNode::BinaryOp(
        BinaryOp::Mod,
        Box::new(AstNode::Variable("a".to_string())),
        Box::new(AstNode::Variable("b".to_string())),
    );
    assert_eq!(ast_to_latex_expr(&modulo, &no_texts()), Some("a \\bmod b".to_string()));
}

#[test]
fn latex_ast_to_latex_expr_abs() {
    let node = AstNode::UnaryOp(UnaryOp::Abs, Box::new(AstNode::Variable("x".to_string())));
    assert_eq!(
        ast_to_latex_expr(&node, &no_texts()),
        Some("\\left|x\\right|".to_string())
    );
}

#[test]
fn latex_ast_to_latex_expr_function_call() {
    let node = AstNode::FunctionCall(
        "sin".to_string(),
        vec![AstNode::Number(f64::to_bits(0.0)), AstNode::Variable("x".to_string())],
    );
    assert_eq!(ast_to_latex_expr(&node, &no_texts()), Some("sin(0, x)".to_string()));
}

#[test]
fn latex_ast_to_latex_expr_unsupported_returns_none() {
    let node = AstNode::Complex(f64::to_bits(1.0), f64::to_bits(2.0));
    assert_eq!(ast_to_latex_expr(&node, &no_texts()), None);

    let node = AstNode::Matrix(vec![vec![AstNode::Number(f64::to_bits(1.0))]]);
    assert_eq!(ast_to_latex_expr(&node, &no_texts()), None);

    let node = AstNode::List(vec![AstNode::Number(f64::to_bits(1.0))]);
    assert_eq!(ast_to_latex_expr(&node, &no_texts()), None);
}

#[test]
fn latex_top_level_complex() {
    let r = EvalResult::Complex(f64::to_bits(3.0), f64::to_bits(4.0));
    let ast = AstNode::Number(f64::to_bits(0.0));
    assert_eq!(format_latex(&r, &ast, "", None, &no_texts()), "3 + 4i");
}

#[test]
fn latex_top_level_vector() {
    let r = EvalResult::Vector(bits(&[1.0, 2.0, 3.0]));
    let ast = AstNode::Number(f64::to_bits(0.0));
    assert_eq!(format_latex(&r, &ast, "", None, &no_texts()), "\\left[1, 2, 3\\right]");
}

#[test]
fn latex_top_level_polynomial() {
    let r = EvalResult::Polynomial(bits(&[1.0, 2.0, 1.0]));
    let ast = AstNode::Number(f64::to_bits(0.0));
    assert_eq!(format_latex(&r, &ast, "", None, &no_texts()), "x^{2} + 2x + 1");
}

#[test]
fn latex_top_level_complex_list() {
    let r = EvalResult::ComplexList(vec![(f64::to_bits(1.0), f64::to_bits(2.0)), (f64::to_bits(3.0), f64::to_bits(-4.0))]);
    let ast = AstNode::Number(f64::to_bits(0.0));
    assert_eq!(
        format_latex(&r, &ast, "", None, &no_texts()),
        "\\left[1 + 2i, 3 - 4i\\right]"
    );
}

#[test]
fn latex_top_level_symbolic_non_matching_function() {
    let r = EvalResult::Symbolic("2*x".to_string());
    let ast = AstNode::FunctionCall("foo".to_string(), vec![]);
    assert_eq!(format_latex(&r, &ast, "", None, &no_texts()), "2 \\cdot x");
}

#[test]
fn latex_top_level_symbolic_non_function() {
    let r = EvalResult::Symbolic("2*x".to_string());
    let ast = AstNode::Number(f64::to_bits(0.0));
    assert_eq!(format_latex(&r, &ast, "", None, &no_texts()), "2 \\cdot x");
}

#[test]
fn latex_bigint() {
    let b = BigInt::from_i64(123456789);
    assert_eq!(format_latex_bigint(&b), "123456789");
}

#[test]
fn latex_bigrational_fraction() {
    let r = BigRational::new(BigInt::from_i64(1), BigInt::from_i64(3));
    assert_eq!(format_latex_bigrational(&r, None), "\\frac{1}{3}");
}

#[test]
fn latex_bigrational_decimal() {
    let r = BigRational::new(BigInt::from_i64(1), BigInt::from_i64(2));
    assert_eq!(format_latex_bigrational(&r, Some(3)), "0.500");
}

#[test]
fn latex_bigrational_zero_precision() {
    let r = BigRational::new(BigInt::from_i64(7), BigInt::from_i64(2));
    assert_eq!(format_latex_bigrational(&r, Some(0)), "3");
}

#[test]
fn latex_top_level_bigint() {
    let r = EvalResult::BigInt(BigInt::from_i64(42));
    let ast = AstNode::Number(f64::to_bits(0.0));
    assert_eq!(format_latex(&r, &ast, "", None, &no_texts()), "42");
}

#[test]
fn latex_top_level_bigrational() {
    let r = EvalResult::BigRational(BigRational::new(BigInt::from_i64(1), BigInt::from_i64(3)));
    let ast = AstNode::Number(f64::to_bits(0.0));
    assert_eq!(format_latex(&r, &ast, "", None, &no_texts()), "\\frac{1}{3}");
}

#[test]
fn latex_bigrational_negative_and_precision_through_format_latex() {
    let r = EvalResult::BigRational(BigRational::new(BigInt::from_i64(-2), BigInt::from_i64(3)));
    let ast = AstNode::Number(f64::to_bits(0.0));
    assert_eq!(format_latex(&r, &ast, "", None, &no_texts()), "\\frac{-2}{3}");
    assert_eq!(format_latex(&r, &ast, "", Some(4), &no_texts()), "-0.6666");
}

#[test]
fn latex_scalar_integer() {
    assert_eq!(format_latex_scalar(f64::to_bits(42.0), &no_texts()), "42");
    assert_eq!(format_latex_scalar(f64::to_bits(-7.0), &no_texts()), "-7");
}

#[test]
fn latex_scalar_decimal() {
    assert_eq!(format_latex_scalar(f64::to_bits(3.14), &decimal_texts(&[3.14])), "3.14");
}

#[test]
fn latex_scalar_nan_inf() {
    assert_eq!(format_latex_scalar(f64::to_bits(f64::NAN), &no_texts()), "\\text{NaN}");
    assert_eq!(format_latex_scalar(f64::to_bits(f64::INFINITY), &no_texts()), "\\infty");
    assert_eq!(format_latex_scalar(f64::to_bits(f64::NEG_INFINITY), &no_texts()), "-\\infty");
}

#[test]
fn latex_complex_positive_im() {
    assert_eq!(format_latex_complex(f64::to_bits(3.0), f64::to_bits(4.0), &no_texts()), "3 + 4i");
}

#[test]
fn latex_complex_negative_im() {
    assert_eq!(format_latex_complex(f64::to_bits(3.0), f64::to_bits(-4.0), &no_texts()), "3 - 4i");
}

#[test]
fn latex_matrix_2x2() {
    let m = vec![bits(&[1.0, 2.0]), bits(&[3.0, 4.0])];
    assert_eq!(format_latex_matrix(&m, &no_texts()), "\\begin{pmatrix}1 & 2 \\\\ 3 & 4\\end{pmatrix}");
}

#[test]
fn latex_vector() {
    assert_eq!(format_latex_vector(&bits(&[1.0, 2.0, 3.0]), &no_texts()), "\\left[1, 2, 3\\right]");
}

#[test]
fn latex_polynomial_simple() {
    assert_eq!(format_latex_polynomial(&bits(&[1.0, 2.0, 1.0]), &no_texts()), "x^{2} + 2x + 1");
}

#[test]
fn latex_polynomial_negative_coef() {
    assert_eq!(format_latex_polynomial(&bits(&[1.0, -1.0]), &no_texts()), "-x + 1");
}

#[test]
fn latex_polynomial_zero() {
    assert_eq!(format_latex_polynomial(&bits(&[]), &no_texts()), "0");
    assert_eq!(format_latex_polynomial(&bits(&[0.0, 0.0]), &no_texts()), "0");
}

#[test]
fn latex_complex_list() {
    let c = vec![(f64::to_bits(1.0), f64::to_bits(2.0)), (f64::to_bits(3.0), f64::to_bits(-4.0))];
    assert_eq!(format_latex_complex_list(&c, &no_texts()), "\\left[1 + 2i, 3 - 4i\\right]");
}

#[test]
fn latex_polynomial_leading_coef_one_x() {
    assert_eq!(format_latex_polynomial(&bits(&[5.0, 1.0]), &no_texts()), "x + 5");
}

#[test]
fn latex_polynomial_high_degree_neg_one_coef() {
    assert_eq!(format_latex_polynomial(&bits(&[0.0, 0.0, -1.0]), &no_texts()), "-x^{2}");
}

#[test]
fn latex_polynomial_high_degree_general_coef() {
    assert_eq!(format_latex_polynomial(&bits(&[0.0, 0.0, 3.0]), &no_texts()), "3x^{2}");
}

#[test]
fn latex_polynomial_negative_term_concatenation() {
    assert_eq!(format_latex_polynomial(&bits(&[1.0, -2.0, 1.0]), &no_texts()), "x^{2}-2x + 1");
}

#[test]
fn latex_scalar_without_text_shows_the_bits() {
    assert_eq!(format_latex_scalar(f64::to_bits(0.5), &no_texts()), "0x3FE0000000000000");
    assert_eq!(format_latex_scalar(f64::to_bits(1e300), &no_texts()), "9223372036854775807");
    assert_eq!(format_latex_scalar(f64::to_bits(-0.0), &no_texts()), "0");
}
