use calnexus::symbolic::{diff, format_taylor_term, integrate, symbolic_to_string, SymbolicExpr};

fn c(v: f64) -> Box<SymbolicExpr> {
    Box::new(SymbolicExpr::Const(v.to_bits()))
}

fn v(name: &str) -> Box<SymbolicExpr> {
    Box::new(SymbolicExpr::Var(name.to_string()))
}

/// The printed form with the decimal texts a binary64 `{}` gives.
fn show(e: &SymbolicExpr, values: &[f64]) -> String {
    let texts: Vec<(u64, String)> = values.iter().map(|x| (x.to_bits(), format!("{}", x))).collect();
    symbolic_to_string(e, &texts)
}

#[test]
fn test_symbolic_to_string_basic() {
    let sym = SymbolicExpr::Add(c(2.0), v("x"));
    assert_eq!(show(&sym, &[]), "2+x");
}

#[test]
fn test_symbolic_to_string_sub_with_add_parens() {
    let expr = SymbolicExpr::Sub(v("a"), Box::new(SymbolicExpr::Add(v("b"), v("c"))));
    assert_eq!(show(&expr, &[]), "a-(b+c)");
}

#[test]
fn test_symbolic_to_string_sub_with_sub_parens() {
    let expr = SymbolicExpr::Sub(v("a"), Box::new(SymbolicExpr::Sub(v("b"), v("c"))));
    assert_eq!(show(&expr, &[]), "a-(b-c)");
}

#[test]
fn test_symbolic_to_string_sub_plain() {
    let expr = SymbolicExpr::Sub(v("a"), v("b"));
    assert_eq!(show(&expr, &[]), "a-b");
}

#[test]
fn test_symbolic_to_string_pow_complex_operands() {
    let expr = SymbolicExpr::Pow(
        Box::new(SymbolicExpr::Add(v("x"), c(1.0))),
        Box::new(SymbolicExpr::Sub(v("x"), c(1.0))),
    );
    assert_eq!(show(&expr, &[]), "(x+1)^(x-1)");
}

#[test]
fn test_symbolic_to_string_pow_simple_operands() {
    let expr = SymbolicExpr::Pow(v("x"), c(2.0));
    assert_eq!(show(&expr, &[]), "x^2");
}

#[test]
fn test_symbolic_to_string_neg_with_add() {
    let expr = SymbolicExpr::Neg(Box::new(SymbolicExpr::Add(v("x"), c(1.0))));
    assert_eq!(show(&expr, &[]), "-(x+1)");
}

#[test]
fn test_symbolic_to_string_neg_with_sub() {
    let expr = SymbolicExpr::Neg(Box::new(SymbolicExpr::Sub(v("x"), c(1.0))));
    assert_eq!(show(&expr, &[]), "-(x-1)");
}

#[test]
fn test_symbolic_to_string_neg_simple() {
    let expr = SymbolicExpr::Neg(v("x"));
    assert_eq!(show(&expr, &[]), "-x");
}

#[test]
fn test_symbolic_to_string_div_and_mul_with_parens() {
    let expr = SymbolicExpr::Div(
        Box::new(SymbolicExpr::Add(v("x"), c(1.0))),
        Box::new(SymbolicExpr::Sub(v("x"), c(1.0))),
    );
    assert_eq!(show(&expr, &[]), "(x+1)/(x-1)");
    let expr = SymbolicExpr::Mul(Box::new(SymbolicExpr::Add(v("x"), c(1.0))), v("x"));
    assert_eq!(show(&expr, &[]), "(x+1)*x");
}

#[test]
fn test_symbolic_to_string_tan_ln_exp() {
    assert_eq!(show(&SymbolicExpr::Tan(v("x")), &[]), "tan(x)");
    assert_eq!(show(&SymbolicExpr::Ln(v("x")), &[]), "ln(x)");
    assert_eq!(show(&SymbolicExpr::Exp(v("x")), &[]), "exp(x)");
}

#[test]
fn symbolic_constants_print_as_integers_or_supplied_text() {
    assert_eq!(show(&SymbolicExpr::Const((-3.0f64).to_bits()), &[]), "-3");
    assert_eq!(show(&SymbolicExpr::Const((-0.0f64).to_bits()), &[]), "0");
    assert_eq!(show(&SymbolicExpr::Mul(c(0.5), v("x")), &[0.5]), "0.5*x");
    assert_eq!(show(&SymbolicExpr::Const(1e20f64.to_bits()), &[1e20]), "100000000000000000000");
    assert_eq!(show(&SymbolicExpr::Const(9999999999999998.0f64.to_bits()), &[]), "9999999999999998");
    assert_eq!(show(&SymbolicExpr::Const(0.25f64.to_bits()), &[]), "0x3FD0000000000000");
    assert_eq!(show(&SymbolicExpr::Sin(Box::new(SymbolicExpr::Mul(c(2.0), v("x")))), &[]), "sin(2*x)");
    assert_eq!(show(&SymbolicExpr::Pow(Box::new(SymbolicExpr::Sin(v("x"))), c(2.0)), &[]), "(sin(x))^2");
    assert_eq!(show(&SymbolicExpr::Mul(Box::new(SymbolicExpr::Pow(v("x"), c(2.0))), c(3.0)), &[]), "x^2*3");
}

#[test]
fn symbolic_constant_queries() {
    assert!(SymbolicExpr::Const(0.0f64.to_bits()).is_zero());
    assert!(SymbolicExpr::Const((-0.0f64).to_bits()).is_zero());
    assert!(!SymbolicExpr::Const(1.0f64.to_bits()).is_zero());
    assert!(SymbolicExpr::Const(1.0f64.to_bits()).is_one());
    assert!(!SymbolicExpr::Var("x".to_string()).is_one());
    assert_eq!(SymbolicExpr::Const(2.5f64.to_bits()).as_const(), Some(2.5f64.to_bits()));
    assert_eq!(SymbolicExpr::Var("x".to_string()).as_const(), None);
}

#[test]
fn taylor_terms_print_coefficient_variable_and_power() {
    let texts = vec![(0.5f64.to_bits(), "0.5".to_string())];
    assert_eq!(format_taylor_term(0.5f64.to_bits(), "x", 0, &texts), "0.5");
    assert_eq!(format_taylor_term(1.0f64.to_bits(), "x", 0, &texts), "1");
    assert_eq!(format_taylor_term(1.0f64.to_bits(), "x", 1, &texts), "x");
    assert_eq!(format_taylor_term(0.5f64.to_bits(), "x", 1, &texts), "0.5*x");
    assert_eq!(format_taylor_term(1.0f64.to_bits(), "x", 2, &texts), "x^2");
    assert_eq!(format_taylor_term((-2.0f64).to_bits(), "t", 12, &texts), "-2*t^12");
}

/// Every constant exponent of a power in `e`, paired with `shift` of it.
fn exponents(e: &SymbolicExpr, shift: f64, out: &mut Vec<(u64, u64)>) {
    match e {
        SymbolicExpr::Const(_) | SymbolicExpr::Var(_) => {}
        SymbolicExpr::Pow(l, r) => {
            if let SymbolicExpr::Const(n) = r.as_ref() {
                out.push((*n, (f64::from_bits(*n) + shift).to_bits()));
            }
            exponents(l, shift, out);
            exponents(r, shift, out);
        }
        SymbolicExpr::Add(l, r) | SymbolicExpr::Sub(l, r) | SymbolicExpr::Mul(l, r) | SymbolicExpr::Div(l, r) => {
            exponents(l, shift, out);
            exponents(r, shift, out);
        }
        SymbolicExpr::Neg(x)
        | SymbolicExpr::Ln(x)
        | SymbolicExpr::Sin(x)
        | SymbolicExpr::Cos(x)
        | SymbolicExpr::Tan(x)
        | SymbolicExpr::Exp(x) => exponents(x, shift, out),
    }
}

fn d(e: &SymbolicExpr, var: &str) -> SymbolicExpr {
    let mut t = Vec::new();
    exponents(e, -1.0, &mut t);
    diff(e, var, &t)
}

fn antideriv(e: &SymbolicExpr, var: &str) -> Result<SymbolicExpr, calnexus::error::CalcError> {
    let mut t = Vec::new();
    exponents(e, 1.0, &mut t);
    integrate(e, &var.to_string(), &t)
}

#[test]
fn symbolic_test_diff_constant() {
    let expr = SymbolicExpr::Const(5.0f64.to_bits());
    assert_eq!(d(&expr, "x"), SymbolicExpr::Const(0.0f64.to_bits()));
}

#[test]
fn test_integrate_unsupported_returns_error() {
    let expr = SymbolicExpr::Mul(Box::new(SymbolicExpr::Sin(v("x"))), Box::new(SymbolicExpr::Cos(v("x"))));
    assert!(antideriv(&expr, "x").is_err());
}

#[test]
fn test_diff_pow_non_constant_exponent() {
    let expr = SymbolicExpr::Pow(v("x"), v("x"));
    let result = d(&expr, "x");
    assert!(matches!(result, SymbolicExpr::Mul(_, _)));
    let s = show(&result, &[]);
    assert!(s.contains("ln(x)"), "expected ln(x) in: {}", s);
}

#[test]
fn symbolic_test_diff_tan() {
    let expr = SymbolicExpr::Tan(v("x"));
    let s = show(&d(&expr, "x"), &[]);
    assert!(s.contains("cos(x)"), "expected cos(x) in: {}", s);
    assert!(s.contains("^2"), "expected ^2 in: {}", s);
}

#[test]
fn test_diff_variable_not_matching() {
    let expr = SymbolicExpr::Var("y".to_string());
    assert_eq!(d(&expr, "x"), SymbolicExpr::Const(0.0f64.to_bits()));
}

#[test]
fn test_integrate_tan_unsupported() {
    assert!(antideriv(&SymbolicExpr::Tan(v("x")), "x").is_err());
}

#[test]
fn test_integrate_ln_unsupported() {
    assert!(antideriv(&SymbolicExpr::Ln(v("x")), "x").is_err());
}

#[test]
fn test_integrate_pow_non_variable_base() {
    let expr = SymbolicExpr::Pow(Box::new(SymbolicExpr::Add(v("x"), c(1.0))), c(2.0));
    assert!(antideriv(&expr, "x").is_err());
}

#[test]
fn test_integrate_pow_different_var_base() {
    let expr = SymbolicExpr::Pow(v("y"), c(2.0));
    assert!(antideriv(&expr, "x").is_err());
}

#[test]
fn test_integrate_sin_non_var_error() {
    let expr = SymbolicExpr::Sin(Box::new(SymbolicExpr::Pow(v("x"), c(2.0))));
    assert!(antideriv(&expr, "x").is_err());
}

#[test]
fn test_integrate_cos_non_var_error() {
    assert!(antideriv(&SymbolicExpr::Cos(v("y")), "x").is_err());
}

#[test]
fn test_integrate_exp_non_var_error() {
    assert!(antideriv(&SymbolicExpr::Exp(v("y")), "x").is_err());
}

#[test]
fn test_integrate_div_non_one_over_var_error() {
    let expr = SymbolicExpr::Div(v("x"), c(2.0));
    assert!(antideriv(&expr, "x").is_err());
}

#[test]
fn test_integrate_pow_neg_one() {
    let expr = SymbolicExpr::Pow(v("x"), c(-1.0));
    assert_eq!(antideriv(&expr, "x").unwrap(), SymbolicExpr::Ln(v("x")));
}

#[test]
fn test_integrate_div_one_over_var() {
    let expr = SymbolicExpr::Div(c(1.0), v("x"));
    assert_eq!(antideriv(&expr, "x").unwrap(), SymbolicExpr::Ln(v("x")));
}

#[test]
fn derivatives_follow_the_rules_unsimplified() {
    assert_eq!(show(&d(&SymbolicExpr::Pow(v("x"), c(3.0)), "x"), &[]), "(3*x^2)*1");
    assert_eq!(show(&d(&SymbolicExpr::Pow(v("x"), c(2.5)), "x"), &[2.5, 1.5]), "(2.5*x^1.5)*1");
    assert_eq!(show(&d(&SymbolicExpr::Sin(v("x")), "x"), &[]), "cos(x)*1");
    assert_eq!(show(&d(&SymbolicExpr::Cos(v("x")), "x"), &[]), "(-sin(x))*1");
    assert_eq!(show(&d(&SymbolicExpr::Exp(v("x")), "x"), &[]), "exp(x)*1");
    assert_eq!(show(&d(&SymbolicExpr::Ln(v("x")), "x"), &[]), "(1/x)*1");
    assert_eq!(show(&d(&SymbolicExpr::Mul(v("x"), v("y")), "x"), &[]), "1*y+x*0");
    assert_eq!(show(&d(&SymbolicExpr::Div(v("x"), v("y")), "x"), &[]), "(1*y-x*0)/y^2");
    assert_eq!(show(&d(&SymbolicExpr::Neg(v("x")), "x"), &[]), "-1");
    assert_eq!(show(&d(&SymbolicExpr::Sub(v("x"), c(4.0)), "x"), &[]), "1-0");
}

#[test]
fn antiderivatives_of_the_supported_forms() {
    assert_eq!(show(&antideriv(&c(3.0), "x").unwrap(), &[]), "3*x");
    assert_eq!(show(&antideriv(&SymbolicExpr::Var("x".to_string()), "x").unwrap(), &[]), "x^2/2");
    assert_eq!(show(&antideriv(&SymbolicExpr::Var("y".to_string()), "x").unwrap(), &[]), "y*x");
    assert_eq!(show(&antideriv(&SymbolicExpr::Pow(v("x"), c(2.0)), "x").unwrap(), &[]), "x^3/3");
    assert_eq!(show(&antideriv(&SymbolicExpr::Mul(c(2.0), Box::new(SymbolicExpr::Sin(v("x")))), "x").unwrap(), &[]), "2*(-cos(x))");
    assert_eq!(show(&antideriv(&SymbolicExpr::Mul(Box::new(SymbolicExpr::Cos(v("x"))), c(5.0)), "x").unwrap(), &[]), "5*sin(x)");
    assert_eq!(show(&antideriv(&SymbolicExpr::Add(Box::new(SymbolicExpr::Exp(v("x"))), c(1.0)), "x").unwrap(), &[]), "exp(x)+1*x");
    assert_eq!(show(&antideriv(&SymbolicExpr::Neg(v("x")), "x").unwrap(), &[]), "-x^2/2");
    let e = antideriv(&SymbolicExpr::Add(Box::new(SymbolicExpr::Tan(v("x"))), Box::new(SymbolicExpr::Mul(v("x"), v("x")))), "x").unwrap_err();
    assert_eq!(e.message, "integrate() does not support ln/tan forms");
    let e = antideriv(&SymbolicExpr::Sub(c(1.0), Box::new(SymbolicExpr::Mul(v("x"), v("x")))), "x").unwrap_err();
    assert_eq!(e.message, "integrate() does not support product of two non-constant expressions");
}
