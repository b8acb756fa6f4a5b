//! Symbolic expressions and their printed form.
//!
//! Constants are binary64 values held as bit patterns. A constant that is an
//! integer of magnitude below 10^16 prints as that integer; any other
//! constant prints as the decimal text the caller supplies for its bits (the
//! shortest decimal form is floating-point formatting), or as its bit pattern
//! in hexadecimal when none is supplied.

use vstd::prelude::*;
use crate::ast::{f64_integral_to_i64, f64_is_integral, f64_integral_value, saturate_i64};
use crate::latex::{find_text, hex_digits, lookup_text, push_hex};
use crate::text::{int_decimal, nat_decimal, owned, push_i64, push_str, push_u64, str_eq};
use crate::error::{CalcError, ErrorKind};

verus! {

/// A symbolic expression in one or more variables.
#[derive(Debug, PartialEq)]
pub enum SymbolicExpr {
    /// A constant: the bit pattern of its binary64 value.
    Const(u64),
    Var(String),
    Add(Box<SymbolicExpr>, Box<SymbolicExpr>),
    Sub(Box<SymbolicExpr>, Box<SymbolicExpr>),
    Mul(Box<SymbolicExpr>, Box<SymbolicExpr>),
    Div(Box<SymbolicExpr>, Box<SymbolicExpr>),
    Pow(Box<SymbolicExpr>, Box<SymbolicExpr>),
    Neg(Box<SymbolicExpr>),
    Ln(Box<SymbolicExpr>),
    Sin(Box<SymbolicExpr>),
    Cos(Box<SymbolicExpr>),
    Tan(Box<SymbolicExpr>),
    Exp(Box<SymbolicExpr>),
}

/// The bit pattern of `1.0`.
pub const ONE_BITS: u64 = 0x3FF0_0000_0000_0000;

/// The bit pattern of `-0.0`.
pub const NEG_ZERO_BITS: u64 = 0x8000_0000_0000_0000;

/// The bit pattern of `0.0`.
pub const ZERO_BITS: u64 = 0;

/// The bit pattern of `2.0`.
pub const TWO_BITS: u64 = 0x4000_0000_0000_0000;

/// The bit pattern of `-1.0`.
pub const MINUS_ONE_BITS: u64 = 0xBFF0_0000_0000_0000;

impl SymbolicExpr {
    /// The value of a constant, `None` for any other expression.
    pub fn as_const(&self) -> (r: Option<u64>)
        ensures
            r == (match *self {
                SymbolicExpr::Const(b) => Some(b),
                _ => None::<u64>,
            }),
    {
        match self {
            SymbolicExpr::Const(b) => Some(*b),
            _ => None,
        }
    }

    /// Whether the expression is the constant zero (of either sign).
    pub fn is_zero(&self) -> (r: bool)
        ensures
            r == (*self matches SymbolicExpr::Const(b) && (b == 0 || b == NEG_ZERO_BITS)),
    {
        match self {
            SymbolicExpr::Const(b) => *b == 0 || *b == NEG_ZERO_BITS,
            _ => false,
        }
    }

    /// Whether the expression is the constant one.
    pub fn is_one(&self) -> (r: bool)
        ensures
            r == (*self matches SymbolicExpr::Const(b) && b == ONE_BITS),
    {
        match self {
            SymbolicExpr::Const(b) => *b == ONE_BITS,
            _ => false,
        }
    }
}

/// The printed form of a constant: an integer of magnitude below 10^16 as
/// that integer, anything else as its supplied text (or its bits in
/// hexadecimal when no text is supplied).
pub open spec fn spec_number_text(bits: u64, texts: Seq<(u64, String)>) -> Seq<char> {
    if f64_is_integral(bits) && -10_000_000_000_000_000 < f64_integral_value(bits) < 10_000_000_000_000_000 {
        int_decimal(f64_integral_value(bits))
    } else {
        match lookup_text(texts, bits) {
            Some(t) => t,
            None => "0x"@ + hex_digits(bits as nat, 16),
        }
    }
}

/// A sum or a difference, which a minus sign or a product must bracket.
pub open spec fn is_sum(e: SymbolicExpr) -> bool {
    e is Add || e is Sub
}

/// A constant or a variable, which a power leaves unbracketed.
pub open spec fn is_atom(e: SymbolicExpr) -> bool {
    e is Const || e is Var
}

/// An operand a product or a quotient leaves unbracketed: an atom, a function
/// application or a power.
pub open spec fn is_factor(e: SymbolicExpr) -> bool {
    e is Const || e is Var || e is Sin || e is Cos || e is Tan || e is Ln || e is Exp || e is Pow
}

/// `s`, in parentheses when `bracket` holds.
pub open spec fn bracketed(bracket: bool, s: Seq<char>) -> Seq<char> {
    if bracket { "("@ + s + ")"@ } else { s }
}

/// The printed form of an expression: `+`, `-`, `*`, `/` and `^` between
/// operands with the fewest brackets the grammar needs, `-` before a negated
/// operand, and `ln`, `sin`, `cos`, `tan`, `exp` applied in parentheses.
pub open spec fn spec_symbolic_string(e: SymbolicExpr, texts: Seq<(u64, String)>) -> Seq<char>
    decreases e,
{
    match e {
        SymbolicExpr::Const(b) => spec_number_text(b, texts),
        SymbolicExpr::Var(s) => s@,
        SymbolicExpr::Add(l, r) => spec_symbolic_string(*l, texts) + "+"@ + spec_symbolic_string(*r, texts),
        SymbolicExpr::Sub(l, r) => spec_symbolic_string(*l, texts) + "-"@
            + bracketed(is_sum(*r), spec_symbolic_string(*r, texts)),
        SymbolicExpr::Mul(l, r) => bracketed(!is_factor(*l), spec_symbolic_string(*l, texts)) + "*"@
            + bracketed(!is_factor(*r), spec_symbolic_string(*r, texts)),
        SymbolicExpr::Div(l, r) => bracketed(!is_factor(*l), spec_symbolic_string(*l, texts)) + "/"@
            + bracketed(!is_factor(*r), spec_symbolic_string(*r, texts)),
        SymbolicExpr::Pow(l, r) => bracketed(!is_atom(*l), spec_symbolic_string(*l, texts)) + "^"@
            + bracketed(!is_atom(*r), spec_symbolic_string(*r, texts)),
        SymbolicExpr::Neg(x) => "-"@ + bracketed(is_sum(*x), spec_symbolic_string(*x, texts)),
        SymbolicExpr::Ln(x) => "ln("@ + spec_symbolic_string(*x, texts) + ")"@,
        SymbolicExpr::Sin(x) => "sin("@ + spec_symbolic_string(*x, texts) + ")"@,
        SymbolicExpr::Cos(x) => "cos("@ + spec_symbolic_string(*x, texts) + ")"@,
        SymbolicExpr::Tan(x) => "tan("@ + spec_symbolic_string(*x, texts) + ")"@,
        SymbolicExpr::Exp(x) => "exp("@ + spec_symbolic_string(*x, texts) + ")"@,
    }
}

/// Appends the printed form of a constant.
fn push_number(s: &mut String, bits: u64, texts: &Vec<(u64, String)>)
    ensures
        final(s)@ == old(s)@ + spec_number_text(bits, texts@),
{
    match f64_integral_to_i64(bits) {
        Some(v) => {
            if -10_000_000_000_000_000 < v && v < 10_000_000_000_000_000 {
                assert(saturate_i64(f64_integral_value(bits)) == f64_integral_value(bits));
                push_i64(s, v);
                return;
            }
        },
        None => {},
    }
    match find_text(texts, bits) {
        Some(t) => push_str(s, t.as_str()),
        None => {
            push_str(s, "0x");
            push_hex(s, bits, 16);
        },
    }
}

fn is_sum_exec(e: &SymbolicExpr) -> (r: bool)
    ensures
        r == is_sum(*e),
{
    match e {
        SymbolicExpr::Add(_, _) | SymbolicExpr::Sub(_, _) => true,
        _ => false,
    }
}

fn is_atom_exec(e: &SymbolicExpr) -> (r: bool)
    ensures
        r == is_atom(*e),
{
    match e {
        SymbolicExpr::Const(_) | SymbolicExpr::Var(_) => true,
        _ => false,
    }
}

fn is_factor_exec(e: &SymbolicExpr) -> (r: bool)
    ensures
        r == is_factor(*e),
{
    match e {
        SymbolicExpr::Const(_) | SymbolicExpr::Var(_) | SymbolicExpr::Sin(_) | SymbolicExpr::Cos(_)
        | SymbolicExpr::Tan(_) | SymbolicExpr::Ln(_) | SymbolicExpr::Exp(_) | SymbolicExpr::Pow(_, _) => true,
        _ => false,
    }
}

/// Appends the printed form of an expression, in parentheses when `bracket`.
fn push_bracketed(s: &mut String, bracket: bool, e: &SymbolicExpr, texts: &Vec<(u64, String)>)
    ensures
        final(s)@ == old(s)@ + bracketed(bracket, spec_symbolic_string(*e, texts@)),
    decreases e, 1nat,
{
    if bracket {
        push_str(s, "(");
        push_symbolic(s, e, texts);
        push_str(s, ")");
    } else {
        push_symbolic(s, e, texts);
    }
}

/// Appends `open` (a function name and an opening bracket), the argument
/// and a closing bracket.
fn push_applied(s: &mut String, open: &str, e: &SymbolicExpr, texts: &Vec<(u64, String)>)
    ensures
        final(s)@ == old(s)@ + open@ + spec_symbolic_string(*e, texts@) + ")"@,
    decreases e, 1nat,
{
    push_str(s, open);
    push_symbolic(s, e, texts);
    push_str(s, ")");
}

/// Appends the printed form of an expression.
fn push_symbolic(s: &mut String, e: &SymbolicExpr, texts: &Vec<(u64, String)>)
    ensures
        final(s)@ == old(s)@ + spec_symbolic_string(*e, texts@),
    decreases e, 0nat,
{
    match e {
        SymbolicExpr::Const(b) => push_number(s, *b, texts),
        SymbolicExpr::Var(v) => push_str(s, v.as_str()),
        SymbolicExpr::Add(l, r) => {
            push_symbolic(s, l, texts);
            push_str(s, "+");
            push_symbolic(s, r, texts);
        },
        SymbolicExpr::Sub(l, r) => {
            push_symbolic(s, l, texts);
            push_str(s, "-");
            push_bracketed(s, is_sum_exec(r), r, texts);
        },
        SymbolicExpr::Mul(l, r) => {
            push_bracketed(s, !is_factor_exec(l), l, texts);
            push_str(s, "*");
            push_bracketed(s, !is_factor_exec(r), r, texts);
        },
        SymbolicExpr::Div(l, r) => {
            push_bracketed(s, !is_factor_exec(l), l, texts);
            push_str(s, "/");
            push_bracketed(s, !is_factor_exec(r), r, texts);
        },
        SymbolicExpr::Pow(l, r) => {
            push_bracketed(s, !is_atom_exec(l), l, texts);
            push_str(s, "^");
            push_bracketed(s, !is_atom_exec(r), r, texts);
        },
        SymbolicExpr::Neg(x) => {
            push_str(s, "-");
            push_bracketed(s, is_sum_exec(x), x, texts);
        },
        SymbolicExpr::Ln(x) => push_applied(s, "ln(", x, texts),
        SymbolicExpr::Sin(x) => push_applied(s, "sin(", x, texts),
        SymbolicExpr::Cos(x) => push_applied(s, "cos(", x, texts),
        SymbolicExpr::Tan(x) => push_applied(s, "tan(", x, texts),
        SymbolicExpr::Exp(x) => push_applied(s, "exp(", x, texts),
    }
}

/// The printed form of an expression (see `spec_symbolic_string`), with
/// `texts` giving the decimal text of constants that are not small integers.
pub fn symbolic_to_string(expr: &SymbolicExpr, texts: &Vec<(u64, String)>) -> (r: String)
    ensures
        r@ == spec_symbolic_string(*expr, texts@),
{
    let mut s = String::new();
    push_symbolic(&mut s, expr, texts);
    s
}

/// A term `c * var^k` of a Taylor polynomial: the coefficient alone for
/// `k == 0`, without the power for `k == 1`, and without the coefficient when
/// it is one.
pub open spec fn spec_taylor_term(coeff: u64, var: Seq<char>, k: u32, texts: Seq<(u64, String)>) -> Seq<char> {
    let c = spec_number_text(coeff, texts);
    if k == 0 {
        c
    } else if k == 1 {
        if coeff == ONE_BITS { var } else { c + "*"@ + var }
    } else {
        let p = var + "^"@ + nat_decimal(k as nat);
        if coeff == ONE_BITS { p } else { c + "*"@ + p }
    }
}

/// The printed term `coeff * var^k` of a Taylor polynomial (see
/// `spec_taylor_term`).
pub fn format_taylor_term(coeff: u64, var: &str, k: u32, texts: &Vec<(u64, String)>) -> (r: String)
    ensures
        r@ == spec_taylor_term(coeff, var@, k, texts@),
{
    let mut s = String::new();
    if k == 0 {
        push_number(&mut s, coeff, texts);
        return s;
    }
    if coeff != ONE_BITS {
        push_number(&mut s, coeff, texts);
        push_str(&mut s, "*");
    }
    push_str(&mut s, var);
    if k > 1 {
        push_str(&mut s, "^");
        push_u64(&mut s, k as u64);
    }
    s
}

// ---------------------------------------------------------------------------
// Derivatives and integrals
// ---------------------------------------------------------------------------

/// The value paired with `k` in a table of bit patterns: the first entry.
pub open spec fn lookup_bits(t: Seq<(u64, u64)>, k: u64) -> Option<u64>
    decreases t.len(),
{
    if t.len() == 0 {
        None
    } else if t[0].0 == k {
        Some(t[0].1)
    } else {
        lookup_bits(t.drop_first(), k)
    }
}

fn find_bits(t: &Vec<(u64, u64)>, k: u64) -> (r: Option<u64>)
    ensures
        r == lookup_bits(t@, k),
{
    let mut i: usize = 0;
    assert(t@.skip(0) =~= t@);
    while i < t.len()
        invariant
            i <= t@.len(),
            lookup_bits(t@, k) == lookup_bits(t@.skip(i as int), k),
        decreases t@.len() - i,
    {
        assert(t@.skip(i as int).drop_first() =~= t@.skip(i + 1));
        if t[i].0 == k {
            return Some(t[i].1);
        }
        i = i + 1;
    }
    None
}

/// Every constant exponent of a power in `e` has an entry in `t`.
pub open spec fn exponents_in(e: SymbolicExpr, t: Seq<(u64, u64)>) -> bool
    decreases e,
{
    match e {
        SymbolicExpr::Const(_) => true,
        SymbolicExpr::Var(_) => true,
        SymbolicExpr::Add(l, r) => exponents_in(*l, t) && exponents_in(*r, t),
        SymbolicExpr::Sub(l, r) => exponents_in(*l, t) && exponents_in(*r, t),
        SymbolicExpr::Mul(l, r) => exponents_in(*l, t) && exponents_in(*r, t),
        SymbolicExpr::Div(l, r) => exponents_in(*l, t) && exponents_in(*r, t),
        SymbolicExpr::Pow(l, r) => exponents_in(*l, t) && exponents_in(*r, t) && match *r {
            SymbolicExpr::Const(n) => lookup_bits(t, n) is Some,
            _ => true,
        },
        SymbolicExpr::Neg(x) => exponents_in(*x, t),
        SymbolicExpr::Ln(x) => exponents_in(*x, t),
        SymbolicExpr::Sin(x) => exponents_in(*x, t),
        SymbolicExpr::Cos(x) => exponents_in(*x, t),
        SymbolicExpr::Tan(x) => exponents_in(*x, t),
        SymbolicExpr::Exp(x) => exponents_in(*x, t),
    }
}

/// A copy of an expression.
pub fn clone_expr(e: &SymbolicExpr) -> (r: SymbolicExpr)
    ensures
        r == *e,
    decreases e,
{
    match e {
        SymbolicExpr::Const(b) => SymbolicExpr::Const(*b),
        SymbolicExpr::Var(v) => SymbolicExpr::Var(v.clone()),
        SymbolicExpr::Add(l, r) => SymbolicExpr::Add(Box::new(clone_expr(l)), Box::new(clone_expr(r))),
        SymbolicExpr::Sub(l, r) => SymbolicExpr::Sub(Box::new(clone_expr(l)), Box::new(clone_expr(r))),
        SymbolicExpr::Mul(l, r) => SymbolicExpr::Mul(Box::new(clone_expr(l)), Box::new(clone_expr(r))),
        SymbolicExpr::Div(l, r) => SymbolicExpr::Div(Box::new(clone_expr(l)), Box::new(clone_expr(r))),
        SymbolicExpr::Pow(l, r) => SymbolicExpr::Pow(Box::new(clone_expr(l)), Box::new(clone_expr(r))),
        SymbolicExpr::Neg(x) => SymbolicExpr::Neg(Box::new(clone_expr(x))),
        SymbolicExpr::Ln(x) => SymbolicExpr::Ln(Box::new(clone_expr(x))),
        SymbolicExpr::Sin(x) => SymbolicExpr::Sin(Box::new(clone_expr(x))),
        SymbolicExpr::Cos(x) => SymbolicExpr::Cos(Box::new(clone_expr(x))),
        SymbolicExpr::Tan(x) => SymbolicExpr::Tan(Box::new(clone_expr(x))),
        SymbolicExpr::Exp(x) => SymbolicExpr::Exp(Box::new(clone_expr(x))),
    }
}

/// `l * r` as an expression.
pub open spec fn mul_of(l: SymbolicExpr, r: SymbolicExpr) -> SymbolicExpr {
    SymbolicExpr::Mul(Box::new(l), Box::new(r))
}

/// The derivative by `var`, by the sum, product, quotient and chain rules and
/// the derivatives of the elementary functions, unsimplified. For a power
/// with a constant exponent `n` the new exponent is `decrements[n]` (the
/// binary64 value `n - 1`, supplied by the caller); any other power is
/// differentiated as `f^g * (g' * ln f + g * f' / f)`.
pub open spec fn spec_diff(e: SymbolicExpr, var: Seq<char>, decrements: Seq<(u64, u64)>) -> SymbolicExpr
    decreases e,
{
    match e {
        SymbolicExpr::Const(_) => SymbolicExpr::Const(ZERO_BITS),
        SymbolicExpr::Var(name) => SymbolicExpr::Const(if name@ == var { ONE_BITS } else { ZERO_BITS }),
        SymbolicExpr::Add(l, r) => SymbolicExpr::Add(
            Box::new(spec_diff(*l, var, decrements)),
            Box::new(spec_diff(*r, var, decrements)),
        ),
        SymbolicExpr::Sub(l, r) => SymbolicExpr::Sub(
            Box::new(spec_diff(*l, var, decrements)),
            Box::new(spec_diff(*r, var, decrements)),
        ),
        SymbolicExpr::Mul(f, g) => SymbolicExpr::Add(
            Box::new(mul_of(spec_diff(*f, var, decrements), *g)),
            Box::new(mul_of(*f, spec_diff(*g, var, decrements))),
        ),
        SymbolicExpr::Div(f, g) => SymbolicExpr::Div(
            Box::new(SymbolicExpr::Sub(
                Box::new(mul_of(spec_diff(*f, var, decrements), *g)),
                Box::new(mul_of(*f, spec_diff(*g, var, decrements))),
            )),
            Box::new(SymbolicExpr::Pow(g, Box::new(SymbolicExpr::Const(TWO_BITS)))),
        ),
        SymbolicExpr::Pow(f, g) => match *g {
            SymbolicExpr::Const(n) => mul_of(
                mul_of(
                    SymbolicExpr::Const(n),
                    SymbolicExpr::Pow(f, Box::new(SymbolicExpr::Const(lookup_bits(decrements, n).unwrap()))),
                ),
                spec_diff(*f, var, decrements),
            ),
            _ => mul_of(
                SymbolicExpr::Pow(f, g),
                SymbolicExpr::Add(
                    Box::new(mul_of(spec_diff(*g, var, decrements), SymbolicExpr::Ln(f))),
                    Box::new(SymbolicExpr::Div(
                        Box::new(mul_of(*g, spec_diff(*f, var, decrements))),
                        f,
                    )),
                ),
            ),
        },
        SymbolicExpr::Neg(f) => SymbolicExpr::Neg(Box::new(spec_diff(*f, var, decrements))),
        SymbolicExpr::Sin(f) => mul_of(SymbolicExpr::Cos(f), spec_diff(*f, var, decrements)),
        SymbolicExpr::Cos(f) => mul_of(
            SymbolicExpr::Neg(Box::new(SymbolicExpr::Sin(f))),
            spec_diff(*f, var, decrements),
        ),
        SymbolicExpr::Tan(f) => mul_of(
            SymbolicExpr::Div(
                Box::new(SymbolicExpr::Const(ONE_BITS)),
                Box::new(SymbolicExpr::Pow(Box::new(SymbolicExpr::Cos(f)), Box::new(SymbolicExpr::Const(TWO_BITS)))),
            ),
            spec_diff(*f, var, decrements),
        ),
        SymbolicExpr::Exp(f) => mul_of(SymbolicExpr::Exp(f), spec_diff(*f, var, decrements)),
        SymbolicExpr::Ln(f) => mul_of(
            SymbolicExpr::Div(Box::new(SymbolicExpr::Const(ONE_BITS)), f),
            spec_diff(*f, var, decrements),
        ),
    }
}

fn boxed(e: SymbolicExpr) -> (r: Box<SymbolicExpr>)
    ensures
        *r == e,
{
    Box::new(e)
}

fn mul_exec(l: SymbolicExpr, r: SymbolicExpr) -> (m: SymbolicExpr)
    ensures
        m == mul_of(l, r),
{
    SymbolicExpr::Mul(Box::new(l), Box::new(r))
}

/// The derivative of `expr` by `var` (see `spec_diff`); `decrements` pairs
/// each constant exponent `n` of a power in `expr` with the binary64 `n - 1`.
pub fn diff(expr: &SymbolicExpr, var: &str, decrements: &Vec<(u64, u64)>) -> (r: SymbolicExpr)
    requires
        exponents_in(*expr, decrements@),
    ensures
        r == spec_diff(*expr, var@, decrements@),
    decreases expr,
{
    match expr {
        SymbolicExpr::Const(_) => SymbolicExpr::Const(ZERO_BITS),
        SymbolicExpr::Var(name) => SymbolicExpr::Const(if str_eq(name.as_str(), var) { ONE_BITS } else { ZERO_BITS }),
        SymbolicExpr::Add(l, r) => SymbolicExpr::Add(boxed(diff(l, var, decrements)), boxed(diff(r, var, decrements))),
        SymbolicExpr::Sub(l, r) => SymbolicExpr::Sub(boxed(diff(l, var, decrements)), boxed(diff(r, var, decrements))),
        SymbolicExpr::Mul(f, g) => {
            let a = mul_exec(diff(f, var, decrements), clone_expr(g));
            let b = mul_exec(clone_expr(f), diff(g, var, decrements));
            SymbolicExpr::Add(boxed(a), boxed(b))
        },
        SymbolicExpr::Div(f, g) => {
            let a = mul_exec(diff(f, var, decrements), clone_expr(g));
            let b = mul_exec(clone_expr(f), diff(g, var, decrements));
            SymbolicExpr::Div(
                boxed(SymbolicExpr::Sub(boxed(a), boxed(b))),
                boxed(SymbolicExpr::Pow(boxed(clone_expr(g)), boxed(SymbolicExpr::Const(TWO_BITS)))),
            )
        },
        SymbolicExpr::Pow(f, g) => {
            match &**g {
                SymbolicExpr::Const(n) => {
                    let m = find_bits(decrements, *n).unwrap();
                    let p = SymbolicExpr::Pow(boxed(clone_expr(f)), boxed(SymbolicExpr::Const(m)));
                    mul_exec(mul_exec(SymbolicExpr::Const(*n), p), diff(f, var, decrements))
                },
                _ => {
                    let left = mul_exec(diff(g, var, decrements), SymbolicExpr::Ln(boxed(clone_expr(f))));
                    let right = SymbolicExpr::Div(
                        boxed(mul_exec(clone_expr(g), diff(f, var, decrements))),
                        boxed(clone_expr(f)),
                    );
                    mul_exec(
                        SymbolicExpr::Pow(boxed(clone_expr(f)), boxed(clone_expr(g))),
                        SymbolicExpr::Add(boxed(left), boxed(right)),
                    )
                },
            }
        },
        SymbolicExpr::Neg(f) => SymbolicExpr::Neg(boxed(diff(f, var, decrements))),
        SymbolicExpr::Sin(f) => mul_exec(SymbolicExpr::Cos(boxed(clone_expr(f))), diff(f, var, decrements)),
        SymbolicExpr::Cos(f) => mul_exec(
            SymbolicExpr::Neg(boxed(SymbolicExpr::Sin(boxed(clone_expr(f))))),
            diff(f, var, decrements),
        ),
        SymbolicExpr::Tan(f) => mul_exec(
            SymbolicExpr::Div(
                boxed(SymbolicExpr::Const(ONE_BITS)),
                boxed(SymbolicExpr::Pow(boxed(SymbolicExpr::Cos(boxed(clone_expr(f)))), boxed(SymbolicExpr::Const(TWO_BITS)))),
            ),
            diff(f, var, decrements),
        ),
        SymbolicExpr::Exp(f) => mul_exec(SymbolicExpr::Exp(boxed(clone_expr(f))), diff(f, var, decrements)),
        SymbolicExpr::Ln(f) => mul_exec(
            SymbolicExpr::Div(boxed(SymbolicExpr::Const(ONE_BITS)), boxed(clone_expr(f))),
            diff(f, var, decrements),
        ),
    }
}

/// The antiderivative in `v` (without a constant), or the message of the
/// form it does not handle. A constant `c` integrates to `c * v`, `v` to
/// `v^2 / 2`, another variable `u` to `u * v`; sums, differences and
/// negations term by term (the first failure wins); a product with a constant
/// factor by keeping the constant in front; `v^-1` and `1 / v` to `ln(v)`;
/// `v^n` to `v^m / m` with `m = increments[n]` (the binary64 value `n + 1`,
/// supplied by the caller); `sin(v)`, `cos(v)` and `exp(v)` to `-cos(v)`,
/// `sin(v)` and `exp(v)`.
pub open spec fn spec_integrate(e: SymbolicExpr, v: String, increments: Seq<(u64, u64)>) -> Result<SymbolicExpr, Seq<char>>
    decreases e,
{
    let x = SymbolicExpr::Var(v);
    match e {
        SymbolicExpr::Const(c) => Ok(mul_of(SymbolicExpr::Const(c), x)),
        SymbolicExpr::Var(name) => if name@ == v@ {
            Ok(SymbolicExpr::Div(
                Box::new(SymbolicExpr::Pow(Box::new(x), Box::new(SymbolicExpr::Const(TWO_BITS)))),
                Box::new(SymbolicExpr::Const(TWO_BITS)),
            ))
        } else {
            Ok(mul_of(SymbolicExpr::Var(name), x))
        },
        SymbolicExpr::Add(f, g) => match spec_integrate(*f, v, increments) {
            Err(m) => Err(m),
            Ok(a) => match spec_integrate(*g, v, increments) {
                Err(m) => Err(m),
                Ok(b) => Ok(SymbolicExpr::Add(Box::new(a), Box::new(b))),
            },
        },
        SymbolicExpr::Sub(f, g) => match spec_integrate(*f, v, increments) {
            Err(m) => Err(m),
            Ok(a) => match spec_integrate(*g, v, increments) {
                Err(m) => Err(m),
                Ok(b) => Ok(SymbolicExpr::Sub(Box::new(a), Box::new(b))),
            },
        },
        SymbolicExpr::Mul(f, g) => if *f is Const {
            match spec_integrate(*g, v, increments) {
                Err(m) => Err(m),
                Ok(b) => Ok(mul_of(*f, b)),
            }
        } else if *g is Const {
            match spec_integrate(*f, v, increments) {
                Err(m) => Err(m),
                Ok(a) => Ok(mul_of(*g, a)),
            }
        } else {
            Err("integrate() does not support product of two non-constant expressions"@)
        },
        SymbolicExpr::Div(f, g) => if *f == SymbolicExpr::Const(ONE_BITS) && (*g matches SymbolicExpr::Var(name) && name@ == v@) {
            Ok(SymbolicExpr::Ln(Box::new(x)))
        } else {
            Err("integrate() only supports 1/var form for division"@)
        },
        SymbolicExpr::Pow(f, g) => if (*f matches SymbolicExpr::Var(name) && name@ == v@) && *g is Const {
            let n = g->Const_0;
            if n == MINUS_ONE_BITS {
                Ok(SymbolicExpr::Ln(Box::new(x)))
            } else {
                let m = lookup_bits(increments, n).unwrap();
                Ok(SymbolicExpr::Div(
                    Box::new(SymbolicExpr::Pow(Box::new(x), Box::new(SymbolicExpr::Const(m)))),
                    Box::new(SymbolicExpr::Const(m)),
                ))
            }
        } else {
            Err("integrate() only supports power of the integration variable"@)
        },
        SymbolicExpr::Neg(f) => match spec_integrate(*f, v, increments) {
            Err(m) => Err(m),
            Ok(a) => Ok(SymbolicExpr::Neg(Box::new(a))),
        },
        SymbolicExpr::Sin(f) => if *f matches SymbolicExpr::Var(name) && name@ == v@ {
            Ok(SymbolicExpr::Neg(Box::new(SymbolicExpr::Cos(Box::new(x)))))
        } else {
            Err("integrate() only supports sin(var) form"@)
        },
        SymbolicExpr::Cos(f) => if *f matches SymbolicExpr::Var(name) && name@ == v@ {
            Ok(SymbolicExpr::Sin(Box::new(x)))
        } else {
            Err("integrate() only supports cos(var) form"@)
        },
        SymbolicExpr::Exp(f) => if *f matches SymbolicExpr::Var(name) && name@ == v@ {
            Ok(SymbolicExpr::Exp(Box::new(x)))
        } else {
            Err("integrate() only supports exp(var) form"@)
        },
        SymbolicExpr::Ln(_) => Err("integrate() does not support ln/tan forms"@),
        SymbolicExpr::Tan(_) => Err("integrate() does not support ln/tan forms"@),
    }
}

fn is_var_exec(e: &SymbolicExpr, var: &String) -> (r: bool)
    ensures
        r == (*e matches SymbolicExpr::Var(name) && name@ == var@),
{
    match e {
        SymbolicExpr::Var(name) => str_eq(name.as_str(), var.as_str()),
        _ => false,
    }
}

fn domain_error(msg: &str) -> (e: CalcError)
    ensures
        e.kind == ErrorKind::Domain,
        e.message@ == msg@,
{
    CalcError::domain(owned(msg))
}

/// The antiderivative of `expr` in `var` (see `spec_integrate`);
/// `increments` pairs each constant exponent `n` of a power in `expr` with
/// the binary64 `n + 1`. An unsupported form is a domain error.
pub fn integrate(expr: &SymbolicExpr, var: &String, increments: &Vec<(u64, u64)>) -> (r: Result<SymbolicExpr, CalcError>)
    requires
        exponents_in(*expr, increments@),
    ensures
        match spec_integrate(*expr, *var, increments@) {
            Ok(x) => r == Ok::<SymbolicExpr, CalcError>(x),
            Err(m) => r matches Err(e) && e.kind == ErrorKind::Domain && e.message@ == m,
        },
    decreases expr,
{
    match expr {
        SymbolicExpr::Const(c) => Ok(mul_exec(SymbolicExpr::Const(*c), SymbolicExpr::Var(var.clone()))),
        SymbolicExpr::Var(name) => {
            if str_eq(name.as_str(), var.as_str()) {
                Ok(SymbolicExpr::Div(
                    boxed(SymbolicExpr::Pow(boxed(SymbolicExpr::Var(var.clone())), boxed(SymbolicExpr::Const(TWO_BITS)))),
                    boxed(SymbolicExpr::Const(TWO_BITS)),
                ))
            } else {
                Ok(mul_exec(SymbolicExpr::Var(name.clone()), SymbolicExpr::Var(var.clone())))
            }
        },
        SymbolicExpr::Add(f, g) => {
            let a = match integrate(f, var, increments) {
                Ok(a) => a,
                Err(e) => return Err(e),
            };
            let b = match integrate(g, var, increments) {
                Ok(b) => b,
                Err(e) => return Err(e),
            };
            Ok(SymbolicExpr::Add(boxed(a), boxed(b)))
        },
        SymbolicExpr::Sub(f, g) => {
            let a = match integrate(f, var, increments) {
                Ok(a) => a,
                Err(e) => return Err(e),
            };
            let b = match integrate(g, var, increments) {
                Ok(b) => b,
                Err(e) => return Err(e),
            };
            Ok(SymbolicExpr::Sub(boxed(a), boxed(b)))
        },
        SymbolicExpr::Mul(f, g) => {
            if let SymbolicExpr::Const(c) = &**f {
                let b = match integrate(g, var, increments) {
                    Ok(b) => b,
                    Err(e) => return Err(e),
                };
                return Ok(mul_exec(SymbolicExpr::Const(*c), b));
            }
            if let SymbolicExpr::Const(c) = &**g {
                let a = match integrate(f, var, increments) {
                    Ok(a) => a,
                    Err(e) => return Err(e),
                };
                return Ok(mul_exec(SymbolicExpr::Const(*c), a));
            }
            Err(domain_error("integrate() does not support product of two non-constant expressions"))
        },
        SymbolicExpr::Div(f, g) => {
            if let SymbolicExpr::Const(c) = &**f {
                if *c == ONE_BITS && is_var_exec(g, var) {
                    return Ok(SymbolicExpr::Ln(boxed(SymbolicExpr::Var(var.clone()))));
                }
            }
            Err(domain_error("integrate() only supports 1/var form for division"))
        },
        SymbolicExpr::Pow(f, g) => {
            if let SymbolicExpr::Const(n) = &**g {
                if is_var_exec(f, var) {
                    if *n == MINUS_ONE_BITS {
                        return Ok(SymbolicExpr::Ln(boxed(SymbolicExpr::Var(var.clone()))));
                    }
                    let m = find_bits(increments, *n).unwrap();
                    return Ok(SymbolicExpr::Div(
                        boxed(SymbolicExpr::Pow(boxed(SymbolicExpr::Var(var.clone())), boxed(SymbolicExpr::Const(m)))),
                        boxed(SymbolicExpr::Const(m)),
                    ));
                }
            }
            Err(domain_error("integrate() only supports power of the integration variable"))
        },
        SymbolicExpr::Neg(f) => {
            let a = match integrate(f, var, increments) {
                Ok(a) => a,
                Err(e) => return Err(e),
            };
            Ok(SymbolicExpr::Neg(boxed(a)))
        },
        SymbolicExpr::Sin(f) => {
            if is_var_exec(f, var) {
                Ok(SymbolicExpr::Neg(boxed(SymbolicExpr::Cos(boxed(SymbolicExpr::Var(var.clone()))))))
            } else {
                Err(domain_error("integrate() only supports sin(var) form"))
            }
        },
        SymbolicExpr::Cos(f) => {
            if is_var_exec(f, var) {
                Ok(SymbolicExpr::Sin(boxed(SymbolicExpr::Var(var.clone()))))
            } else {
                Err(domain_error("integrate() only supports cos(var) form"))
            }
        },
        SymbolicExpr::Exp(f) => {
            if is_var_exec(f, var) {
                Ok(SymbolicExpr::Exp(boxed(SymbolicExpr::Var(var.clone()))))
            } else {
                Err(domain_error("integrate() only supports exp(var) form"))
            }
        },
        SymbolicExpr::Ln(_) => Err(domain_error("integrate() does not support ln/tan forms")),
        SymbolicExpr::Tan(_) => Err(domain_error("integrate() does not support ln/tan forms")),
    }
}


// ===================== meaning =====================

/// An interpretation of expressions over the integers, in which the laws of
/// differentiation are stated: the value of each variable and of each
/// constant's bit pattern, and the quotient, power, logarithm, sine, cosine,
/// tangent and exponential. Sums, differences, products and negation are
/// those of the integers.
pub struct ExprModel {
    pub variable: spec_fn(Seq<char>) -> int,
    pub constant: spec_fn(u64) -> int,
    pub quotient: spec_fn(int, int) -> int,
    pub power: spec_fn(int, int) -> int,
    pub ln: spec_fn(int) -> int,
    pub sin: spec_fn(int) -> int,
    pub cos: spec_fn(int) -> int,
    pub tan: spec_fn(int) -> int,
    pub exp: spec_fn(int) -> int,
}

/// The facts of real arithmetic that the laws below rest on: the constants
/// `0`, `1`, `2` and `-1` have their values (and `-1` only one bit pattern),
/// `x^1 = x`, `x^2 = x x`, `x^-1 = 1 / x`, and `(a b) / b = a` for `b != 0`.
pub open spec fn is_real_model(m: ExprModel) -> bool {
    &&& (m.constant)(ZERO_BITS) == 0
    &&& (m.constant)(ONE_BITS) == 1
    &&& (m.constant)(TWO_BITS) == 2
    &&& (m.constant)(MINUS_ONE_BITS) == -1
    &&& forall|b: u64| #[trigger] (m.constant)(b) == -1 ==> b == MINUS_ONE_BITS
    &&& forall|a: int| #[trigger] (m.power)(a, 1) == a
    &&& forall|a: int| #[trigger] (m.power)(a, 2) == a * a
    &&& forall|a: int| #[trigger] (m.power)(a, -1) == (m.quotient)(1, a)
    &&& forall|a: int, b: int| b != 0 ==> #[trigger] (m.quotient)(a * b, b) == a
}

/// Every exponent the table pairs with `n` has the value of `n` plus `delta`
/// in the model (`-1` for the decrements `diff` takes, `+1` for the
/// increments of `integrate`).
pub open spec fn table_shifts_by(t: Seq<(u64, u64)>, m: ExprModel, delta: int) -> bool {
    forall|n: u64| #[trigger] lookup_bits(t, n) is Some ==>
        (m.constant)(lookup_bits(t, n).unwrap()) == (m.constant)(n) + delta
}

/// The value of an expression in the model.
pub open spec fn value(e: SymbolicExpr, m: ExprModel) -> int
    decreases e,
{
    match e {
        SymbolicExpr::Const(b) => (m.constant)(b),
        SymbolicExpr::Var(name) => (m.variable)(name@),
        SymbolicExpr::Add(l, r) => value(*l, m) + value(*r, m),
        SymbolicExpr::Sub(l, r) => value(*l, m) - value(*r, m),
        SymbolicExpr::Mul(l, r) => value(*l, m) * value(*r, m),
        SymbolicExpr::Div(l, r) => (m.quotient)(value(*l, m), value(*r, m)),
        SymbolicExpr::Pow(l, r) => (m.power)(value(*l, m), value(*r, m)),
        SymbolicExpr::Neg(x) => -value(*x, m),
        SymbolicExpr::Ln(x) => (m.ln)(value(*x, m)),
        SymbolicExpr::Sin(x) => (m.sin)(value(*x, m)),
        SymbolicExpr::Cos(x) => (m.cos)(value(*x, m)),
        SymbolicExpr::Tan(x) => (m.tan)(value(*x, m)),
        SymbolicExpr::Exp(x) => (m.exp)(value(*x, m)),
    }
}

/// The rate of change of the value of `e` as `var` changes, computed along
/// with the values (forward mode): the sum, product and quotient rules, the
/// chain rule, and the derivatives of the elementary functions, `d x^n =
/// n x^(n-1)` for a constant exponent and `d f^g = f^g (g' ln f + g f' / f)`
/// otherwise.
pub open spec fn tangent(e: SymbolicExpr, var: Seq<char>, m: ExprModel) -> int
    decreases e,
{
    match e {
        SymbolicExpr::Const(_) => 0,
        SymbolicExpr::Var(name) => if name@ == var { 1 } else { 0 },
        SymbolicExpr::Add(l, r) => tangent(*l, var, m) + tangent(*r, var, m),
        SymbolicExpr::Sub(l, r) => tangent(*l, var, m) - tangent(*r, var, m),
        SymbolicExpr::Mul(f, g) => tangent(*f, var, m) * value(*g, m) + value(*f, m) * tangent(*g, var, m),
        SymbolicExpr::Div(f, g) => (m.quotient)(
            tangent(*f, var, m) * value(*g, m) - value(*f, m) * tangent(*g, var, m),
            value(*g, m) * value(*g, m),
        ),
        SymbolicExpr::Pow(f, g) => match *g {
            SymbolicExpr::Const(n) => (m.constant)(n) * (m.power)(value(*f, m), (m.constant)(n) - 1) * tangent(*f, var, m),
            _ => (m.power)(value(*f, m), value(*g, m)) * (
                tangent(*g, var, m) * (m.ln)(value(*f, m))
                + (m.quotient)(value(*g, m) * tangent(*f, var, m), value(*f, m))
            ),
        },
        SymbolicExpr::Neg(x) => -tangent(*x, var, m),
        SymbolicExpr::Ln(x) => (m.quotient)(1, value(*x, m)) * tangent(*x, var, m),
        SymbolicExpr::Sin(x) => (m.cos)(value(*x, m)) * tangent(*x, var, m),
        SymbolicExpr::Cos(x) => -((m.sin)(value(*x, m)) * tangent(*x, var, m)),
        SymbolicExpr::Tan(x) => (m.quotient)(1, (m.cos)(value(*x, m)) * (m.cos)(value(*x, m))) * tangent(*x, var, m),
        SymbolicExpr::Exp(x) => (m.exp)(value(*x, m)) * tangent(*x, var, m),
    }
}

proof fn lemma_neg_mul(a: int, b: int)
    ensures
        (-a) * b == -(a * b),
        a * b == b * a,
{
    assert((-a) * b == -(a * b)) by (nonlinear_arith);
    assert(a * b == b * a) by (nonlinear_arith);
}

/// The derivative `diff` builds evaluates, in every model of real
/// arithmetic and at every point, to the rate of change of the expression:
/// `d/dx 2^x` is `2^x ln 2`, the logarithm taken of the base.
proof fn lemma_value_mul(a: SymbolicExpr, b: SymbolicExpr, m: ExprModel)
    ensures
        value(mul_of(a, b), m) == value(a, m) * value(b, m),
{
}

/// The derivative `diff` builds evaluates, in every model of real
/// arithmetic and at every point, to the rate of change of the expression:
/// `d/dx 2^x` is `2^x ln 2`, the logarithm taken of the base.
pub proof fn lemma_diff_is_derivative(e: SymbolicExpr, var: Seq<char>, decrements: Seq<(u64, u64)>, m: ExprModel)
    requires
        is_real_model(m),
        exponents_in(e, decrements),
        table_shifts_by(decrements, m, -1),
    ensures
        value(spec_diff(e, var, decrements), m) == tangent(e, var, m),
    decreases e,
{
    let d = spec_diff(e, var, decrements);
    match e {
        SymbolicExpr::Const(_) => {
            assert(d == SymbolicExpr::Const(ZERO_BITS));
        },
        SymbolicExpr::Var(name) => {
            if name@ == var {
                assert(d == SymbolicExpr::Const(ONE_BITS));
            } else {
                assert(d == SymbolicExpr::Const(ZERO_BITS));
            }
        },
        SymbolicExpr::Add(l, r) => {
            lemma_diff_is_derivative(*l, var, decrements, m);
            lemma_diff_is_derivative(*r, var, decrements, m);
        },
        SymbolicExpr::Sub(l, r) => {
            lemma_diff_is_derivative(*l, var, decrements, m);
            lemma_diff_is_derivative(*r, var, decrements, m);
        },
        SymbolicExpr::Mul(f, g) => {
            lemma_diff_is_derivative(*f, var, decrements, m);
            lemma_diff_is_derivative(*g, var, decrements, m);
            let df = spec_diff(*f, var, decrements);
            let dg = spec_diff(*g, var, decrements);
            assert(d == SymbolicExpr::Add(Box::new(mul_of(df, *g)), Box::new(mul_of(*f, dg))));
            lemma_value_mul(df, *g, m);
            lemma_value_mul(*f, dg, m);
        },
        SymbolicExpr::Div(f, g) => {
            lemma_diff_is_derivative(*f, var, decrements, m);
            lemma_diff_is_derivative(*g, var, decrements, m);
            let df = spec_diff(*f, var, decrements);
            let dg = spec_diff(*g, var, decrements);
            let num = SymbolicExpr::Sub(Box::new(mul_of(df, *g)), Box::new(mul_of(*f, dg)));
            let den = SymbolicExpr::Pow(g, Box::new(SymbolicExpr::Const(TWO_BITS)));
            assert(d == SymbolicExpr::Div(Box::new(num), Box::new(den)));
            lemma_value_mul(df, *g, m);
            lemma_value_mul(*f, dg, m);
            assert(value(num, m) == value(mul_of(df, *g), m) - value(mul_of(*f, dg), m));
            assert(value(SymbolicExpr::Const(TWO_BITS), m) == 2);
            assert(value(den, m) == (m.power)(value(*g, m), 2));
            assert((m.power)(value(*g, m), 2) == value(*g, m) * value(*g, m));
        },
        SymbolicExpr::Pow(f, g) => {
            lemma_diff_is_derivative(*f, var, decrements, m);
            lemma_diff_is_derivative(*g, var, decrements, m);
            let df = spec_diff(*f, var, decrements);
            let dg = spec_diff(*g, var, decrements);
            let vf = value(*f, m);
            match *g {
                SymbolicExpr::Const(n) => {
                    assert(lookup_bits(decrements, n) is Some);
                    let k = lookup_bits(decrements, n).unwrap();
                    let p = SymbolicExpr::Pow(f, Box::new(SymbolicExpr::Const(k)));
                    assert(d == mul_of(mul_of(SymbolicExpr::Const(n), p), df));
                    lemma_value_mul(mul_of(SymbolicExpr::Const(n), p), df, m);
                    lemma_value_mul(SymbolicExpr::Const(n), p, m);
                    assert(value(SymbolicExpr::Const(k), m) == (m.constant)(k));
                    assert(value(p, m) == (m.power)(vf, (m.constant)(k)));
                    assert((m.constant)(k) == (m.constant)(n) - 1);
                },
                _ => {
                    let lnf = SymbolicExpr::Ln(f);
                    let q = SymbolicExpr::Div(Box::new(mul_of(*g, df)), f);
                    let sum = SymbolicExpr::Add(Box::new(mul_of(dg, lnf)), Box::new(q));
                    assert(d == mul_of(SymbolicExpr::Pow(f, g), sum));
                    lemma_value_mul(SymbolicExpr::Pow(f, g), sum, m);
                    lemma_value_mul(dg, lnf, m);
                    lemma_value_mul(*g, df, m);
                    assert(value(lnf, m) == (m.ln)(vf));
                    assert(value(q, m) == (m.quotient)(value(*g, m) * tangent(*f, var, m), vf));
                },
            }
        },
        SymbolicExpr::Neg(x) => {
            lemma_diff_is_derivative(*x, var, decrements, m);
        },
        SymbolicExpr::Ln(x) => {
            lemma_diff_is_derivative(*x, var, decrements, m);
            let dx = spec_diff(*x, var, decrements);
            let r = SymbolicExpr::Div(Box::new(SymbolicExpr::Const(ONE_BITS)), x);
            assert(d == mul_of(r, dx));
            lemma_value_mul(r, dx, m);
            assert(value(SymbolicExpr::Const(ONE_BITS), m) == 1);
            assert(value(r, m) == (m.quotient)(1, value(*x, m)));
        },
        SymbolicExpr::Sin(x) => {
            lemma_diff_is_derivative(*x, var, decrements, m);
            let dx = spec_diff(*x, var, decrements);
            assert(d == mul_of(SymbolicExpr::Cos(x), dx));
            lemma_value_mul(SymbolicExpr::Cos(x), dx, m);
            assert(value(SymbolicExpr::Cos(x), m) == (m.cos)(value(*x, m)));
        },
        SymbolicExpr::Cos(x) => {
            lemma_diff_is_derivative(*x, var, decrements, m);
            let dx = spec_diff(*x, var, decrements);
            let ns = SymbolicExpr::Neg(Box::new(SymbolicExpr::Sin(x)));
            assert(d == mul_of(ns, dx));
            lemma_value_mul(ns, dx, m);
            assert(value(SymbolicExpr::Sin(x), m) == (m.sin)(value(*x, m)));
            assert(value(ns, m) == -(m.sin)(value(*x, m)));
            lemma_neg_mul((m.sin)(value(*x, m)), tangent(*x, var, m));
        },
        SymbolicExpr::Tan(x) => {
            lemma_diff_is_derivative(*x, var, decrements, m);
            let dx = spec_diff(*x, var, decrements);
            let c2 = SymbolicExpr::Pow(Box::new(SymbolicExpr::Cos(x)), Box::new(SymbolicExpr::Const(TWO_BITS)));
            let r = SymbolicExpr::Div(Box::new(SymbolicExpr::Const(ONE_BITS)), Box::new(c2));
            assert(d == mul_of(r, dx));
            lemma_value_mul(r, dx, m);
            let c = (m.cos)(value(*x, m));
            assert(value(SymbolicExpr::Cos(x), m) == c);
            assert(value(SymbolicExpr::Const(TWO_BITS), m) == 2);
            assert(value(c2, m) == (m.power)(c, 2));
            assert(value(SymbolicExpr::Const(ONE_BITS), m) == 1);
            assert((m.power)(c, 2) == c * c);
        },
        SymbolicExpr::Exp(x) => {
            lemma_diff_is_derivative(*x, var, decrements, m);
            let dx = spec_diff(*x, var, decrements);
            assert(d == mul_of(SymbolicExpr::Exp(x), dx));
            lemma_value_mul(SymbolicExpr::Exp(x), dx, m);
            assert(value(SymbolicExpr::Exp(x), m) == (m.exp)(value(*x, m)));
        },
    }
}

proof fn lemma_mul_shuffle(c: int, p: int)
    ensures
        c * p * 1 * c == p * (c * c),
        c != 0 ==> c * c != 0,
{
    assert(c * p * 1 * c == p * (c * c)) by (nonlinear_arith);
    assert(c != 0 ==> c * c != 0) by (nonlinear_arith);
}

/// What `integrate` gives back is an antiderivative: in every model of real
/// arithmetic and at every point, its rate of change in the integration
/// variable is the value of the integrand. So the antiderivative of
/// `f - g` is that of `f` minus that of `g`, in that order.
pub proof fn lemma_integrate_is_antiderivative(e: SymbolicExpr, v: String, increments: Seq<(u64, u64)>, m: ExprModel)
    requires
        is_real_model(m),
        exponents_in(e, increments),
        table_shifts_by(increments, m, 1),
        spec_integrate(e, v, increments) is Ok,
    ensures
        tangent(spec_integrate(e, v, increments)->Ok_0, v@, m) == value(e, m),
    decreases e,
{
    let a = spec_integrate(e, v, increments)->Ok_0;
    let x = SymbolicExpr::Var(v);
    let vx = value(x, m);
    assert(tangent(x, v@, m) == 1);
    match e {
        SymbolicExpr::Const(c) => {
            assert(a == mul_of(SymbolicExpr::Const(c), x));
            assert(tangent(SymbolicExpr::Const(c), v@, m) == 0);
            assert(value(SymbolicExpr::Const(c), m) == (m.constant)(c));
        },
        SymbolicExpr::Var(name) => {
            if name@ == v@ {
                let k = SymbolicExpr::Const(TWO_BITS);
                let p = SymbolicExpr::Pow(Box::new(x), Box::new(k));
                assert(a == SymbolicExpr::Div(Box::new(p), Box::new(k)));
                assert(value(k, m) == 2);
                assert(tangent(k, v@, m) == 0);
                assert(tangent(p, v@, m) == 2 * (m.power)(vx, 1) * 1);
                assert((m.power)(vx, 1) == vx);
                assert(tangent(a, v@, m) == (m.quotient)(vx * 4, 4));
                assert(value(e, m) == vx);
            } else {
                let u = SymbolicExpr::Var(name);
                assert(a == mul_of(u, x));
                assert(tangent(u, v@, m) == 0);
            }
        },
        SymbolicExpr::Add(f, g) => {
            lemma_integrate_is_antiderivative(*f, v, increments, m);
            lemma_integrate_is_antiderivative(*g, v, increments, m);
        },
        SymbolicExpr::Sub(f, g) => {
            lemma_integrate_is_antiderivative(*f, v, increments, m);
            lemma_integrate_is_antiderivative(*g, v, increments, m);
        },
        SymbolicExpr::Mul(f, g) => {
            if *f is Const {
                lemma_integrate_is_antiderivative(*g, v, increments, m);
                let b = spec_integrate(*g, v, increments)->Ok_0;
                assert(a == mul_of(*f, b));
                assert(tangent(*f, v@, m) == 0);
            } else {
                lemma_integrate_is_antiderivative(*f, v, increments, m);
                let b = spec_integrate(*f, v, increments)->Ok_0;
                assert(a == mul_of(*g, b));
                assert(tangent(*g, v@, m) == 0);
                lemma_neg_mul(value(*g, m), value(*f, m));
            }
        },
        SymbolicExpr::Div(f, g) => {
            assert(a == SymbolicExpr::Ln(Box::new(x)));
            assert(value(*f, m) == 1);
            assert(value(*g, m) == vx);
        },
        SymbolicExpr::Pow(f, g) => {
            let n = g->Const_0;
            assert(value(*f, m) == vx);
            assert(value(*g, m) == (m.constant)(n));
            if n == MINUS_ONE_BITS {
                assert(a == SymbolicExpr::Ln(Box::new(x)));
                assert((m.power)(vx, -1) == (m.quotient)(1, vx));
            } else {
                assert(lookup_bits(increments, n) is Some);
                let k = lookup_bits(increments, n).unwrap();
                let cm = (m.constant)(k);
                let cn = (m.constant)(n);
                assert(cm == cn + 1);
                assert(cn != -1);
                let kk = SymbolicExpr::Const(k);
                let p = SymbolicExpr::Pow(Box::new(x), Box::new(kk));
                assert(a == SymbolicExpr::Div(Box::new(p), Box::new(kk)));
                assert(value(kk, m) == cm);
                assert(tangent(kk, v@, m) == 0);
                let pw = (m.power)(vx, cn);
                assert(tangent(p, v@, m) == cm * pw * 1);
                lemma_mul_shuffle(cm, pw);
                assert(tangent(a, v@, m) == (m.quotient)(pw * (cm * cm), cm * cm));
            }
        },
        SymbolicExpr::Neg(f) => {
            lemma_integrate_is_antiderivative(*f, v, increments, m);
        },
        SymbolicExpr::Sin(f) => {
            let c = SymbolicExpr::Cos(Box::new(x));
            assert(a == SymbolicExpr::Neg(Box::new(c)));
            assert(tangent(c, v@, m) == -((m.sin)(vx) * 1));
            assert(value(*f, m) == vx);
        },
        SymbolicExpr::Cos(f) => {
            assert(a == SymbolicExpr::Sin(Box::new(x)));
            assert(value(*f, m) == vx);
        },
        SymbolicExpr::Exp(f) => {
            assert(a == SymbolicExpr::Exp(Box::new(x)));
            assert(value(*f, m) == vx);
        },
        SymbolicExpr::Ln(_) => {},
        SymbolicExpr::Tan(_) => {},
    }
}

} // verus!
