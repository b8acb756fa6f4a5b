//! LaTeX rendering of expression trees and results.
//!
//! Numbers are binary64 values. NaN, the infinities and integral values are
//! rendered here exactly (an integral value as Rust's saturating `as i64`
//! conversion prints it). The shortest decimal text of a non-integral value
//! is floating-point formatting, which the caller supplies in a table from
//! bit pattern to text; a value missing from the table is rendered as its
//! bit pattern in hexadecimal.

use vstd::prelude::*;
use crate::ast::{
    AstNode, BinaryOp, UnaryOp, f64_integral_to_i64, f64_is_integral, f64_integral_value,
    f64_is_nan, f64_is_infinite, f64_sign, f64_fields, saturate_i64,
};
use crate::text::{chars_of, int_decimal, nat_decimal, owned, push_char, push_i64, push_str, push_u64, str_eq};
use crate::result::EvalResult;
use crate::bigint::{BigInt, BigRational};
use crate::precision::{decimal_text, format_decimal};

verus! {

/// The text supplied for a bit pattern: the first entry with these bits.
pub open spec fn lookup_text(texts: Seq<(u64, String)>, bits: u64) -> Option<Seq<char>>
    decreases texts.len(),
{
    if texts.len() == 0 {
        None
    } else if texts[0].0 == bits {
        Some(texts[0].1@)
    } else {
        lookup_text(texts.drop_first(), bits)
    }
}

pub(crate) fn find_text(texts: &Vec<(u64, String)>, bits: u64) -> (r: Option<&String>)
    ensures
        match r {
            Some(s) => lookup_text(texts@, bits) == Some(s@),
            None => lookup_text(texts@, bits).is_none(),
        },
{
    let mut i: usize = 0;
    assert(texts@.skip(0) =~= texts@);
    while i < texts.len()
        invariant
            i <= texts@.len(),
            lookup_text(texts@, bits) == lookup_text(texts@.skip(i as int), bits),
        decreases texts@.len() - i,
    {
        assert(texts@.skip(i as int).drop_first() =~= texts@.skip(i + 1));
        if texts[i].0 == bits {
            return Some(&texts[i].1);
        }
        i = i + 1;
    }
    None
}

/// The hexadecimal digit of a value below sixteen.
pub open spec fn hex_digit(d: nat) -> char {
    if d < 10 { crate::text::digit_char(d) }
    else if d == 10 { 'A' } else if d == 11 { 'B' } else if d == 12 { 'C' }
    else if d == 13 { 'D' } else if d == 14 { 'E' } else { 'F' }
}

/// The sixteen hexadecimal digits of a 64-bit pattern, most significant first.
pub open spec fn hex_digits(bits: nat, n: nat) -> Seq<char>
    decreases n,
{
    if n == 0 { Seq::empty() } else { hex_digits(bits / 16, (n - 1) as nat).push(hex_digit(bits % 16)) }
}

fn hex_digit_of(d: u64) -> (c: char)
    requires
        d < 16,
    ensures
        c == hex_digit(d as nat),
{
    if d == 0 { '0' } else if d == 1 { '1' } else if d == 2 { '2' } else if d == 3 { '3' }
    else if d == 4 { '4' } else if d == 5 { '5' } else if d == 6 { '6' } else if d == 7 { '7' }
    else if d == 8 { '8' } else if d == 9 { '9' } else if d == 10 { 'A' } else if d == 11 { 'B' }
    else if d == 12 { 'C' } else if d == 13 { 'D' } else if d == 14 { 'E' } else { 'F' }
}

pub(crate) fn push_hex(s: &mut String, bits: u64, n: u64)
    requires
        n <= 16,
    ensures
        final(s)@ == old(s)@ + hex_digits(bits as nat, n as nat),
    decreases n,
{
    if n > 0 {
        push_hex(s, bits / 16, n - 1);
        push_char(s, hex_digit_of(bits % 16));
    }
}

/// The LaTeX text of a binary64 value: `\text{NaN}`, `\infty`, `-\infty`, the
/// saturated integer of an integral value, the supplied text of another
/// value, or `0x` and its sixteen hexadecimal digits when none is supplied.
pub open spec fn spec_scalar_latex(bits: u64, texts: Seq<(u64, String)>) -> Seq<char> {
    if f64_is_nan(bits) {
        "\\text{NaN}"@
    } else if f64_is_infinite(bits) {
        if f64_sign(bits) == 0 { "\\infty"@ } else { "-\\infty"@ }
    } else if f64_is_integral(bits) {
        int_decimal(saturate_i64(f64_integral_value(bits)))
    } else {
        match lookup_text(texts, bits) {
            Some(t) => t,
            None => "0x"@ + hex_digits(bits as nat, 16),
        }
    }
}

/// Appends the LaTeX text of a binary64 value.
pub fn push_scalar_latex(s: &mut String, bits: u64, texts: &Vec<(u64, String)>)
    ensures
        final(s)@ == old(s)@ + spec_scalar_latex(bits, texts@),
{
    let (sign, e, frac) = f64_fields(bits);
    if e == 2047 {
        if frac != 0 {
            push_str(s, "\\text{NaN}");
        } else if sign == 0 {
            push_str(s, "\\infty");
        } else {
            push_str(s, "-\\infty");
        }
        return;
    }
    match f64_integral_to_i64(bits) {
        Some(v) => push_i64(s, v),
        None => match find_text(texts, bits) {
            Some(t) => push_str(s, t.as_str()),
            None => {
                push_str(s, "0x");
                push_hex(s, bits, 16);
            },
        },
    }
}

/// The LaTeX text of a binary64 value.
pub fn format_latex_scalar(bits: u64, texts: &Vec<(u64, String)>) -> (r: String)
    ensures
        r@ == spec_scalar_latex(bits, texts@),
{
    let mut s = String::new();
    push_scalar_latex(&mut s, bits, texts);
    s
}

/// A symbolic result in LaTeX: each `*` becomes ` \cdot `.
pub open spec fn spec_symbolic_str_to_latex(s: Seq<char>) -> Seq<char>
    decreases s.len(),
{
    if s.len() == 0 {
        s
    } else {
        spec_symbolic_str_to_latex(s.drop_last()) + if s.last() == '*' { " \\cdot "@ } else { seq![s.last()] }
    }
}

/// A symbolic result in LaTeX: each `*` becomes ` \cdot `; nothing else changes.
pub fn symbolic_str_to_latex(s: &str) -> (r: String)
    ensures
        r@ == spec_symbolic_str_to_latex(s@),
{
    let cs = chars_of(s);
    let mut out = String::new();
    let mut i: usize = 0;
    while i < cs.len()
        invariant
            cs@ == s@,
            i <= cs@.len(),
            out@ == spec_symbolic_str_to_latex(s@.take(i as int)),
        decreases cs@.len() - i,
    {
        proof {
            assert(s@.take(i + 1).drop_last() =~= s@.take(i as int));
        }
        if cs[i] == '*' {
            push_str(&mut out, " \\cdot ");
        } else {
            push_char(&mut out, cs[i]);
        }
        i = i + 1;
        assert(out@ =~= spec_symbolic_str_to_latex(s@.take(i as int)));
    }
    assert(s@.take(i as int) =~= s@);
    out
}

/// The LaTeX text of a binary operation on rendered operands.
pub open spec fn binary_latex(op: BinaryOp, l: Seq<char>, r: Seq<char>) -> Seq<char> {
    match op {
        BinaryOp::Add => l + " + "@ + r,
        BinaryOp::Sub => l + " - "@ + r,
        BinaryOp::Mul => l + " \\cdot "@ + r,
        BinaryOp::Div => "\\frac{"@ + l + "}{"@ + r + "}"@,
        BinaryOp::Pow => l + "^{"@ + r + "}"@,
        BinaryOp::Mod => l + " \\bmod "@ + r,
    }
}

/// The LaTeX text of a unary operation on a rendered operand.
pub open spec fn unary_latex(op: UnaryOp, e: Seq<char>) -> Seq<char> {
    match op {
        UnaryOp::Neg => "-"@ + e,
        UnaryOp::Factorial => e + "!"@,
        UnaryOp::Abs => "\\left|"@ + e + "\\right|"@,
    }
}

/// The parts joined with the separator between consecutive parts.
pub open spec fn join(parts: Seq<Seq<char>>, sep: Seq<char>) -> Seq<char>
    decreases parts.len(),
{
    if parts.len() == 0 {
        Seq::empty()
    } else if parts.len() == 1 {
        parts[0]
    } else {
        join(parts.drop_last(), sep) + sep + parts.last()
    }
}

/// The LaTeX text of an expression tree, when every part of it can be
/// rendered: numbers, big numbers (as written), variables, operators and
/// calls. Complex numbers, matrices, lists and strings cannot; a call keeps
/// only the arguments that can.
pub open spec fn spec_ast_latex(n: AstNode, texts: Seq<(u64, String)>) -> Option<Seq<char>>
    decreases n, 0nat,
{
    match n {
        AstNode::Number(b) => Some(spec_scalar_latex(b, texts)),
        AstNode::BigNumber(s) => Some(s@),
        AstNode::Variable(name) => Some(name@),
        AstNode::BinaryOp(op, l, r) => match (spec_ast_latex(*l, texts), spec_ast_latex(*r, texts)) {
            (Some(a), Some(b)) => Some(binary_latex(op, a, b)),
            _ => None,
        },
        AstNode::UnaryOp(op, e) => match spec_ast_latex(*e, texts) {
            Some(a) => Some(unary_latex(op, a)),
            None => None,
        },
        AstNode::FunctionCall(name, args) => Some(name@ + "("@ + join(spec_args_latex(args@, texts), ", "@) + ")"@),
        _ => None,
    }
}

/// The LaTeX texts of the arguments that can be rendered, in order.
pub open spec fn spec_args_latex(args: Seq<AstNode>, texts: Seq<(u64, String)>) -> Seq<Seq<char>>
    decreases args, 1nat,
{
    if args.len() == 0 {
        Seq::empty()
    } else {
        let rest = spec_args_latex(args.drop_last(), texts);
        match spec_ast_latex(args.last(), texts) {
            Some(a) => rest.push(a),
            None => rest,
        }
    }
}

fn push_joined(s: &mut String, parts: &Vec<String>, sep: &str)
    ensures
        final(s)@ == old(s)@ + join(parts@.map_values(|p: String| p@), sep@),
{
    let ghost pv = parts@.map_values(|p: String| p@);
    let ghost start = s@;
    let mut k: usize = 0;
    assert(pv.take(0).len() == 0);
    assert(s@ =~= start + join(pv.take(0), sep@));
    while k < parts.len()
        invariant
            pv == parts@.map_values(|p: String| p@),
            k <= parts@.len(),
            s@ == start + join(pv.take(k as int), sep@),
        decreases parts@.len() - k,
    {
        proof {
            assert(pv.take(k + 1).drop_last() =~= pv.take(k as int));
        }
        if k > 0 {
            push_str(s, sep);
        }
        push_str(s, parts[k].as_str());
        k = k + 1;
        proof {
            if k == 1 {
                assert(pv.take(0).len() == 0);
            }
            assert(s@ =~= start + join(pv.take(k as int), sep@));
        }
    }
    assert(pv.take(parts@.len() as int) =~= pv);
}

/// The LaTeX text of an expression tree, when every part of it can be rendered.
pub fn ast_to_latex_expr(node: &AstNode, texts: &Vec<(u64, String)>) -> (r: Option<String>)
    ensures
        match r {
            Some(s) => spec_ast_latex(*node, texts@) == Some(s@),
            None => spec_ast_latex(*node, texts@).is_none(),
        },
    decreases *node, 0nat,
{
    match node {
        AstNode::Number(b) => Some(format_latex_scalar(*b, texts)),
        AstNode::BigNumber(s) => Some(s.clone()),
        AstNode::Variable(name) => Some(name.clone()),
        AstNode::BinaryOp(op, l, r) => {
            let a = ast_to_latex_expr(l, texts)?;
            let b = ast_to_latex_expr(r, texts)?;
            let mut out = String::new();
            match op {
                BinaryOp::Add => { push_str(&mut out, a.as_str()); push_str(&mut out, " + "); push_str(&mut out, b.as_str()); },
                BinaryOp::Sub => { push_str(&mut out, a.as_str()); push_str(&mut out, " - "); push_str(&mut out, b.as_str()); },
                BinaryOp::Mul => { push_str(&mut out, a.as_str()); push_str(&mut out, " \\cdot "); push_str(&mut out, b.as_str()); },
                BinaryOp::Div => {
                    push_str(&mut out, "\\frac{");
                    push_str(&mut out, a.as_str());
                    push_str(&mut out, "}{");
                    push_str(&mut out, b.as_str());
                    push_str(&mut out, "}");
                },
                BinaryOp::Pow => {
                    push_str(&mut out, a.as_str());
                    push_str(&mut out, "^{");
                    push_str(&mut out, b.as_str());
                    push_str(&mut out, "}");
                },
                BinaryOp::Mod => { push_str(&mut out, a.as_str()); push_str(&mut out, " \\bmod "); push_str(&mut out, b.as_str()); },
            }
            assert(out@ =~= binary_latex(*op, a@, b@));
            Some(out)
        },
        AstNode::UnaryOp(op, e) => {
            let a = ast_to_latex_expr(e, texts)?;
            let mut out = String::new();
            match op {
                UnaryOp::Neg => { push_str(&mut out, "-"); push_str(&mut out, a.as_str()); },
                UnaryOp::Factorial => { push_str(&mut out, a.as_str()); push_str(&mut out, "!"); },
                UnaryOp::Abs => {
                    push_str(&mut out, "\\left|");
                    push_str(&mut out, a.as_str());
                    push_str(&mut out, "\\right|");
                },
            }
            assert(out@ =~= unary_latex(*op, a@));
            Some(out)
        },
        AstNode::FunctionCall(name, args) => {
            let parts = args_to_latex(args, texts);
            let mut out = String::new();
            push_str(&mut out, name.as_str());
            push_str(&mut out, "(");
            push_joined(&mut out, &parts, ", ");
            push_str(&mut out, ")");
            assert(out@ =~= name@ + "("@ + join(spec_args_latex(args@, texts@), ", "@) + ")"@);
            Some(out)
        },
        _ => None,
    }
}

fn args_to_latex(args: &Vec<AstNode>, texts: &Vec<(u64, String)>) -> (parts: Vec<String>)
    ensures
        parts@.map_values(|p: String| p@) == spec_args_latex(args@, texts@),
    decreases args@, 1nat,
{
    let mut parts: Vec<String> = Vec::new();
    let mut i: usize = 0;
    while i < args.len()
        invariant
            i <= args@.len(),
            parts@.map_values(|p: String| p@) == spec_args_latex(args@.take(i as int), texts@),
        decreases args@.len() - i,
    {
        proof {
            assert(args@.take(i + 1).drop_last() =~= args@.take(i as int));
            assert(args@.take(i + 1).last() == args@[i as int]);
            assert(decreases_to!(args@ => args@[i as int]));
        }
        match ast_to_latex_expr(&args[i], texts) {
            Some(s) => {
                let ghost before = parts@;
                parts.push(s);
                assert(parts@.map_values(|p: String| p@) =~= before.map_values(|p: String| p@).push(s@));
            },
            None => {},
        }
        i = i + 1;
    }
    assert(args@.take(args@.len() as int) =~= args@);
    parts
}


// ---------------------------------------------------------------------------
// Symbolic results
// ---------------------------------------------------------------------------

/// The rendered argument `i` of a call, if it exists and can be rendered.
pub open spec fn arg_latex(args: Seq<AstNode>, i: int, texts: Seq<(u64, String)>) -> Option<Seq<char>> {
    if 0 <= i < args.len() { spec_ast_latex(args[i], texts) } else { None }
}

/// The value of an option, or a default.
pub open spec fn or_default(o: Option<Seq<char>>, d: Seq<char>) -> Seq<char> {
    match o { Some(s) => s, None => d }
}

/// A symbolic operation with its result in LaTeX. For a call, `diff` reads
/// `\frac{d}{dv}\left(f\right) = r`, `integrate` reads `\int f \, dv = r`,
/// `limit` reads `\lim_{v \to a} f = r`, `series` and `taylor` read
/// `\text{Taylor series of} f = r`; a missing variable is `x`, a missing limit
/// point `0`, a missing body empty (for `diff`, the result itself). Anything
/// else is the result alone.
pub open spec fn spec_latex_symbolic(op: Seq<char>, ast: AstNode, result: Seq<char>, texts: Seq<(u64, String)>) -> Seq<char> {
    let rl = spec_symbolic_str_to_latex(result);
    match ast {
        AstNode::FunctionCall(_, args) => {
            let a = args@;
            if op == "diff"@ {
                "\\frac{d}{d"@ + or_default(arg_latex(a, 1, texts), "x"@) + "}\\left("@
                    + or_default(arg_latex(a, 0, texts), rl) + "\\right) = "@ + rl
            } else if op == "integrate"@ {
                "\\int "@ + or_default(arg_latex(a, 0, texts), Seq::empty()) + " \\, d"@
                    + or_default(arg_latex(a, 1, texts), "x"@) + " = "@ + rl
            } else if op == "limit"@ {
                "\\lim_{"@ + or_default(arg_latex(a, 1, texts), "x"@) + " \\to "@
                    + or_default(arg_latex(a, 2, texts), "0"@) + "} "@
                    + or_default(arg_latex(a, 0, texts), Seq::empty()) + " = "@ + rl
            } else if op == "series"@ || op == "taylor"@ {
                "\\text{Taylor series of} "@ + or_default(arg_latex(a, 0, texts), Seq::empty()) + " = "@ + rl
            } else {
                rl
            }
        },
        _ => rl,
    }
}

fn arg_text(args: &Vec<AstNode>, i: usize, texts: &Vec<(u64, String)>, default: &str) -> (r: String)
    ensures
        r@ == or_default(arg_latex(args@, i as int, texts@), default@),
{
    if i < args.len() {
        match ast_to_latex_expr(&args[i], texts) {
            Some(s) => s,
            None => owned(default),
        }
    } else {
        owned(default)
    }
}

/// A symbolic operation (`diff`, `integrate`, `limit`, `series`, `taylor`)
/// with its result, in LaTeX; any other operation or a tree that is not a call
/// gives the result alone. In the result, `*` becomes ` \cdot `.
pub fn format_latex_symbolic(op_name: &str, ast: &AstNode, result_str: &str, texts: &Vec<(u64, String)>) -> (r: String)
    ensures
        r@ == spec_latex_symbolic(op_name@, *ast, result_str@, texts@),
{
    let rl = symbolic_str_to_latex(result_str);
    let args = match ast {
        AstNode::FunctionCall(_, args) => args,
        _ => return rl,
    };
    let mut out = String::new();
    if str_eq(op_name, "diff") {
        let var = arg_text(args, 1, texts, "x");
        let body = arg_text(args, 0, texts, rl.as_str());
        push_str(&mut out, "\\frac{d}{d");
        push_str(&mut out, var.as_str());
        push_str(&mut out, "}\\left(");
        push_str(&mut out, body.as_str());
        push_str(&mut out, "\\right) = ");
        push_str(&mut out, rl.as_str());
    } else if str_eq(op_name, "integrate") {
        let var = arg_text(args, 1, texts, "x");
        let body = arg_text(args, 0, texts, "");
        push_str(&mut out, "\\int ");
        push_str(&mut out, body.as_str());
        push_str(&mut out, " \\, d");
        push_str(&mut out, var.as_str());
        push_str(&mut out, " = ");
        push_str(&mut out, rl.as_str());
    } else if str_eq(op_name, "limit") {
        let var = arg_text(args, 1, texts, "x");
        let point = arg_text(args, 2, texts, "0");
        let body = arg_text(args, 0, texts, "");
        push_str(&mut out, "\\lim_{");
        push_str(&mut out, var.as_str());
        push_str(&mut out, " \\to ");
        push_str(&mut out, point.as_str());
        push_str(&mut out, "} ");
        push_str(&mut out, body.as_str());
        push_str(&mut out, " = ");
        push_str(&mut out, rl.as_str());
    } else if str_eq(op_name, "series") || str_eq(op_name, "taylor") {
        let body = arg_text(args, 0, texts, "");
        push_str(&mut out, "\\text{Taylor series of} ");
        push_str(&mut out, body.as_str());
        push_str(&mut out, " = ");
        push_str(&mut out, rl.as_str());
    } else {
        return rl;
    }
    proof {
        assert(""@ =~= Seq::<char>::empty()) by { reveal_strlit(""); }
    }
    assert(out@ =~= spec_latex_symbolic(op_name@, *ast, result_str@, texts@));
    out
}


// ---------------------------------------------------------------------------
// Numeric results
// ---------------------------------------------------------------------------

/// The bit pattern is at least zero as a binary64 value (zero of either sign
/// included, NaN excluded).
pub open spec fn f64_nonneg(bits: u64) -> bool {
    !f64_is_nan(bits) && (f64_sign(bits) == 0 || (bits as nat) == 0x8000_0000_0000_0000)
}

/// The negation of a binary64 value: the sign bit flipped.
pub open spec fn f64_neg(bits: u64) -> u64 {
    if (bits as nat) >= 0x8000_0000_0000_0000 { (bits - 0x8000_0000_0000_0000u64) as u64 } else { (bits + 0x8000_0000_0000_0000u64) as u64 }
}

fn neg_bits(bits: u64) -> (r: u64)
    ensures
        r == f64_neg(bits),
{
    if bits >= 0x8000_0000_0000_0000u64 { bits - 0x8000_0000_0000_0000u64 } else { bits + 0x8000_0000_0000_0000u64 }
}

fn is_nonneg(bits: u64) -> (r: bool)
    ensures
        r == f64_nonneg(bits),
{
    let (sign, e, frac) = f64_fields(bits);
    proof { crate::ast::lemma_two_pow_values(); }
    !(e == 2047 && frac != 0) && (sign == 0 || bits == 0x8000_0000_0000_0000u64)
}

/// A complex value `re + im i` in LaTeX; a negative imaginary part is written
/// after ` - ` with its sign removed.
pub open spec fn spec_complex_latex(re: u64, im: u64, texts: Seq<(u64, String)>) -> Seq<char> {
    if f64_nonneg(im) {
        spec_scalar_latex(re, texts) + " + "@ + spec_scalar_latex(im, texts) + "i"@
    } else {
        spec_scalar_latex(re, texts) + " - "@ + spec_scalar_latex(f64_neg(im), texts) + "i"@
    }
}

fn push_complex_latex(s: &mut String, re: u64, im: u64, texts: &Vec<(u64, String)>)
    ensures
        final(s)@ == old(s)@ + spec_complex_latex(re, im, texts@),
{
    push_scalar_latex(s, re, texts);
    if is_nonneg(im) {
        push_str(s, " + ");
        push_scalar_latex(s, im, texts);
    } else {
        push_str(s, " - ");
        push_scalar_latex(s, neg_bits(im), texts);
    }
    push_str(s, "i");
    assert(final(s)@ =~= old(s)@ + spec_complex_latex(re, im, texts@));
}

/// A complex value `re + im i` in LaTeX.
pub fn format_latex_complex(re: u64, im: u64, texts: &Vec<(u64, String)>) -> (r: String)
    ensures
        r@ == spec_complex_latex(re, im, texts@),
{
    let mut s = String::new();
    push_complex_latex(&mut s, re, im, texts);
    s
}

/// The LaTeX texts of a sequence of values.
pub open spec fn scalars_latex(v: Seq<u64>, texts: Seq<(u64, String)>) -> Seq<Seq<char>> {
    v.map_values(|b: u64| spec_scalar_latex(b, texts))
}

fn push_scalars_joined(s: &mut String, v: &Vec<u64>, sep: &str, texts: &Vec<(u64, String)>)
    ensures
        final(s)@ == old(s)@ + join(scalars_latex(v@, texts@), sep@),
{
    let ghost parts = scalars_latex(v@, texts@);
    let ghost start = s@;
    let mut k: usize = 0;
    assert(parts.take(0).len() == 0);
    assert(s@ =~= start + join(parts.take(0), sep@));
    while k < v.len()
        invariant
            parts == scalars_latex(v@, texts@),
            k <= v@.len(),
            s@ == start + join(parts.take(k as int), sep@),
        decreases v@.len() - k,
    {
        proof {
            assert(parts.take(k + 1).drop_last() =~= parts.take(k as int));
        }
        if k > 0 {
            push_str(s, sep);
        }
        push_scalar_latex(s, v[k], texts);
        k = k + 1;
        proof {
            if k == 1 {
                assert(parts.take(0).len() == 0);
            }
            assert(s@ =~= start + join(parts.take(k as int), sep@));
        }
    }
    assert(parts.take(v@.len() as int) =~= parts);
}

/// A vector in LaTeX: `\left[a, b, c\right]`.
pub open spec fn spec_vector_latex(v: Seq<u64>, texts: Seq<(u64, String)>) -> Seq<char> {
    "\\left["@ + join(scalars_latex(v, texts), ", "@) + "\\right]"@
}

/// A vector in LaTeX: `\left[a, b, c\right]`.
pub fn format_latex_vector(v: &Vec<u64>, texts: &Vec<(u64, String)>) -> (r: String)
    ensures
        r@ == spec_vector_latex(v@, texts@),
{
    let mut s = owned("\\left[");
    push_scalars_joined(&mut s, v, ", ", texts);
    push_str(&mut s, "\\right]");
    assert(s@ =~= spec_vector_latex(v@, texts@));
    s
}

/// The rows of a matrix, each in LaTeX with ` & ` between cells.
pub open spec fn rows_latex(m: Seq<Vec<u64>>, texts: Seq<(u64, String)>) -> Seq<Seq<char>> {
    m.map_values(|row: Vec<u64>| join(scalars_latex(row@, texts), " & "@))
}

/// A matrix in LaTeX: `\begin{pmatrix}a & b \\ c & d\end{pmatrix}`.
pub open spec fn spec_matrix_latex(m: Seq<Vec<u64>>, texts: Seq<(u64, String)>) -> Seq<char> {
    "\\begin{pmatrix}"@ + join(rows_latex(m, texts), " \\\\ "@) + "\\end{pmatrix}"@
}

/// A matrix in LaTeX: `\begin{pmatrix}a & b \\ c & d\end{pmatrix}`.
pub fn format_latex_matrix(m: &Vec<Vec<u64>>, texts: &Vec<(u64, String)>) -> (r: String)
    ensures
        r@ == spec_matrix_latex(m@, texts@),
{
    let ghost parts = rows_latex(m@, texts@);
    let mut s = owned("\\begin{pmatrix}");
    let ghost start = s@;
    let mut k: usize = 0;
    assert(parts.take(0).len() == 0);
    assert(s@ =~= start + join(parts.take(0), " \\\\ "@));
    while k < m.len()
        invariant
            parts == rows_latex(m@, texts@),
            k <= m@.len(),
            s@ == start + join(parts.take(k as int), " \\\\ "@),
        decreases m@.len() - k,
    {
        proof {
            assert(parts.take(k + 1).drop_last() =~= parts.take(k as int));
        }
        if k > 0 {
            push_str(&mut s, " \\\\ ");
        }
        push_scalars_joined(&mut s, &m[k], " & ", texts);
        k = k + 1;
        proof {
            if k == 1 {
                assert(parts.take(0).len() == 0);
            }
            assert(s@ =~= start + join(parts.take(k as int), " \\\\ "@));
        }
    }
    assert(parts.take(m@.len() as int) =~= parts);
    push_str(&mut s, "\\end{pmatrix}");
    assert(s@ =~= spec_matrix_latex(m@, texts@));
    s
}

/// A list of complex values in LaTeX: `\left[a + bi, c - di\right]`.
pub open spec fn spec_complex_list_latex(c: Seq<(u64, u64)>, texts: Seq<(u64, String)>) -> Seq<char> {
    "\\left["@ + join(c.map_values(|p: (u64, u64)| spec_complex_latex(p.0, p.1, texts)), ", "@) + "\\right]"@
}

/// A list of complex values in LaTeX: `\left[a + bi, c - di\right]`.
pub fn format_latex_complex_list(c: &Vec<(u64, u64)>, texts: &Vec<(u64, String)>) -> (r: String)
    ensures
        r@ == spec_complex_list_latex(c@, texts@),
{
    let ghost parts = c@.map_values(|p: (u64, u64)| spec_complex_latex(p.0, p.1, texts@));
    let mut s = owned("\\left[");
    let ghost start = s@;
    let mut k: usize = 0;
    assert(parts.take(0).len() == 0);
    assert(s@ =~= start + join(parts.take(0), ", "@));
    while k < c.len()
        invariant
            parts == c@.map_values(|p: (u64, u64)| spec_complex_latex(p.0, p.1, texts@)),
            k <= c@.len(),
            s@ == start + join(parts.take(k as int), ", "@),
        decreases c@.len() - k,
    {
        proof {
            assert(parts.take(k + 1).drop_last() =~= parts.take(k as int));
        }
        if k > 0 {
            push_str(&mut s, ", ");
        }
        let (re, im) = c[k];
        push_complex_latex(&mut s, re, im, texts);
        k = k + 1;
        proof {
            if k == 1 {
                assert(parts.take(0).len() == 0);
            }
            assert(s@ =~= start + join(parts.take(k as int), ", "@));
        }
    }
    assert(parts.take(c@.len() as int) =~= parts);
    push_str(&mut s, "\\right]");
    assert(s@ =~= spec_complex_list_latex(c@, texts@));
    s
}

/// The bit patterns of binary64 zero (either sign), one and minus one.
pub open spec fn f64_is_zero(bits: u64) -> bool {
    bits == 0 || bits == 0x8000_0000_0000_0000u64
}

/// The term of degree `i` with coefficient `c` (not zero).
pub open spec fn poly_term(i: nat, c: u64, texts: Seq<(u64, String)>) -> Seq<char> {
    if i == 0 {
        spec_scalar_latex(c, texts)
    } else {
        let power = if i == 1 { "x"@ } else { "x^{"@ + nat_decimal(i) + "}"@ };
        if c == 0x3FF0_0000_0000_0000u64 {
            power
        } else if c == 0xBFF0_0000_0000_0000u64 {
            "-"@ + power
        } else {
            spec_scalar_latex(c, texts) + power
        }
    }
}

/// The terms of the coefficients below degree `n`, highest degree first,
/// zero coefficients left out.
pub open spec fn poly_terms(p: Seq<u64>, n: int, texts: Seq<(u64, String)>) -> Seq<Seq<char>>
    decreases n,
{
    if n <= 0 {
        Seq::empty()
    } else {
        let rest = poly_terms(p, n - 1, texts);
        if f64_is_zero(p[n - 1]) { rest } else { seq![poly_term((n - 1) as nat, p[n - 1], texts)] + rest }
    }
}

/// Terms written one after the other: a term that starts with `-` follows
/// directly, any other after ` + `.
pub open spec fn combine_terms(ts: Seq<Seq<char>>) -> Seq<char>
    decreases ts.len(),
{
    if ts.len() == 0 {
        Seq::empty()
    } else if ts.len() == 1 {
        ts[0]
    } else {
        let last = ts.last();
        combine_terms(ts.drop_last()) + if last.len() > 0 && last[0] == '-' { last } else { " + "@ + last }
    }
}

/// A polynomial (coefficients lowest degree first) in LaTeX, highest degree
/// first: `x^{2} + 2x + 1`; `0` when every coefficient is zero.
pub open spec fn spec_polynomial_latex(p: Seq<u64>, texts: Seq<(u64, String)>) -> Seq<char> {
    let ts = poly_terms(p, p.len() as int, texts);
    if ts.len() == 0 { "0"@ } else { combine_terms(ts) }
}

fn poly_term_exec(i: usize, c: u64, texts: &Vec<(u64, String)>) -> (r: String)
    ensures
        r@ == poly_term(i as nat, c, texts@),
{
    if i == 0 {
        return format_latex_scalar(c, texts);
    }
    let mut power = String::new();
    if i == 1 {
        push_str(&mut power, "x");
    } else {
        push_str(&mut power, "x^{");
        push_u64(&mut power, i as u64);
        push_str(&mut power, "}");
    }
    let mut out = String::new();
    if c == 0x3FF0_0000_0000_0000u64 {
    } else if c == 0xBFF0_0000_0000_0000u64 {
        push_str(&mut out, "-");
    } else {
        push_scalar_latex(&mut out, c, texts);
    }
    push_str(&mut out, power.as_str());
    proof {
        assert(""@ =~= Seq::<char>::empty()) by { reveal_strlit(""); }
    }
    assert(out@ =~= poly_term(i as nat, c, texts@));
    out
}

fn starts_with_minus(s: &String) -> (r: bool)
    ensures
        r == (s@.len() > 0 && s@[0] == '-'),
{
    let cs = chars_of(s.as_str());
    cs.len() > 0 && cs[0] == '-'
}

/// A polynomial (coefficients lowest degree first) in LaTeX, highest degree
/// first; `0` when every coefficient is zero.
pub fn format_latex_polynomial(p: &Vec<u64>, texts: &Vec<(u64, String)>) -> (r: String)
    ensures
        r@ == spec_polynomial_latex(p@, texts@),
{
    // Terms, highest degree first.
    let mut terms: Vec<String> = Vec::new();
    let mut n: usize = p.len();
    let ghost full = poly_terms(p@, p@.len() as int, texts@);
    while n > 0
        invariant
            n <= p@.len(),
            full == poly_terms(p@, p@.len() as int, texts@),
            terms@.map_values(|t: String| t@) + poly_terms(p@, n as int, texts@) == full,
        decreases n,
    {
        let c = p[n - 1];
        if !(c == 0 || c == 0x8000_0000_0000_0000u64) {
            let t = poly_term_exec(n - 1, c, texts);
            let ghost before = terms@;
            terms.push(t);
            assert(terms@.map_values(|t: String| t@) + poly_terms(p@, n - 1, texts@)
                =~= before.map_values(|t: String| t@) + poly_terms(p@, n as int, texts@));
        } else {
            assert(poly_terms(p@, n as int, texts@) == poly_terms(p@, n - 1, texts@));
        }
        n = n - 1;
    }
    assert(poly_terms(p@, 0, texts@).len() == 0);
    assert(terms@.map_values(|t: String| t@) =~= full);
    if terms.len() == 0 {
        return owned("0");
    }
    let ghost tv = terms@.map_values(|t: String| t@);
    let mut out = terms[0].clone();
    let mut k: usize = 1;
    assert(tv.take(1) =~= seq![tv[0]]);
    while k < terms.len()
        invariant
            tv == terms@.map_values(|t: String| t@),
            1 <= k <= terms@.len(),
            out@ == combine_terms(tv.take(k as int)),
        decreases terms@.len() - k,
    {
        proof {
            assert(tv.take(k + 1).drop_last() =~= tv.take(k as int));
        }
        if starts_with_minus(&terms[k]) {
            push_str(&mut out, terms[k].as_str());
        } else {
            push_str(&mut out, " + ");
            push_str(&mut out, terms[k].as_str());
        }
        k = k + 1;
        assert(out@ =~= combine_terms(tv.take(k as int)));
    }
    assert(tv.take(terms@.len() as int) =~= tv);
    out
}


// ---------------------------------------------------------------------------
// Exact numbers
// ---------------------------------------------------------------------------

/// An integer of any size in LaTeX: its decimal digits.
pub fn format_latex_bigint(b: &BigInt) -> (r: String)
    ensures
        r@ == int_decimal(b@),
{
    b.to_decimal_string()
}

/// A fraction in LaTeX: with a precision, its truncated decimal text;
/// otherwise `\frac{numerator}{denominator}`.
pub open spec fn spec_bigrational_latex(n: int, d: int, fmt_prec: Option<usize>) -> Seq<char> {
    match fmt_prec {
        Some(p) => decimal_text(n, d, p as nat),
        None => "\\frac{"@ + int_decimal(n) + "}{"@ + int_decimal(d) + "}"@,
    }
}

/// A fraction in LaTeX: `\frac{p}{q}`, or `fmt_prec` decimals when given.
pub fn format_latex_bigrational(r: &BigRational, fmt_prec: Option<usize>) -> (out: String)
    ensures
        out@ == spec_bigrational_latex(r@.0, r@.1, fmt_prec),
{
    match fmt_prec {
        Some(p) => format_decimal(r, p),
        None => {
            let mut out = owned("\\frac{");
            push_str(&mut out, r.numer().to_decimal_string().as_str());
            push_str(&mut out, "}{");
            push_str(&mut out, r.denom().to_decimal_string().as_str());
            push_str(&mut out, "}");
            out
        },
    }
}

// ---------------------------------------------------------------------------
// Any result
// ---------------------------------------------------------------------------

/// The symbolic operations that are rendered with their operands.
pub open spec fn is_symbolic_op(name: Seq<char>) -> bool {
    name == "diff"@ || name == "integrate"@ || name == "limit"@ || name == "series"@ || name == "taylor"@
}

/// A result in LaTeX. A symbolic result of a call to one of the symbolic
/// operations is shown with its operands; steps are joined with ` \to `.
pub open spec fn spec_format_latex(result: EvalResult, ast: AstNode, fmt_prec: Option<usize>, texts: Seq<(u64, String)>) -> Seq<char> {
    match result {
        EvalResult::Scalar(v) => spec_scalar_latex(v, texts),
        EvalResult::Complex(re, im) => spec_complex_latex(re, im, texts),
        EvalResult::Matrix(m) => spec_matrix_latex(m@, texts),
        EvalResult::BigInt(b) => int_decimal(b@),
        EvalResult::BigRational(q) => spec_bigrational_latex(q@.0, q@.1, fmt_prec),
        EvalResult::Vector(v) => spec_vector_latex(v@, texts),
        EvalResult::Polynomial(p) => spec_polynomial_latex(p@, texts),
        EvalResult::ComplexList(c) => spec_complex_list_latex(c@, texts),
        EvalResult::Symbolic(s) => match ast {
            AstNode::FunctionCall(name, _) => if is_symbolic_op(name@) {
                spec_latex_symbolic(name@, ast, s@, texts)
            } else {
                spec_symbolic_str_to_latex(s@)
            },
            _ => spec_symbolic_str_to_latex(s@),
        },
        EvalResult::LaTeX(s) => s@,
        EvalResult::DateTime(s) => s@,
        EvalResult::Steps(v) => join(v@.map_values(|p: String| p@), " \\to "@),
    }
}

/// A result in LaTeX. `ast` is the evaluated expression, used to show the
/// operands of a symbolic operation; `fmt_prec` is the number of decimals for
/// an exact fraction; `_expr` (the source text) is not used.
pub fn format_latex(
    result: &EvalResult,
    ast: &AstNode,
    _expr: &str,
    fmt_prec: Option<usize>,
    texts: &Vec<(u64, String)>,
) -> (r: String)
    ensures
        r@ == spec_format_latex(*result, *ast, fmt_prec, texts@),
{
    match result {
        EvalResult::Scalar(v) => format_latex_scalar(*v, texts),
        EvalResult::Complex(re, im) => format_latex_complex(*re, *im, texts),
        EvalResult::Matrix(m) => format_latex_matrix(m, texts),
        EvalResult::BigInt(b) => format_latex_bigint(b),
        EvalResult::BigRational(q) => format_latex_bigrational(q, fmt_prec),
        EvalResult::Vector(v) => format_latex_vector(v, texts),
        EvalResult::Polynomial(p) => format_latex_polynomial(p, texts),
        EvalResult::ComplexList(c) => format_latex_complex_list(c, texts),
        EvalResult::Symbolic(s) => {
            if let AstNode::FunctionCall(name, _) = ast {
                let n = name.as_str();
                if str_eq(n, "diff") || str_eq(n, "integrate") || str_eq(n, "limit") || str_eq(n, "series")
                    || str_eq(n, "taylor") {
                    return format_latex_symbolic(n, ast, s.as_str(), texts);
                }
            }
            symbolic_str_to_latex(s.as_str())
        },
        EvalResult::LaTeX(s) => s.clone(),
        EvalResult::DateTime(s) => s.clone(),
        EvalResult::Steps(v) => {
            let mut out = String::new();
            push_joined(&mut out, v, " \\to ");
            assert(out@ =~= join(v@.map_values(|p: String| p@), " \\to "@));
            out
        },
    }
}

} // verus!
