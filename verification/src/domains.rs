//! The calculation domains handled outside the numeric core: which
//! expressions each of them claims, and their routing metadata.

use vstd::prelude::*;
use crate::ast::{AstNode, BinaryOp};
use crate::text::str_eq;

verus! {

/// Whether some node of the tree calls a function whose name satisfies
/// `named`, looking through operators and call arguments, and also through
/// matrix cells and list elements when `deep` holds.
pub open spec fn calls_function(n: AstNode, named: spec_fn(Seq<char>) -> bool, deep: bool) -> bool
    decreases n,
{
    match n {
        AstNode::FunctionCall(name, args) => named(name@) || exists|i: int|
            0 <= i < args@.len() && calls_function(#[trigger] args@[i], named, deep),
        AstNode::BinaryOp(_, l, r) => calls_function(*l, named, deep) || calls_function(*r, named, deep),
        AstNode::UnaryOp(_, e) => calls_function(*e, named, deep),
        AstNode::Matrix(rows) => deep && exists|i: int, j: int|
            0 <= i < rows@.len() && 0 <= j < rows@[i]@.len() && calls_function(#[trigger] rows@[i]@[j], named, deep),
        AstNode::List(elems) => deep && exists|i: int|
            0 <= i < elems@.len() && calls_function(#[trigger] elems@[i], named, deep),
        _ => false,
    }
}

/// The character sequences of a sequence of string slices.
pub open spec fn name_set(v: Seq<&'static str>) -> spec_fn(Seq<char>) -> bool {
    |s: Seq<char>| exists|i: int| 0 <= i < v.len() && #[trigger] v[i]@ == s
}

pub(crate) fn name_in(names: &Vec<&'static str>, s: &str) -> (r: bool)
    ensures
        r == (name_set(names@))(s@),
{
    let mut i: usize = 0;
    while i < names.len()
        invariant
            i <= names@.len(),
            forall|k: int| 0 <= k < i ==> names@[k]@ != s@,
        decreases names@.len() - i,
    {
        if str_eq(names[i], s) {
            return true;
        }
        i = i + 1;
    }
    false
}

fn any_calls(v: &Vec<AstNode>, names: &Vec<&'static str>, deep: bool) -> (r: bool)
    ensures
        r == exists|i: int| 0 <= i < v@.len() && calls_function(#[trigger] v@[i], name_set(names@), deep),
    decreases v@, 1nat,
{
    let mut i: usize = 0;
    while i < v.len()
        invariant
            i <= v@.len(),
            forall|k: int| 0 <= k < i ==> !calls_function(#[trigger] v@[k], name_set(names@), deep),
        decreases v@.len() - i,
    {
        if tree_calls(&v[i], names, deep) {
            return true;
        }
        i = i + 1;
    }
    false
}

fn matrix_calls(rows: &Vec<Vec<AstNode>>, names: &Vec<&'static str>, deep: bool) -> (r: bool)
    ensures
        r == exists|i: int, j: int|
            0 <= i < rows@.len() && 0 <= j < rows@[i]@.len() && calls_function(#[trigger] rows@[i]@[j], name_set(names@), deep),
    decreases rows@, 2nat,
{
    let mut i: usize = 0;
    while i < rows.len()
        invariant
            i <= rows@.len(),
            forall|a: int, b: int| 0 <= a < i && 0 <= b < rows@[a]@.len() ==> !calls_function(#[trigger] rows@[a]@[b], name_set(names@), deep),
        decreases rows@.len() - i,
    {
        proof {
            assert(decreases_to!(rows@ => rows@[i as int]));
        }
        if any_calls(&rows[i], names, deep) {
            proof {
                let row = rows@[i as int];
                let j = choose|j: int| 0 <= j < row@.len() && calls_function(#[trigger] row@[j], name_set(names@), deep);
                assert(calls_function(rows@[i as int]@[j], name_set(names@), deep));
            }
            return true;
        }
        i = i + 1;
    }
    false
}

/// Whether the tree calls one of `names`, looking into matrices and lists
/// when `deep` holds.
fn tree_calls(n: &AstNode, names: &Vec<&'static str>, deep: bool) -> (r: bool)
    ensures
        r == calls_function(*n, name_set(names@), deep),
    decreases *n, 0nat,
{
    match n {
        AstNode::FunctionCall(name, args) => name_in(names, name.as_str()) || any_calls(args, names, deep),
        AstNode::BinaryOp(_, l, r) => tree_calls(l, names, deep) || tree_calls(r, names, deep),
        AstNode::UnaryOp(_, e) => tree_calls(e, names, deep),
        AstNode::Matrix(rows) => deep && matrix_calls(rows, names, deep),
        AstNode::List(elems) => deep && any_calls(elems, names, deep),
        _ => false,
    }
}

/// The functions that route an expression to the unit domain.
pub open spec fn spec_unit_functions() -> Seq<&'static str> {
    seq!["convert", "mod", "abs"]
}

/// The functions that route an expression to the unit domain.
pub fn unit_functions() -> (v: Vec<&'static str>)
    ensures
        v@ == spec_unit_functions(),
{
    let mut v: Vec<&'static str> = Vec::new();
    v.push("convert");
    v.push("mod");
    v.push("abs");
    assert(v@ =~= spec_unit_functions());
    v
}

/// The functions of the time domain.
pub open spec fn spec_time_functions() -> Seq<&'static str> {
    seq!["date", "datetime", "timestamp", "from_timestamp", "date_diff", "date_add", "parse_date", "format_date", "reformat_date", "weekday", "day_of_year", "is_leap_year", "now", "today"]
}

/// The functions of the time domain.
pub fn time_functions() -> (v: Vec<&'static str>)
    ensures
        v@ == spec_time_functions(),
{
    let mut v: Vec<&'static str> = Vec::new();
    v.push("date");
    v.push("datetime");
    v.push("timestamp");
    v.push("from_timestamp");
    v.push("date_diff");
    v.push("date_add");
    v.push("parse_date");
    v.push("format_date");
    v.push("reformat_date");
    v.push("weekday");
    v.push("day_of_year");
    v.push("is_leap_year");
    v.push("now");
    v.push("today");
    assert(v@ =~= spec_time_functions());
    v
}

/// The functions of the vector domain.
pub open spec fn spec_vector_functions() -> Seq<&'static str> {
    seq!["dot", "cross", "norm", "angle", "normalize", "scalar_triple", "cosine_similarity", "project", "reflect", "euclidean", "manhattan", "outer", "lerp"]
}

/// The functions of the vector domain.
pub fn vector_functions() -> (v: Vec<&'static str>)
    ensures
        v@ == spec_vector_functions(),
{
    let mut v: Vec<&'static str> = Vec::new();
    v.push("dot");
    v.push("cross");
    v.push("norm");
    v.push("angle");
    v.push("normalize");
    v.push("scalar_triple");
    v.push("cosine_similarity");
    v.push("project");
    v.push("reflect");
    v.push("euclidean");
    v.push("manhattan");
    v.push("outer");
    v.push("lerp");
    assert(v@ =~= spec_vector_functions());
    v
}

/// The functions of the symbolic domain.
pub open spec fn spec_symbolic_functions() -> Seq<&'static str> {
    seq!["diff", "integrate", "simplify", "limit", "taylor"]
}

/// The functions of the symbolic domain.
pub fn symbolic_functions() -> (v: Vec<&'static str>)
    ensures
        v@ == spec_symbolic_functions(),
{
    let mut v: Vec<&'static str> = Vec::new();
    v.push("diff");
    v.push("integrate");
    v.push("simplify");
    v.push("limit");
    v.push("taylor");
    assert(v@ =~= spec_symbolic_functions());
    v
}

/// The time functions whose result depends on the clock.
pub open spec fn spec_nondeterministic_time_functions() -> Seq<&'static str> {
    seq!["now", "today"]
}

/// The time functions whose result depends on the clock.
pub fn nondeterministic_time_functions() -> (v: Vec<&'static str>)
    ensures
        v@ == spec_nondeterministic_time_functions(),
{
    let mut v: Vec<&'static str> = Vec::new();
    v.push("now");
    v.push("today");
    assert(v@ =~= spec_nondeterministic_time_functions());
    v
}

/// Whether the tree calls `convert`, `mod` or `abs` anywhere, including inside
/// matrices and lists.
pub open spec fn spec_contains_unit_function(n: AstNode) -> bool {
    calls_function(n, name_set(spec_unit_functions()), true)
}

/// Whether the tree calls a unit-domain function (`convert`, `mod`, `abs`)
/// anywhere, including inside matrices and lists.
pub fn contains_unit_function(ast: &AstNode) -> (r: bool)
    ensures
        r == spec_contains_unit_function(*ast),
{
    tree_calls(ast, &unit_functions(), true)
}

/// Whether the tree calls a time function through operators and call arguments.
pub open spec fn spec_contains_time_function(n: AstNode) -> bool {
    calls_function(n, name_set(spec_time_functions()), false)
}

/// Whether the tree calls a time function through operators and call
/// arguments (matrices and lists are not searched).
pub fn contains_time_function(ast: &AstNode) -> (r: bool)
    ensures
        r == spec_contains_time_function(*ast),
{
    tree_calls(ast, &time_functions(), false)
}

/// Whether the tree calls a vector function anywhere.
pub open spec fn spec_contains_vector_function(n: AstNode) -> bool {
    calls_function(n, name_set(spec_vector_functions()), true)
}

/// Whether the tree calls a vector function anywhere, including inside
/// matrices and lists.
pub fn contains_vector_function(ast: &AstNode) -> (r: bool)
    ensures
        r == spec_contains_vector_function(*ast),
{
    tree_calls(ast, &vector_functions(), true)
}

/// Whether the tree calls a symbolic function through operators and call arguments.
pub open spec fn spec_contains_symbolic_function(n: AstNode) -> bool {
    calls_function(n, name_set(spec_symbolic_functions()), false)
}

/// Whether the tree calls `diff`, `integrate`, `simplify`, `limit` or `taylor`
/// through operators and call arguments.
pub fn contains_symbolic_function(ast: &AstNode) -> (r: bool)
    ensures
        r == spec_contains_symbolic_function(*ast),
{
    tree_calls(ast, &symbolic_functions(), false)
}

/// Whether the node is a list literal.
pub fn is_list_node(ast: &AstNode) -> (r: bool)
    ensures
        r == (*ast is List),
{
    match ast {
        AstNode::List(_) => true,
        _ => false,
    }
}

/// Whether some addition, subtraction or multiplication in the tree has a
/// list literal as an operand.
pub open spec fn spec_vector_arithmetic(n: AstNode) -> bool
    decreases n,
{
    match n {
        AstNode::BinaryOp(op, l, r) => ((op == BinaryOp::Add || op == BinaryOp::Sub || op == BinaryOp::Mul)
            && (*l is List || *r is List)) || spec_vector_arithmetic(*l) || spec_vector_arithmetic(*r),
        AstNode::UnaryOp(_, e) => spec_vector_arithmetic(*e),
        AstNode::FunctionCall(_, args) => exists|i: int| 0 <= i < args@.len() && spec_vector_arithmetic(#[trigger] args@[i]),
        AstNode::Matrix(rows) => exists|i: int, j: int|
            0 <= i < rows@.len() && 0 <= j < rows@[i]@.len() && spec_vector_arithmetic(#[trigger] rows@[i]@[j]),
        AstNode::List(elems) => exists|i: int| 0 <= i < elems@.len() && spec_vector_arithmetic(#[trigger] elems@[i]),
        _ => false,
    }
}

fn any_vector_arithmetic(v: &Vec<AstNode>) -> (r: bool)
    ensures
        r == exists|i: int| 0 <= i < v@.len() && spec_vector_arithmetic(#[trigger] v@[i]),
    decreases v@, 1nat,
{
    let mut i: usize = 0;
    while i < v.len()
        invariant
            i <= v@.len(),
            forall|k: int| 0 <= k < i ==> !spec_vector_arithmetic(#[trigger] v@[k]),
        decreases v@.len() - i,
    {
        if contains_vector_arithmetic(&v[i]) {
            return true;
        }
        i = i + 1;
    }
    false
}

fn matrix_vector_arithmetic(rows: &Vec<Vec<AstNode>>) -> (r: bool)
    ensures
        r == exists|i: int, j: int|
            0 <= i < rows@.len() && 0 <= j < rows@[i]@.len() && spec_vector_arithmetic(#[trigger] rows@[i]@[j]),
    decreases rows@, 2nat,
{
    let mut i: usize = 0;
    while i < rows.len()
        invariant
            i <= rows@.len(),
            forall|a: int, b: int| 0 <= a < i && 0 <= b < rows@[a]@.len() ==> !spec_vector_arithmetic(#[trigger] rows@[a]@[b]),
        decreases rows@.len() - i,
    {
        proof {
            assert(decreases_to!(rows@ => rows@[i as int]));
        }
        if any_vector_arithmetic(&rows[i]) {
            proof {
                let row = rows@[i as int];
                let j = choose|j: int| 0 <= j < row@.len() && spec_vector_arithmetic(#[trigger] row@[j]);
                assert(spec_vector_arithmetic(rows@[i as int]@[j]));
            }
            return true;
        }
        i = i + 1;
    }
    false
}

/// Whether some addition, subtraction or multiplication in the tree has a
/// list literal (a vector) as an operand.
pub fn contains_vector_arithmetic(ast: &AstNode) -> (r: bool)
    ensures
        r == spec_vector_arithmetic(*ast),
    decreases *ast, 0nat,
{
    match ast {
        AstNode::BinaryOp(op, l, r) => {
            let is_arith = match op {
                BinaryOp::Add | BinaryOp::Sub | BinaryOp::Mul => true,
                _ => false,
            };
            if is_arith && (is_list_node(l) || is_list_node(r)) {
                return true;
            }
            contains_vector_arithmetic(l) || contains_vector_arithmetic(r)
        },
        AstNode::UnaryOp(_, e) => contains_vector_arithmetic(e),
        AstNode::FunctionCall(_, args) => any_vector_arithmetic(args),
        AstNode::Matrix(rows) => matrix_vector_arithmetic(rows),
        AstNode::List(elems) => any_vector_arithmetic(elems),
        _ => false,
    }
}

// ---------------------------------------------------------------------------
// Domains
// ---------------------------------------------------------------------------

/// The unit-conversion domain (`convert(value, "from", "to")`).
pub struct UnitDomain;

/// The time domain (dates, timestamps, calendar queries).
pub struct TimeDomain;

/// The vector domain (vector functions and list arithmetic).
pub struct VectorDomain;

/// The symbolic domain (`diff`, `integrate`, `simplify`, `limit`, `taylor`).
pub struct SymbolicDomain;

impl UnitDomain {
    /// The routing name of the domain.
    pub fn domain_name(&self) -> (s: &'static str)
        ensures
            s@ == "unit"@,
    {
        "unit"
    }

    /// The routing priority of the domain.
    pub fn priority(&self) -> (p: u8)
        ensures
            p == 30,
    {
        30
    }

    /// The domain claims trees that call a unit function anywhere.
    pub fn supports(&self, ast: &AstNode) -> (r: bool)
        ensures
            r == spec_contains_unit_function(*ast),
    {
        contains_unit_function(ast)
    }
}

impl TimeDomain {
    /// The routing name of the domain.
    pub fn domain_name(&self) -> (s: &'static str)
        ensures
            s@ == "time"@,
    {
        "time"
    }

    /// The routing priority of the domain.
    pub fn priority(&self) -> (p: u8)
        ensures
            p == 30,
    {
        30
    }

    /// The functions whose result depends on the clock, so must not be cached.
    pub fn nondeterministic_functions(&self) -> (v: Vec<&'static str>)
        ensures
            v@ == spec_nondeterministic_time_functions(),
    {
        nondeterministic_time_functions()
    }

    /// The domain claims trees that call a time function.
    pub fn supports(&self, ast: &AstNode) -> (r: bool)
        ensures
            r == spec_contains_time_function(*ast),
    {
        contains_time_function(ast)
    }
}

impl VectorDomain {
    /// The routing name of the domain.
    pub fn domain_name(&self) -> (s: &'static str)
        ensures
            s@ == "vector"@,
    {
        "vector"
    }

    /// The routing priority of the domain.
    pub fn priority(&self) -> (p: u8)
        ensures
            p == 30,
    {
        30
    }

    /// The domain claims trees that call a vector function or do arithmetic
    /// on a list literal.
    pub fn supports(&self, ast: &AstNode) -> (r: bool)
        ensures
            r == (spec_contains_vector_function(*ast) || spec_vector_arithmetic(*ast)),
    {
        contains_vector_function(ast) || contains_vector_arithmetic(ast)
    }
}

impl SymbolicDomain {
    /// The routing name of the domain.
    pub fn domain_name(&self) -> (s: &'static str)
        ensures
            s@ == "symbolic"@,
    {
        "symbolic"
    }

    /// The routing priority of the domain.
    pub fn priority(&self) -> (p: u8)
        ensures
            p == 30,
    {
        30
    }

    /// The domain claims trees that call a symbolic function.
    pub fn supports(&self, ast: &AstNode) -> (r: bool)
        ensures
            r == spec_contains_symbolic_function(*ast),
    {
        contains_symbolic_function(ast)
    }
}

impl Default for UnitDomain {
    fn default() -> (r: Self) {
        UnitDomain
    }
}

impl Default for TimeDomain {
    fn default() -> (r: Self) {
        TimeDomain
    }
}

impl Default for VectorDomain {
    fn default() -> (r: Self) {
        VectorDomain
    }
}

impl Default for SymbolicDomain {
    fn default() -> (r: Self) {
        SymbolicDomain
    }
}

} // verus!
