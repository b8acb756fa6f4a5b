//! Unit conversion decisions and the errors they raise.
//!
//! The numeric part of a conversion (multiplying a binary64 value by the exact
//! factors, or the affine temperature map) is done by the caller; this module
//! decides which conversion applies and builds the errors.

use vstd::prelude::*;
use crate::edit_distance::{edit_distance, levenshtein};
use crate::error::{CalcError, ErrorKind, args_view};
use crate::text::{nat_decimal, owned, push_str, push_u64, str_eq};
use crate::ast::AstNode;
use crate::time_eval::node_debug;
use crate::unit_table::{
    Dimension, LINEAR_UNIT_COUNT, dimension_name, is_temperature_name, is_temperature_unit,
    lookup, spec_dimension_name, spec_linear_units, spec_lookup, unit_entry,
};

verus! {

/// The character sequences of a sequence of string slices.
pub open spec fn str_views(v: Seq<&'static str>) -> Seq<Seq<char>> {
    v.map_values(|s: &'static str| s@)
}

proof fn lemma_str_views_push(v: Seq<&'static str>, x: &'static str)
    ensures
        str_views(v.push(x)) == str_views(v).push(x@),
{
    assert(str_views(v.push(x)) =~= str_views(v).push(x@));
}

/// Whether `cand` is offered as a correction of `unit`: close but not equal.
pub open spec fn is_suggestion(unit: Seq<char>, cand: Seq<char>) -> bool {
    0 < edit_distance(unit, cand) && edit_distance(unit, cand) <= 2
}

/// The candidates of `names` that are suggestions for `unit`, in order.
pub open spec fn filter_suggestions(unit: Seq<char>, names: Seq<Seq<char>>) -> Seq<Seq<char>>
    decreases names.len(),
{
    if names.len() == 0 {
        Seq::empty()
    } else {
        let rest = filter_suggestions(unit, names.drop_last());
        if is_suggestion(unit, names.last()) {
            rest.push(names.last())
        } else {
            rest
        }
    }
}

/// The names of the linear units, in table order.
pub open spec fn linear_names() -> Seq<Seq<char>> {
    spec_linear_units().map_values(|e: (Seq<char>, Dimension, nat, nat)| e.0)
}

/// The names of the temperature units.
pub open spec fn temperature_names() -> Seq<Seq<char>> {
    seq!["C"@, "F"@, "K"@, "R"@]
}

/// The suggestions for an unknown unit: close linear units, then close
/// temperature units.
pub open spec fn suggestions(unit: Seq<char>) -> Seq<Seq<char>> {
    filter_suggestions(unit, linear_names()) + filter_suggestions(unit, temperature_names())
}

/// The parts joined with the separator between consecutive parts.
pub open spec fn join(parts: Seq<Seq<char>>, sep: Seq<char>) -> Seq<char>
    decreases parts.len(),
{
    if parts.len() == 0 {
        Seq::empty()
    } else if parts.len() == 1 {
        parts[0]
    } else {
        join(parts.drop_last(), sep) + sep + parts.last()
    }
}

/// The message of an unknown-unit error.
pub open spec fn unknown_unit_message(unit: Seq<char>) -> Seq<char> {
    if suggestions(unit).len() == 0 {
        "unknown unit: "@ + unit
    } else {
        "unknown unit: "@ + unit + ", did you mean: "@ + join(suggestions(unit), ", "@)
    }
}

fn collect_suggestions(unit: &str, names: &Vec<&'static str>, out: &mut Vec<&'static str>)
    ensures
        str_views(final(out)@) == str_views(old(out)@)
            + filter_suggestions(unit@, str_views(names@)),
{
    let ghost ns = str_views(names@);
    let ghost start = str_views(out@);
    let mut i: usize = 0;
    assert(ns.take(0) =~= Seq::<Seq<char>>::empty());
    assert(start + filter_suggestions(unit@, ns.take(0)) =~= start);
    while i < names.len()
        invariant
            ns == str_views(names@),
            i <= names@.len(),
            str_views(out@) == start + filter_suggestions(unit@, ns.take(i as int)),
        decreases names@.len() - i,
    {
        let c = names[i];
        let d = levenshtein(unit, c);
        proof {
            assert(ns.take(i + 1).drop_last() =~= ns.take(i as int));
            assert(ns.take(i + 1).last() == c@);
        }
        if d > 0 && d <= 2 {
            proof {
                assert(is_suggestion(unit@, c@));
                assert(filter_suggestions(unit@, ns.take(i + 1)) == filter_suggestions(unit@, ns.take(i as int)).push(c@));
            }
            proof { lemma_str_views_push(out@, c); }
            out.push(c);
            assert(str_views(out@) =~= start + filter_suggestions(unit@, ns.take(i + 1)));
        } else {
            assert(str_views(out@) =~= start + filter_suggestions(unit@, ns.take(i + 1)));
        }
        i = i + 1;
    }
    assert(ns.take(names@.len() as int) =~= ns);
}

fn linear_name_list() -> (v: Vec<&'static str>)
    ensures
        str_views(v@) == linear_names(),
{
    let mut v: Vec<&'static str> = Vec::new();
    let mut i: usize = 0;
    while i < LINEAR_UNIT_COUNT
        invariant
            i <= LINEAR_UNIT_COUNT,
            str_views(v@) == linear_names().take(i as int),
        decreases LINEAR_UNIT_COUNT - i,
    {
        let e = unit_entry(i);
        proof {
            assert(spec_linear_units().len() == LINEAR_UNIT_COUNT);
            assert(linear_names()[i as int] == e.name@);
        }
        proof { lemma_str_views_push(v@, e.name); }
        v.push(e.name);
        i = i + 1;
        assert(str_views(v@) =~= linear_names().take(i as int));
    }
    assert(linear_names().take(LINEAR_UNIT_COUNT as int) =~= linear_names());
    v
}

fn temperature_name_list() -> (v: Vec<&'static str>)
    ensures
        str_views(v@) == temperature_names(),
{
    let mut v: Vec<&'static str> = Vec::new();
    v.push("C");
    v.push("F");
    v.push("K");
    v.push("R");
    assert(str_views(v@) =~= temperature_names());
    v
}

/// Builds the "unknown unit" error, suggesting the known units (linear and
/// temperature) within edit distance two of the name but not equal to it.
pub fn unknown_unit_error(unit: &str) -> (e: CalcError)
    ensures
        e.kind == ErrorKind::Domain,
        e.message@ == unknown_unit_message(unit@),
        e.i18n_key == Some("msg.unit.unknown_unit"),
        args_view(e.i18n_args@) == seq![("unit"@, unit@)],
{
    let linear = linear_name_list();
    let temps = temperature_name_list();
    let mut sugg: Vec<&'static str> = Vec::new();
    collect_suggestions(unit, &linear, &mut sugg);
    collect_suggestions(unit, &temps, &mut sugg);
    let ghost sv = str_views(sugg@);
    assert(sv =~= suggestions(unit@));
    let mut msg = owned("unknown unit: ");
    push_str(&mut msg, unit);
    if sugg.len() > 0 {
        push_str(&mut msg, ", did you mean: ");
        let ghost prefix = msg@;
        let mut k: usize = 0;
        while k < sugg.len()
            invariant
                sv == str_views(sugg@),
                k <= sugg@.len(),
                msg@ == prefix + join(sv.take(k as int), ", "@),
            decreases sugg@.len() - k,
        {
            proof {
                assert(sv.take(k + 1).drop_last() =~= sv.take(k as int));
            }
            if k > 0 {
                push_str(&mut msg, ", ");
            }
            push_str(&mut msg, sugg[k]);
            k = k + 1;
            proof {
                if k == 1 {
                    assert(sv.take(0).len() == 0);
                }
                assert(msg@ =~= prefix + join(sv.take(k as int), ", "@));
            }
        }
        assert(sv.take(sugg@.len() as int) =~= sv);
        assert(msg@ =~= unknown_unit_message(unit@));
    }
    let mut args: Vec<(String, String)> = Vec::new();
    args.push((owned("unit"), owned(unit)));
    assert(args_view(args@) =~= seq![("unit"@, unit@)]);
    CalcError::domain(msg).with_i18n("msg.unit.unknown_unit", args)
}

/// The message of a dimension-mismatch error.
pub open spec fn dimension_mismatch_message(from: Seq<char>, from_dim: Dimension, to: Seq<char>, to_dim: Dimension) -> Seq<char> {
    "dimension mismatch: "@ + from + " is "@ + spec_dimension_name(from_dim) + ", "@ + to + " is "@
        + spec_dimension_name(to_dim)
}

/// Builds the "dimension mismatch" error, naming both units and dimensions.
pub fn dimension_mismatch_error(from: &str, from_dim: Dimension, to: &str, to_dim: Dimension) -> (e: CalcError)
    ensures
        e.kind == ErrorKind::Domain,
        e.message@ == dimension_mismatch_message(from@, from_dim, to@, to_dim),
        e.i18n_key == Some("msg.unit.dimension_mismatch"),
        args_view(e.i18n_args@) == seq![
            ("from"@, from@),
            ("from_dim"@, spec_dimension_name(from_dim)),
            ("to"@, to@),
            ("to_dim"@, spec_dimension_name(to_dim)),
        ],
{
    let mut msg = owned("dimension mismatch: ");
    push_str(&mut msg, from);
    push_str(&mut msg, " is ");
    push_str(&mut msg, dimension_name(from_dim));
    push_str(&mut msg, ", ");
    push_str(&mut msg, to);
    push_str(&mut msg, " is ");
    push_str(&mut msg, dimension_name(to_dim));
    let mut args: Vec<(String, String)> = Vec::new();
    args.push((owned("from"), owned(from)));
    args.push((owned("from_dim"), owned(dimension_name(from_dim))));
    args.push((owned("to"), owned(to)));
    args.push((owned("to_dim"), owned(dimension_name(to_dim))));
    assert(msg@ =~= dimension_mismatch_message(from@, from_dim, to@, to_dim));
    assert(args_view(args@) =~= seq![
        ("from"@, from@),
        ("from_dim"@, spec_dimension_name(from_dim)),
        ("to"@, to@),
        ("to_dim"@, spec_dimension_name(to_dim)),
    ]);
    CalcError::domain(msg).with_i18n("msg.unit.dimension_mismatch", args)
}

} // verus!

verus! {

/// A temperature unit: Celsius, Fahrenheit, Kelvin or Rankine.
#[derive(Debug, Clone, Copy, PartialEq, Eq, Structural)]
pub enum TemperatureUnit {
    Celsius,
    Fahrenheit,
    Kelvin,
    Rankine,
}

/// The unit name of a temperature unit.
pub open spec fn temperature_symbol(t: TemperatureUnit) -> Seq<char> {
    match t {
        TemperatureUnit::Celsius => "C"@,
        TemperatureUnit::Fahrenheit => "F"@,
        TemperatureUnit::Kelvin => "K"@,
        TemperatureUnit::Rankine => "R"@,
    }
}

/// How a value is converted between two units: an affine map between two
/// temperature units, or a linear map `value * from_num / from_den * to_den / to_num`
/// through the SI base unit.
#[derive(Debug, Clone, Copy, PartialEq, Eq)]
pub enum ConversionPlan {
    Affine { from: TemperatureUnit, to: TemperatureUnit },
    Linear { from_num: u64, from_den: u64, to_num: u64, to_den: u64 },
}

/// The abstract outcome of planning a conversion.
pub enum PlanOutcome {
    Affine(Seq<char>, Seq<char>),
    Linear(nat, nat, nat, nat),
    Unknown(Seq<char>),
    Mismatch(Seq<char>, Dimension, Seq<char>, Dimension),
}

/// The dimension of a unit name that is a temperature or a linear unit.
pub open spec fn unit_dimension(name: Seq<char>) -> Dimension {
    if is_temperature_name(name) {
        Dimension::Temperature
    } else {
        spec_lookup(name).unwrap().0
    }
}

/// Which conversion applies between two unit names, or which error.
///
/// Two temperatures convert affinely. A temperature against anything else is
/// a dimension mismatch, once the other name is known. Two linear units
/// convert through their factors when their dimensions agree. The source name
/// is checked before the target name.
pub open spec fn spec_plan(from: Seq<char>, to: Seq<char>) -> PlanOutcome {
    let ft = is_temperature_name(from);
    let tt = is_temperature_name(to);
    if ft && tt {
        PlanOutcome::Affine(from, to)
    } else if !ft && spec_lookup(from).is_none() {
        PlanOutcome::Unknown(from)
    } else if !tt && spec_lookup(to).is_none() {
        PlanOutcome::Unknown(to)
    } else if ft || tt || spec_lookup(from).unwrap().0 != spec_lookup(to).unwrap().0 {
        PlanOutcome::Mismatch(from, unit_dimension(from), to, unit_dimension(to))
    } else {
        PlanOutcome::Linear(
            spec_lookup(from).unwrap().1,
            spec_lookup(from).unwrap().2,
            spec_lookup(to).unwrap().1,
            spec_lookup(to).unwrap().2,
        )
    }
}

/// Converting back undoes a conversion: the plan from `to` to `from` applies
/// the inverse map (the factors swap places, the temperature units swap), and
/// a pair of units that cannot be converted cannot be converted either way.
pub proof fn lemma_plan_reverse(from: Seq<char>, to: Seq<char>)
    ensures
        spec_plan(from, to) matches PlanOutcome::Linear(a, b, c, d)
            ==> spec_plan(to, from) == PlanOutcome::Linear(c, d, a, b),
        spec_plan(from, to) matches PlanOutcome::Affine(f, t) ==> spec_plan(to, from) == PlanOutcome::Affine(t, f),
        spec_plan(from, to) is Mismatch ==> spec_plan(to, from) is Mismatch,
        spec_plan(from, to) is Unknown ==> spec_plan(to, from) is Unknown,
{
}

/// Whether an executable result is the given abstract outcome.
pub open spec fn plan_result_is(r: Result<ConversionPlan, CalcError>, o: PlanOutcome) -> bool {
    match o {
        PlanOutcome::Affine(f, t) => match r {
            Ok(ConversionPlan::Affine { from, to }) => temperature_symbol(from) == f && temperature_symbol(to) == t,
            _ => false,
        },
        PlanOutcome::Linear(a, b, c, d) => r == Ok::<ConversionPlan, CalcError>(ConversionPlan::Linear {
            from_num: a as u64,
            from_den: b as u64,
            to_num: c as u64,
            to_den: d as u64,
        }),
        PlanOutcome::Unknown(u) => match r {
            Err(e) => e.kind == ErrorKind::Domain && e.message@ == unknown_unit_message(u)
                && e.i18n_key == Some("msg.unit.unknown_unit") && args_view(e.i18n_args@) == seq![("unit"@, u)],
            _ => false,
        },
        PlanOutcome::Mismatch(f, fd, t, td) => match r {
            Err(e) => e.kind == ErrorKind::Domain && e.message@ == dimension_mismatch_message(f, fd, t, td)
                && e.i18n_key == Some("msg.unit.dimension_mismatch") && args_view(e.i18n_args@) == seq![
                    ("from"@, f),
                    ("from_dim"@, spec_dimension_name(fd)),
                    ("to"@, t),
                    ("to_dim"@, spec_dimension_name(td)),
                ],
            _ => false,
        },
    }
}

fn temperature_of(name: &str) -> (t: TemperatureUnit)
    requires
        is_temperature_name(name@),
    ensures
        temperature_symbol(t) == name@,
{
    if crate::text::str_eq(name, "C") {
        TemperatureUnit::Celsius
    } else if crate::text::str_eq(name, "F") {
        TemperatureUnit::Fahrenheit
    } else if crate::text::str_eq(name, "K") {
        TemperatureUnit::Kelvin
    } else {
        TemperatureUnit::Rankine
    }
}

/// Decides how to convert a value from one unit to another, or the error:
/// an unknown unit (with suggestions) or a dimension mismatch.
pub fn plan_conversion(from: &str, to: &str) -> (r: Result<ConversionPlan, CalcError>)
    ensures
        plan_result_is(r, spec_plan(from@, to@)),
{
    let ft = is_temperature_unit(from).unwrap_or(false);
    let tt = is_temperature_unit(to).unwrap_or(false);
    if ft && tt {
        return Ok(ConversionPlan::Affine { from: temperature_of(from), to: temperature_of(to) });
    }
    let fl = lookup(from);
    let tl = lookup(to);
    if !ft && fl.is_none() {
        return Err(unknown_unit_error(from));
    }
    if !tt && tl.is_none() {
        return Err(unknown_unit_error(to));
    }
    if ft || tt {
        let fd = if ft { Dimension::Temperature } else { fl.unwrap().0 };
        let td = if tt { Dimension::Temperature } else { tl.unwrap().0 };
        return Err(dimension_mismatch_error(from, fd, to, td));
    }
    let (fd, fnum, fden) = fl.unwrap();
    let (td, tnum, tden) = tl.unwrap();
    if fd != td {
        return Err(dimension_mismatch_error(from, fd, to, td));
    }
    Ok(ConversionPlan::Linear { from_num: fnum, from_den: fden, to_num: tnum, to_den: tden })
}

// ---------------------------------------------------------------------------
// The shape of the unit domain's calls
// ---------------------------------------------------------------------------

/// The number of arguments of `convert`, `mod` and `abs`.
pub open spec fn unit_call_arity(name: Seq<char>) -> nat {
    if name == "convert"@ { 3 } else if name == "mod"@ { 2 } else { 1 }
}

/// The message for a unit-domain call with `n` arguments where `k` are
/// needed: `NAME() requires exactly K argument(s), got N`.
pub open spec fn unit_arity_message(name: Seq<char>, n: nat) -> Seq<char> {
    let k = unit_call_arity(name);
    name + "() requires exactly "@ + nat_decimal(k) + (if k == 1 { " argument, got "@ } else { " arguments, got "@ }) + nat_decimal(n)
}

/// The error for a call of `convert`, `mod` or `abs` with a number of
/// arguments it does not take (`None` when the count is right).
pub fn unit_call_arity_error(name: &str, n: usize) -> (r: Option<CalcError>)
    ensures
        n == unit_call_arity(name@) ==> r is None,
        n != unit_call_arity(name@) ==> (r matches Some(e) && e.kind == ErrorKind::Domain
            && e.message@ == unit_arity_message(name@, n as nat)
            && e.i18n_key == Some("msg.unit.invalid_argument")
            && args_view(e.i18n_args@) == seq![("detail"@, unit_arity_message(name@, n as nat))]),
{
    let k: usize = if str_eq(name, "convert") { 3 } else if str_eq(name, "mod") { 2 } else { 1 };
    if n == k {
        return None;
    }
    let mut msg = owned(name);
    push_str(&mut msg, "() requires exactly ");
    push_u64(&mut msg, k as u64);
    if k == 1 {
        push_str(&mut msg, " argument, got ");
    } else {
        push_str(&mut msg, " arguments, got ");
    }
    push_u64(&mut msg, n as u64);
    let detail = owned(msg.as_str());
    let mut args: Vec<(String, String)> = Vec::new();
    args.push((owned("detail"), detail));
    assert(args_view(args@) =~= seq![("detail"@, msg@)]);
    Some(CalcError::domain(msg).with_i18n("msg.unit.invalid_argument", args))
}

/// The unit names of `convert(value, "from", "to")`: the second and third
/// arguments, which must be string literals (the first one is the caller's
/// to evaluate).
pub fn convert_unit_names(args: &Vec<AstNode>) -> (r: Result<(String, String), CalcError>)
    requires
        args.len() == 3,
    ensures
        match (args@[1], args@[2]) {
            (AstNode::Str(f), AstNode::Str(t)) => r matches Ok(p) && p.0@ == f@ && p.1@ == t@,
            (AstNode::Str(_), _) => r matches Err(e) && e.kind == ErrorKind::Domain
                && e.i18n_key == Some("msg.unit.invalid_argument")
                && args_view(e.i18n_args@) == seq![("detail"@, "convert() 'to' unit must be a string literal"@)],
            _ => r matches Err(e) && e.kind == ErrorKind::Domain
                && e.i18n_key == Some("msg.unit.invalid_argument")
                && args_view(e.i18n_args@) == seq![("detail"@, "convert() 'from' unit must be a string literal"@)],
        },
{
    let from = match &args[1] {
        AstNode::Str(s) => owned(s.as_str()),
        other => return Err(unit_literal_error(other, true)),
    };
    let to = match &args[2] {
        AstNode::Str(s) => owned(s.as_str()),
        other => return Err(unit_literal_error(other, false)),
    };
    Ok((from, to))
}

fn unit_literal_error(n: &AstNode, from_side: bool) -> (e: CalcError)
    ensures
        e.kind == ErrorKind::Domain,
        e.i18n_key == Some("msg.unit.invalid_argument"),
        args_view(e.i18n_args@) == seq![("detail"@, if from_side {
            "convert() 'from' unit must be a string literal"@
        } else {
            "convert() 'to' unit must be a string literal"@
        })],
{
    let shown = node_debug(n);
    let mut msg = if from_side {
        owned("convert() requires string argument for 'from' unit, got: ")
    } else {
        owned("convert() requires string argument for 'to' unit, got: ")
    };
    push_str(&mut msg, shown.as_str());
    let detail = if from_side {
        owned("convert() 'from' unit must be a string literal")
    } else {
        owned("convert() 'to' unit must be a string literal")
    };
    let ghost dv = detail@;
    let mut args: Vec<(String, String)> = Vec::new();
    args.push((owned("detail"), detail));
    assert(args_view(args@) =~= seq![("detail"@, dv)]);
    CalcError::domain(msg).with_i18n("msg.unit.invalid_argument", args)
}

} // verus!
