//! Evaluation options read from the expression itself.

use vstd::prelude::*;
use crate::ast::{AstNode, f64_integral_to_i64, f64_is_integral, f64_integral_value};
use crate::text::{nat_decimal, owned, push_str, push_u64, str_eq};
use crate::canonical::CanonicalForm;
use crate::error::{CalcError, ErrorKind};

verus! {

/// The largest number of decimal places a result may be formatted with.
pub const MAX_PRECISION: usize = 1000;

/// The precision `N` of a top-level call `precision(N, expr)` whose first
/// argument is a number literal with a positive integral value of at most
/// `MAX_PRECISION`.
pub open spec fn spec_format_precision(ast: AstNode) -> Option<usize> {
    match ast {
        AstNode::FunctionCall(name, args) => {
            if name@ == "precision"@ && args@.len() == 2 {
                match args@[0] {
                    AstNode::Number(b) => if f64_is_integral(b) && 0 < f64_integral_value(b) <= MAX_PRECISION {
                        Some(f64_integral_value(b) as usize)
                    } else {
                        None
                    },
                    _ => None,
                }
            } else {
                None
            }
        },
        _ => None,
    }
}

/// The output precision requested by `precision(N, expr)` at the top of the
/// expression: `N` when it is a positive integral number literal of at most
/// `MAX_PRECISION`, nothing otherwise (larger values fall back to exact
/// fraction output).
pub fn extract_format_precision(ast: &AstNode) -> (r: Option<usize>)
    ensures
        r == spec_format_precision(*ast),
{
    if let AstNode::FunctionCall(name, args) = ast {
        if str_eq(name.as_str(), "precision") && args.len() == 2 {
            if let AstNode::Number(b) = &args[0] {
                if let Some(v) = f64_integral_to_i64(*b) {
                    proof {
                        crate::ast::lemma_saturate_small(*b);
                    }
                    if v > 0 && v <= MAX_PRECISION as i64 {
                        return Some(v as usize);
                    }
                }
            }
        }
    }
    None
}

/// The checks made before an expression is read: a time budget of zero is an
/// immediate timeout, and a requested precision above `MAX_PRECISION` is a
/// domain error (`precision P exceeds limit 1000`).
pub fn check_evaluation_request(timeout_is_zero: bool, precision: Option<usize>) -> (r: Result<(), CalcError>)
    ensures
        timeout_is_zero ==> (r matches Err(e) && e.kind == ErrorKind::Timeout),
        !timeout_is_zero && precision is Some && precision->0 > MAX_PRECISION ==> (r matches Err(e)
            && e.kind == ErrorKind::Domain
            && e.message@ == "precision "@ + nat_decimal(precision->0 as nat) + " exceeds limit "@ + nat_decimal(MAX_PRECISION as nat)),
        !timeout_is_zero && !(precision is Some && precision->0 > MAX_PRECISION) ==> r is Ok,
{
    if timeout_is_zero {
        return Err(CalcError::new(ErrorKind::Timeout, owned("evaluation timed out")));
    }
    if let Some(p) = precision {
        if p > MAX_PRECISION {
            let mut msg = owned("precision ");
            push_u64(&mut msg, p as u64);
            push_str(&mut msg, " exceeds limit ");
            push_u64(&mut msg, MAX_PRECISION as u64);
            return Err(CalcError::domain(msg));
        }
    }
    Ok(())
}

/// The cache key of a canonical form: in precision mode the key carries the
/// prefix `precision:`, so that exact results and binary64 results of one
/// expression never share an entry.
pub fn cache_key(cf: &CanonicalForm, precision: Option<usize>) -> (r: CanonicalForm)
    ensures
        r@ == (if precision is Some { "precision:"@ + cf@ } else { cf@ }),
{
    if precision.is_some() {
        let mut key = owned("precision:");
        push_str(&mut key, cf.as_str());
        CanonicalForm::new(key.as_str())
    } else {
        CanonicalForm::new(cf.as_str())
    }
}

} // verus!
