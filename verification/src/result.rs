//! The results of an evaluation.

use vstd::prelude::*;
use crate::bigint::{BigInt, BigRational};

verus! {

/// The result of evaluating an expression. Numbers are binary64 bit patterns.
#[derive(Debug, Clone, PartialEq)]
pub enum EvalResult {
    Scalar(u64),
    Complex(u64, u64),
    Matrix(Vec<Vec<u64>>),
    /// An exact integer.
    BigInt(BigInt),
    /// An exact fraction.
    BigRational(BigRational),
    Vector(Vec<u64>),
    /// Polynomial coefficients, lowest degree first.
    Polynomial(Vec<u64>),
    /// Complex values as (real, imaginary) pairs.
    ComplexList(Vec<(u64, u64)>),
    Symbolic(String),
    /// A date-time in RFC 3339 form.
    DateTime(String),
    LaTeX(String),
    Steps(Vec<String>),
}

} // verus!
