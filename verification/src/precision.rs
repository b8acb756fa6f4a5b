//! Exact arithmetic on integers and fractions of any size: the factorial and
//! the rendering of fractions, as fractions or as truncated decimals.

use vstd::prelude::*;
use vstd::arithmetic::div_mod::*;
use vstd::arithmetic::power::*;
use crate::bigint::{BigInt, BigRational, trunc_div, trunc_rem, lemma_trunc_nonneg};
use crate::error::{CalcError, ErrorKind};
use crate::number_theory::abs_int;
use crate::result::EvalResult;
use crate::text::{int_decimal, nat_decimal, owned, pad_zeros, push_char, push_str, zero_padded};

verus! {

/// The largest argument that `factorial` accepts.
pub const MAX_FACTORIAL_INPUT: u64 = 10000;

/// `n!`.
pub open spec fn spec_factorial(n: nat) -> nat
    decreases n,
{
    if n == 0 {
        1
    } else {
        n * spec_factorial((n - 1) as nat)
    }
}

/// The factorial of an integer of any size. A negative argument, or one
/// above `MAX_FACTORIAL_INPUT`, is a domain error.
pub fn factorial(n: &BigInt) -> (r: Result<BigInt, CalcError>)
    ensures
        n@ < 0 ==> (r matches Err(e) && e.kind == ErrorKind::Domain
            && e.message@ == "factorial requires non-negative integer, got "@ + int_decimal(n@)),
        n@ > MAX_FACTORIAL_INPUT ==> (r matches Err(e) && e.kind == ErrorKind::Domain
            && e.message@ == "factorial input must not exceed 10000 (got "@ + int_decimal(n@) + ")"@),
        0 <= n@ <= MAX_FACTORIAL_INPUT ==> (r matches Ok(v) && v@ == spec_factorial(n@ as nat)),
{
    let zero = BigInt::zero();
    if n.less_than(&zero) {
        let mut msg = owned("factorial requires non-negative integer, got ");
        push_str(&mut msg, &n.to_decimal_string());
        return Err(CalcError::domain(msg));
    }
    let bound = BigInt::from_u64(MAX_FACTORIAL_INPUT);
    if bound.less_than(n) {
        let mut msg = owned("factorial input must not exceed 10000 (got ");
        push_str(&mut msg, &n.to_decimal_string());
        push_str(&mut msg, ")");
        return Err(CalcError::domain(msg));
    }
    let mut result = BigInt::one();
    let mut i = BigInt::one();
    let one = BigInt::one();
    while i.at_most(n)
        invariant
            0 <= n@ <= MAX_FACTORIAL_INPUT,
            1 <= i@ <= n@ + 1,
            one@ == 1,
            result@ == spec_factorial((i@ - 1) as nat),
        decreases n@ + 1 - i@,
    {
        let ghost before = result@;
        proof {
            assert(spec_factorial(i@ as nat) == i@ * spec_factorial((i@ - 1) as nat));
        }
        result = result.times(&i);
        proof {
            assert(result@ == spec_factorial(i@ as nat)) by (nonlinear_arith)
                requires
                    result@ == before * i@,
                    before == spec_factorial((i@ - 1) as nat),
                    spec_factorial(i@ as nat) == i@ * spec_factorial((i@ - 1) as nat);
        }
        i = i.plus(&one);
    }
    Ok(result)
}

/// The text of a fraction as `num-rational` displays it: the numerator alone
/// when the denominator is one, otherwise `numerator/denominator`.
pub open spec fn fraction_text(n: int, d: int) -> Seq<char> {
    if d == 1 {
        int_decimal(n)
    } else {
        int_decimal(n) + seq!['/'] + int_decimal(d)
    }
}

/// The decimal text of `n / d` (with `d > 0`) to `p` places, truncated: a
/// minus sign for a negative fraction, the integer part of `|n| / d`, then,
/// when `p > 0`, a point and the first `p` decimals of the rest.
pub open spec fn decimal_text(n: int, d: int, p: nat) -> Seq<char> {
    let a = abs_int(n) as int;
    let sign = if n < 0 { seq!['-'] } else { Seq::<char>::empty() };
    let int_digits = nat_decimal((a / d) as nat);
    if p == 0 {
        sign + int_digits
    } else {
        sign + int_digits + seq!['.'] + zero_padded(nat_decimal(((a % d) * pow(10, p) / d) as nat), p)
    }
}

/// `10^p` as an integer of any size.
pub fn power_of_ten(p: usize) -> (r: BigInt)
    ensures
        r@ == pow(10, p as nat),
        r@ > 0,
{
    let ten = BigInt::from_u64(10);
    let mut scale = BigInt::one();
    let mut i: usize = 0;
    proof {
        lemma_pow0(10);
    }
    while i < p
        invariant
            i <= p,
            ten@ == 10,
            scale@ == pow(10, i as nat),
            scale@ > 0,
        decreases p - i,
    {
        proof {
            lemma_pow_adds(10, i as nat, 1);
            lemma_pow1(10);
            lemma_pow_positive(10, (i + 1) as nat);
        }
        scale = scale.times(&ten);
        i = i + 1;
    }
    scale
}

/// The decimal text of a fraction to `precision` places, truncated toward
/// zero (`1/3` to five places is `0.33333`, `1/2` to three is `0.500`).
pub fn format_decimal(value: &BigRational, precision: usize) -> (r: String)
    ensures
        r@ == decimal_text(value@.0, value@.1, precision as nat),
{
    let neg = value.is_negative();
    let numer = value.numer().abs();
    let denom = value.denom();
    let int_part = numer.div_trunc(denom);
    let remainder = numer.rem_trunc(denom);
    let scale = power_of_ten(precision);
    let scaled = remainder.times(&scale);
    let ghost a = numer@;
    let ghost d = denom@;
    proof {
        lemma_trunc_nonneg(a, d);
        lemma_mod_bound(a, d);
        assert(scaled@ >= 0) by (nonlinear_arith)
            requires scaled@ == remainder@ * scale@, remainder@ >= 0, scale@ > 0;
        lemma_trunc_nonneg(scaled@, d);
    }
    let frac_digits = scaled.div_trunc(denom);
    let int_str = int_part.to_decimal_string();
    let frac_str = pad_zeros(&frac_digits.to_decimal_string(), precision);
    let mut out = String::new();
    if neg {
        push_char(&mut out, '-');
    }
    push_str(&mut out, int_str.as_str());
    if precision > 0 {
        push_char(&mut out, '.');
        push_str(&mut out, frac_str.as_str());
    }
    proof {
        assert(int_decimal(int_part@) == nat_decimal((a / d) as nat));
        assert(int_decimal(frac_digits@) == nat_decimal(((a % d) * pow(10, precision as nat) / d) as nat));
        assert(out@ =~= decimal_text(value@.0, value@.1, precision as nat));
    }
    out
}

/// A fraction as text: with a precision, its truncated decimal text; without
/// one, `numerator/denominator`, or the numerator alone when the fraction is
/// an integer.
pub fn format_bigrational(value: &BigRational, precision: Option<usize>) -> (r: String)
    ensures
        r@ == (match precision {
            Some(p) => decimal_text(value@.0, value@.1, p as nat),
            None => fraction_text(value@.0, value@.1),
        }),
{
    match precision {
        Some(p) => format_decimal(value, p),
        None => fraction_to_string(value),
    }
}

/// The fraction as `num-rational` displays it.
pub fn fraction_to_string(value: &BigRational) -> (r: String)
    ensures
        r@ == fraction_text(value@.0, value@.1),
{
    if value.is_integer() {
        value.numer().to_decimal_string()
    } else {
        let mut out = value.numer().to_decimal_string();
        push_char(&mut out, '/');
        push_str(&mut out, value.denom().to_decimal_string().as_str());
        proof {
            assert(out@ =~= fraction_text(value@.0, value@.1));
        }
        out
    }
}

/// The numerator of a fraction that is an integer; for any other fraction a
/// domain error naming the operation `ctx` and the fraction.
pub fn rational_to_int(r: &BigRational, ctx: &str) -> (res: Result<BigInt, CalcError>)
    ensures
        r@.1 == 1 ==> (res matches Ok(v) && v@ == r@.0),
        r@.1 != 1 ==> (res matches Err(e) && e.kind == ErrorKind::Domain
            && e.message@ == ctx@ + " requires integer operand, got "@ + fraction_text(r@.0, r@.1)),
{
    if !r.is_integer() {
        let mut msg = owned(ctx);
        push_str(&mut msg, " requires integer operand, got ");
        push_str(&mut msg, fraction_to_string(r).as_str());
        return Err(CalcError::domain(msg));
    }
    Ok(r.numer().clone())
}

/// An exact result: an integer when the fraction is one, the fraction
/// otherwise.
pub fn rational_to_result(value: BigRational) -> (r: EvalResult)
    ensures
        value@.1 == 1 ==> (r matches EvalResult::BigInt(b) && b@ == value@.0),
        value@.1 != 1 ==> (r matches EvalResult::BigRational(q) && q@ == value@),
{
    if value.is_integer() {
        EvalResult::BigInt(value.numer().clone())
    } else {
        EvalResult::BigRational(value)
    }
}

} // verus!
