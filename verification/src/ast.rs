//! Expression trees and the binary64 numbers they carry.
//!
//! A number literal is kept as the bit pattern of its IEEE-754 binary64
//! value, so that the tree holds it exactly; the functions here read it
//! through the standard decoding of sign, exponent and fraction.

use vstd::prelude::*;

verus! {

/// A binary operator.
#[derive(Debug, Clone, Copy, PartialEq, Eq, Structural)]
pub enum BinaryOp {
    Add,
    Sub,
    Mul,
    Div,
    Pow,
    Mod,
}

/// A unary operator.
#[derive(Debug, Clone, Copy, PartialEq, Eq, Structural)]
pub enum UnaryOp {
    Neg,
    Factorial,
    Abs,
}

/// An expression tree.
#[derive(Debug)]
pub enum AstNode {
    /// A number literal: the bit pattern of its binary64 value.
    Number(u64),
    /// An integer literal too large for exact binary64, as written.
    BigNumber(String),
    /// A complex literal: the binary64 bit patterns of its real and imaginary parts.
    Complex(u64, u64),
    /// A variable or constant name.
    Variable(String),
    /// A string literal.
    Str(String),
    BinaryOp(BinaryOp, Box<AstNode>, Box<AstNode>),
    UnaryOp(UnaryOp, Box<AstNode>),
    FunctionCall(String, Vec<AstNode>),
    Matrix(Vec<Vec<AstNode>>),
    List(Vec<AstNode>),
}

// ---------------------------------------------------------------------------
// binary64 decoding
// ---------------------------------------------------------------------------

/// Two to the power `e`.
pub open spec fn two_pow(e: nat) -> nat
    decreases e,
{
    if e == 0 { 1 } else { 2 * two_pow((e - 1) as nat) }
}

/// The sign bit of a binary64 bit pattern.
pub open spec fn f64_sign(bits: u64) -> nat {
    bits as nat / two_pow(63)
}

/// The biased exponent field (11 bits) of a binary64 bit pattern.
pub open spec fn f64_exponent(bits: u64) -> nat {
    (bits as nat / two_pow(52)) % 2048
}

/// The fraction field (52 bits) of a binary64 bit pattern.
pub open spec fn f64_fraction(bits: u64) -> nat {
    bits as nat % two_pow(52)
}

/// The bit pattern encodes a NaN.
pub open spec fn f64_is_nan(bits: u64) -> bool {
    f64_exponent(bits) == 2047 && f64_fraction(bits) != 0
}

/// The bit pattern encodes an infinity.
pub open spec fn f64_is_infinite(bits: u64) -> bool {
    f64_exponent(bits) == 2047 && f64_fraction(bits) == 0
}

/// The significand of a finite normal value, with its implicit leading one.
pub open spec fn f64_significand(bits: u64) -> nat {
    two_pow(52) + f64_fraction(bits)
}

/// The magnitude of a finite value is an integer. Subnormals and normal
/// values below one are integers only when zero; normal values at or above
/// one are integers when the bits of the significand below the binary point
/// are zero.
pub open spec fn f64_is_integral(bits: u64) -> bool {
    let e = f64_exponent(bits);
    if e == 2047 {
        false
    } else if e < 1023 {
        e == 0 && f64_fraction(bits) == 0
    } else if e >= 1075 {
        true
    } else {
        f64_significand(bits) % two_pow((1075 - e) as nat) == 0
    }
}

/// The magnitude of an integral finite value.
pub open spec fn f64_integral_magnitude(bits: u64) -> nat {
    let e = f64_exponent(bits);
    if e < 1023 {
        0
    } else if e >= 1075 {
        f64_significand(bits) * two_pow((e - 1075) as nat)
    } else {
        f64_significand(bits) / two_pow((1075 - e) as nat)
    }
}

/// The signed value of an integral finite value (negative zero is zero).
pub open spec fn f64_integral_value(bits: u64) -> int {
    if f64_sign(bits) == 1 {
        -(f64_integral_magnitude(bits) as int)
    } else {
        f64_integral_magnitude(bits) as int
    }
}

pub(crate) proof fn lemma_two_pow_values()
    ensures
        two_pow(52) == 0x10_0000_0000_0000,
        two_pow(63) == 0x8000_0000_0000_0000,
{
    reveal_with_fuel(two_pow, 64);
}

/// `two_pow` is positive and doubles at each step.
proof fn lemma_two_pow_pos(e: nat)
    ensures
        two_pow(e) > 0,
    decreases e,
{
    if e > 0 {
        lemma_two_pow_pos((e - 1) as nat);
    }
}

/// The fields of a binary64 bit pattern.
pub fn f64_fields(bits: u64) -> (r: (u64, u64, u64))
    ensures
        r.0 as nat == f64_sign(bits),
        r.1 as nat == f64_exponent(bits),
        r.2 as nat == f64_fraction(bits),
        r.0 <= 1,
        r.1 < 2048,
        r.2 < 0x10_0000_0000_0000,
{
    proof {
        lemma_two_pow_values();
    }
    let sign = bits / 0x8000_0000_0000_0000u64;
    let exponent = (bits / 0x10_0000_0000_0000u64) % 2048;
    let fraction = bits % 0x10_0000_0000_0000u64;
    (sign, exponent, fraction)
}

fn pow2_u64(e: u64) -> (r: u64)
    requires
        e < 64,
    ensures
        r as nat == two_pow(e as nat),
{
    let mut r: u64 = 1;
    let mut i: u64 = 0;
    while i < e
        invariant
            i <= e,
            e < 64,
            r as nat == two_pow(i as nat),
        decreases e - i,
    {
        proof {
            lemma_two_pow_monotone(i as nat, 62);
            lemma_two_pow_values();
            assert(two_pow(62) * 2 == two_pow(63));
        }
        r = r * 2;
        i = i + 1;
    }
    r
}

proof fn lemma_two_pow_split(a: nat, b: nat)
    ensures
        two_pow(a + b) == two_pow(a) * two_pow(b),
    decreases a,
{
    if a > 0 {
        lemma_two_pow_split((a - 1) as nat, b);
        let x = two_pow((a - 1) as nat);
        let y = two_pow(b);
        assert(two_pow(a) == 2 * x);
        assert(two_pow(a + b) == 2 * two_pow(((a - 1) as nat + b) as nat));
        assert(two_pow(((a - 1) as nat + b) as nat) == x * y);
        vstd::arithmetic::mul::lemma_mul_is_associative(2, x as int, y as int);
    } else {
        vstd::arithmetic::mul::lemma_mul_basics(two_pow(b) as int);
    }
}

proof fn lemma_two_pow_monotone(a: nat, b: nat)
    requires
        a <= b,
    ensures
        two_pow(a) <= two_pow(b),
{
    lemma_two_pow_split(a, (b - a) as nat);
    lemma_two_pow_pos((b - a) as nat);
    lemma_two_pow_pos(a);
    assert((a + (b - a) as nat) as nat == b);
    vstd::arithmetic::mul::lemma_mul_increases(two_pow((b - a) as nat) as int, two_pow(a) as int);
    vstd::arithmetic::mul::lemma_mul_is_commutative(two_pow((b - a) as nat) as int, two_pow(a) as int);
}

/// The saturating conversion of an integral binary64 value to `i64`, as
/// Rust's `as i64` performs it.
pub open spec fn saturate_i64(v: int) -> int {
    if v > i64::MAX { i64::MAX as int } else if v < i64::MIN { i64::MIN as int } else { v }
}

/// Whether the bit pattern is an integral finite value, and if so the value
/// converted to `i64` with saturation at the bounds.
pub fn f64_integral_to_i64(bits: u64) -> (r: Option<i64>)
    ensures
        r.is_some() == f64_is_integral(bits),
        r matches Some(v) ==> v as int == saturate_i64(f64_integral_value(bits)),
{
    let (sign, e, frac) = f64_fields(bits);
    proof {
        lemma_two_pow_values();
    }
    if e == 2047 {
        return None;
    }
    let mag: u64;
    if e < 1023 {
        if e == 0 && frac == 0 {
            return Some(0);
        }
        return None;
    } else if e >= 1086 {
        // |v| >= 2^63: saturates.
        proof {
            lemma_two_pow_pos((e - 1075) as nat);
            lemma_two_pow_split(11, (e - 1086) as nat);
            assert(two_pow(11) == 2048) by { reveal_with_fuel(two_pow, 12); }
            assert(f64_significand(bits) >= two_pow(52));
            lemma_two_pow_pos((e - 1086) as nat);
            assert(f64_integral_magnitude(bits) >= two_pow(52) * 2048) by (nonlinear_arith)
                requires
                    f64_integral_magnitude(bits) == f64_significand(bits) * two_pow((e - 1075) as nat),
                    two_pow((e - 1075) as nat) == two_pow(11) * two_pow((e - 1086) as nat),
                    two_pow(11) == 2048,
                    two_pow((e - 1086) as nat) >= 1,
                    f64_significand(bits) >= two_pow(52);
        }
        if sign == 1 {
            return Some(i64::MIN);
        } else {
            return Some(i64::MAX);
        }
    } else {
        let sig: u64 = 0x10_0000_0000_0000u64 + frac;
        if e >= 1075 {
            let p = pow2_u64(e - 1075);
            proof {
                lemma_two_pow_monotone((e - 1075) as nat, 10);
                assert(two_pow(10) == 1024) by { reveal_with_fuel(two_pow, 11); }
                assert(sig * p < 0x8000_0000_0000_0000u64) by (nonlinear_arith)
                    requires sig < 0x20_0000_0000_0000u64, p <= 1024;
            }
            mag = sig * p;
        } else {
            let p = pow2_u64(1075 - e);
            proof { lemma_two_pow_pos((1075 - e) as nat); }
            if sig % p != 0 {
                return None;
            }
            mag = sig / p;
        }
    }
    let m: i64 = mag as i64;
    if sign == 1 { Some(-m) } else { Some(m) }
}

/// Rust's `as i64` of a binary64 value: the value truncated toward zero,
/// saturated at the bounds; a NaN gives zero and an infinity the bound of its
/// sign. (The magnitude `f64_integral_magnitude` is already truncated.)
pub open spec fn f64_as_i64(bits: u64) -> int {
    if f64_is_nan(bits) {
        0
    } else if f64_is_infinite(bits) {
        if f64_sign(bits) == 1 { i64::MIN as int } else { i64::MAX as int }
    } else {
        saturate_i64(f64_integral_value(bits))
    }
}

/// The magnitude exceeds `2^63`, beyond the `i64` range on both sides (the
/// exponent is above 63, or exactly 63 with a nonzero fraction); infinities
/// and NaNs included.
pub open spec fn f64_beyond_i64(bits: u64) -> bool {
    f64_exponent(bits) > 1086 || (f64_exponent(bits) == 1086 && f64_fraction(bits) != 0)
}

/// `bits` converted with Rust's `as i64`.
pub fn f64_to_i64_as(bits: u64) -> (r: i64)
    ensures
        r as int == f64_as_i64(bits),
{
    let (sign, e, frac) = f64_fields(bits);
    proof {
        lemma_two_pow_values();
    }
    if e == 2047 {
        if frac != 0 {
            return 0;
        }
        return if sign == 1 { i64::MIN } else { i64::MAX };
    }
    let mag: u64;
    if e < 1023 {
        proof {
            assert(f64_integral_magnitude(bits) == 0);
        }
        return 0;
    } else if e >= 1086 {
        proof {
            lemma_two_pow_pos((e - 1075) as nat);
            lemma_two_pow_split(11, (e - 1086) as nat);
            assert(two_pow(11) == 2048) by { reveal_with_fuel(two_pow, 12); }
            assert(f64_significand(bits) >= two_pow(52));
            lemma_two_pow_pos((e - 1086) as nat);
            assert(f64_integral_magnitude(bits) >= two_pow(52) * 2048) by (nonlinear_arith)
                requires
                    f64_integral_magnitude(bits) == f64_significand(bits) * two_pow((e - 1075) as nat),
                    two_pow((e - 1075) as nat) == two_pow(11) * two_pow((e - 1086) as nat),
                    two_pow(11) == 2048,
                    two_pow((e - 1086) as nat) >= 1,
                    f64_significand(bits) >= two_pow(52);
        }
        if sign == 1 {
            return i64::MIN;
        } else {
            return i64::MAX;
        }
    } else {
        let sig: u64 = 0x10_0000_0000_0000u64 + frac;
        if e >= 1075 {
            let p = pow2_u64(e - 1075);
            proof {
                lemma_two_pow_monotone((e - 1075) as nat, 10);
                assert(two_pow(10) == 1024) by { reveal_with_fuel(two_pow, 11); }
                assert(sig * p < 0x8000_0000_0000_0000u64) by (nonlinear_arith)
                    requires sig < 0x20_0000_0000_0000u64, p <= 1024;
            }
            mag = sig * p;
        } else {
            let p = pow2_u64(1075 - e);
            proof { lemma_two_pow_pos((1075 - e) as nat); }
            mag = sig / p;
            proof {
                assert(mag <= sig) by {
                    vstd::arithmetic::div_mod::lemma_div_is_ordered_by_denominator(sig as int, 1, p as int);
                }
            }
        }
    }
    let m: i64 = mag as i64;
    if sign == 1 { -m } else { m }
}

/// Whether the magnitude of `bits` exceeds `2^63`.
pub fn f64_is_beyond_i64(bits: u64) -> (r: bool)
    ensures
        r == f64_beyond_i64(bits),
{
    let (_sign, e, frac) = f64_fields(bits);
    e > 1086 || (e == 1086 && frac != 0)
}

/// A saturated integral value between the bounds is the value itself.
pub proof fn lemma_saturate_small(bits: u64)
    ensures
        0 < saturate_i64(f64_integral_value(bits)) <= 1000 ==> saturate_i64(f64_integral_value(bits)) == f64_integral_value(bits),
        f64_integral_value(bits) > 1000 ==> saturate_i64(f64_integral_value(bits)) > 1000,
        f64_integral_value(bits) <= 0 ==> saturate_i64(f64_integral_value(bits)) <= 0,
{
}

} // verus!
