//! Integers and rationals of any size. An integer is a sign and little-endian
//! base-2^32 limbs; the arithmetic on it is carried out by `num-bigint`, and
//! fractions are reduced by `num-rational`.

use vstd::prelude::*;
use vstd::arithmetic::div_mod::*;
use crate::number_theory::{abs_int, spec_gcd, spec_lcm};
use crate::text::int_decimal;

verus! {

/// The value of little-endian base-2^32 limbs.
pub open spec fn limbs_value(s: Seq<u32>) -> nat
    decreases s.len(),
{
    if s.len() == 0 {
        0
    } else {
        s[0] as nat + 0x1_0000_0000 * limbs_value(s.drop_first())
    }
}

/// Division rounding toward zero, as Rust's `/` on integers does.
pub open spec fn trunc_div(a: int, b: int) -> int {
    let q = abs_int(a) / abs_int(b);
    if (a < 0) != (b < 0) {
        -q
    } else {
        q as int
    }
}

/// The remainder that goes with `trunc_div`: it has the sign of `a`.
pub open spec fn trunc_rem(a: int, b: int) -> int {
    a - b * trunc_div(a, b)
}

proof fn lemma_limbs_zero(s: Seq<u32>)
    ensures
        (limbs_value(s) == 0) <==> (forall|i: int| 0 <= i < s.len() ==> s[i] == 0),
    decreases s.len(),
{
    if s.len() > 0 {
        let t = s.drop_first();
        lemma_limbs_zero(t);
        if limbs_value(s) == 0 {
            assert forall|i: int| 0 <= i < s.len() implies s[i] == 0 by {
                if i > 0 {
                    assert(t[i - 1] == s[i]);
                }
            }
        }
        if forall|i: int| 0 <= i < s.len() ==> s[i] == 0 {
            assert forall|i: int| 0 <= i < t.len() implies t[i] == 0 by {
                assert(t[i] == s[i + 1]);
            }
            assert(s[0] == 0);
        }
    }
}

proof fn lemma_limbs_parity(s: Seq<u32>)
    requires
        s.len() > 0,
    ensures
        limbs_value(s) % 2 == (s[0] as nat) % 2,
{
    let t = limbs_value(s.drop_first());
    assert(limbs_value(s) == 2 * (0x8000_0000 * t) + s[0] as nat);
    lemma_mod_multiples_vanish((0x8000_0000 * t) as int, s[0] as int, 2);
}

proof fn lemma_neg_parity(x: int)
    ensures
        (-x) % 2 == x % 2,
{
    lemma_fundamental_div_mod(x, 2);
    let q = x / 2;
    let r = x % 2;
    if r == 0 {
        assert(-x == 2 * (-q));
        lemma_mod_multiples_basic(-q, 2);
    } else {
        assert(-x == 2 * (-q - 1) + 1);
        lemma_mod_multiples_vanish(-q - 1, 1, 2);
    }
}

/// For a non-negative dividend and a positive divisor, truncating division is
/// Euclidean division.
pub proof fn lemma_trunc_nonneg(a: int, b: int)
    requires
        a >= 0,
        b > 0,
    ensures
        trunc_div(a, b) == a / b,
        trunc_rem(a, b) == a % b,
{
    lemma_fundamental_div_mod(a, b);
}

/// `((a % m) + m) % m` with Rust's remainder is the Euclidean residue of `a`.
pub proof fn lemma_normalize_residue(a: int, m: int)
    requires
        m > 0,
    ensures
        -m < trunc_rem(a, m) < m,
        trunc_rem(a, m) + m >= 0,
        trunc_rem(trunc_rem(a, m) + m, m) == a % m,
{
    let t = trunc_rem(a, m);
    if a >= 0 {
        lemma_trunc_nonneg(a, m);
        lemma_mod_bound(a, m);
        assert(t == a % m);
        lemma_trunc_nonneg(t + m, m);
        assert(trunc_rem(t + m, m) == (t + m) % m);
        lemma_mod_add_multiples_vanish(t, m);
        assert((m + t) % m == t % m);
        lemma_small_mod(t as nat, m as nat);
        assert(t % m == t);
    } else {
        let n = -a;
        lemma_fundamental_div_mod(n, m);
        lemma_mod_bound(n, m);
        let q = n / m;
        let r = n % m;
        assert(trunc_div(a, m) == -q);
        assert(m * (-q) == -(m * q)) by (nonlinear_arith);
        assert(t == a + m * q);
        assert(t == -r);
        lemma_trunc_nonneg(t + m, m);
        assert(trunc_rem(t + m, m) == (t + m) % m);
        if r == 0 {
            lemma_mod_self_0(m);
            assert(a == (-q) * m) by (nonlinear_arith)
                requires n == m * q + r, a == -n, r == 0;
            lemma_mod_multiples_basic(-q, m);
            assert(a % m == 0);
            assert((t + m) % m == 0);
        } else {
            lemma_small_mod((m - r) as nat, m as nat);
            assert(a == m * (-q - 1) + (m - r)) by (nonlinear_arith)
                requires n == m * q + r, a == -n;
            lemma_fundamental_div_mod_converse(a, m, -q - 1, m - r);
        }
    }
}

/// An integer of any size.
#[derive(Debug, Eq)]
pub struct BigInt {
    neg: bool,
    mag: Vec<u32>,
}

impl View for BigInt {
    type V = int;

    closed spec fn view(&self) -> int {
        if self.neg {
            -(limbs_value(self.mag@) as int)
        } else {
            limbs_value(self.mag@) as int
        }
    }
}

fn copy_limbs(v: &Vec<u32>) -> (r: Vec<u32>)
    ensures
        r@ == v@,
{
    let mut r: Vec<u32> = Vec::new();
    let mut i: usize = 0;
    while i < v.len()
        invariant
            i <= v@.len(),
            r@ == v@.take(i as int),
        decreases v@.len() - i,
    {
        r.push(v[i]);
        i = i + 1;
        assert(r@ =~= v@.take(i as int));
    }
    assert(v@.take(v@.len() as int) =~= v@);
    r
}

/// Two integers are equal when their values are: the sign of zero and
/// leading zero limbs do not count.
impl PartialEq for BigInt {
    fn eq(&self, other: &Self) -> (r: bool) {
        outside_compare(self, other) == 0
    }
}

impl vstd::std_specs::cmp::PartialEqSpecImpl for BigInt {
    open spec fn obeys_eq_spec() -> bool {
        true
    }

    open spec fn eq_spec(&self, other: &Self) -> bool {
        self@ == other@
    }
}

impl Clone for BigInt {
    fn clone(&self) -> (r: Self)
        ensures
            r@ == self@,
    {
        BigInt { neg: self.neg, mag: copy_limbs(&self.mag) }
    }
}

// ---------------------------------------------------------------------------
// Calls into `num-bigint`. Each converts the operands to `num_bigint::BigInt`
// (from the sign and the limbs), makes one call and converts the result back
// with `to_u32_digits`.
// ---------------------------------------------------------------------------

/// Trusted: `&num_bigint::BigInt + &num_bigint::BigInt`, the exact sum.
#[verifier::external_body]
fn outside_add(a: &BigInt, b: &BigInt) -> (r: BigInt)
    ensures
        r@ == a@ + b@,
{
    let x = num_bigint::BigInt::from_slice(if a.neg { num_bigint::Sign::Minus } else { num_bigint::Sign::Plus }, &a.mag);
    let y = num_bigint::BigInt::from_slice(if b.neg { num_bigint::Sign::Minus } else { num_bigint::Sign::Plus }, &b.mag);
    let (s, mag) = (x + y).to_u32_digits();
    BigInt { neg: s == num_bigint::Sign::Minus, mag }
}

/// Trusted: `&num_bigint::BigInt - &num_bigint::BigInt`, the exact difference.
#[verifier::external_body]
fn outside_sub(a: &BigInt, b: &BigInt) -> (r: BigInt)
    ensures
        r@ == a@ - b@,
{
    let x = num_bigint::BigInt::from_slice(if a.neg { num_bigint::Sign::Minus } else { num_bigint::Sign::Plus }, &a.mag);
    let y = num_bigint::BigInt::from_slice(if b.neg { num_bigint::Sign::Minus } else { num_bigint::Sign::Plus }, &b.mag);
    let (s, mag) = (x - y).to_u32_digits();
    BigInt { neg: s == num_bigint::Sign::Minus, mag }
}

/// Trusted: `&num_bigint::BigInt * &num_bigint::BigInt`, the exact product.
#[verifier::external_body]
fn outside_mul(a: &BigInt, b: &BigInt) -> (r: BigInt)
    ensures
        r@ == a@ * b@,
{
    let x = num_bigint::BigInt::from_slice(if a.neg { num_bigint::Sign::Minus } else { num_bigint::Sign::Plus }, &a.mag);
    let y = num_bigint::BigInt::from_slice(if b.neg { num_bigint::Sign::Minus } else { num_bigint::Sign::Plus }, &b.mag);
    let (s, mag) = (x * y).to_u32_digits();
    BigInt { neg: s == num_bigint::Sign::Minus, mag }
}

/// Trusted: `&num_bigint::BigInt / &num_bigint::BigInt`, which rounds toward
/// zero and panics on a zero divisor (left out by `requires`).
#[verifier::external_body]
fn outside_div(a: &BigInt, b: &BigInt) -> (r: BigInt)
    requires
        b@ != 0,
    ensures
        r@ == trunc_div(a@, b@),
{
    let x = num_bigint::BigInt::from_slice(if a.neg { num_bigint::Sign::Minus } else { num_bigint::Sign::Plus }, &a.mag);
    let y = num_bigint::BigInt::from_slice(if b.neg { num_bigint::Sign::Minus } else { num_bigint::Sign::Plus }, &b.mag);
    let (s, mag) = (x / y).to_u32_digits();
    BigInt { neg: s == num_bigint::Sign::Minus, mag }
}

/// Trusted: `&num_bigint::BigInt % &num_bigint::BigInt`, the remainder of the
/// division rounding toward zero (sign of the dividend); panics on a zero
/// divisor (left out by `requires`).
#[verifier::external_body]
fn outside_rem(a: &BigInt, b: &BigInt) -> (r: BigInt)
    requires
        b@ != 0,
    ensures
        r@ == trunc_rem(a@, b@),
{
    let x = num_bigint::BigInt::from_slice(if a.neg { num_bigint::Sign::Minus } else { num_bigint::Sign::Plus }, &a.mag);
    let y = num_bigint::BigInt::from_slice(if b.neg { num_bigint::Sign::Minus } else { num_bigint::Sign::Plus }, &b.mag);
    let (s, mag) = (x % y).to_u32_digits();
    BigInt { neg: s == num_bigint::Sign::Minus, mag }
}

/// Trusted: `num_bigint::BigInt >> 1`, a shift that rounds toward negative
/// infinity, that is floor division by two.
#[verifier::external_body]
fn outside_shr1(a: &BigInt) -> (r: BigInt)
    ensures
        r@ == a@ / 2,
{
    let x = num_bigint::BigInt::from_slice(if a.neg { num_bigint::Sign::Minus } else { num_bigint::Sign::Plus }, &a.mag);
    let (s, mag) = (x >> 1u32).to_u32_digits();
    BigInt { neg: s == num_bigint::Sign::Minus, mag }
}

/// Trusted: `Ord::cmp` of `num_bigint::BigInt`, the order of the values.
#[verifier::external_body]
fn outside_compare(a: &BigInt, b: &BigInt) -> (r: i8)
    ensures
        (r < 0) == (a@ < b@),
        (r == 0) == (a@ == b@),
        (r > 0) == (a@ > b@),
{
    let x = num_bigint::BigInt::from_slice(if a.neg { num_bigint::Sign::Minus } else { num_bigint::Sign::Plus }, &a.mag);
    let y = num_bigint::BigInt::from_slice(if b.neg { num_bigint::Sign::Minus } else { num_bigint::Sign::Plus }, &b.mag);
    match x.cmp(&y) {
        std::cmp::Ordering::Less => -1,
        std::cmp::Ordering::Equal => 0,
        std::cmp::Ordering::Greater => 1,
    }
}

/// Trusted: `num_integer::Integer::gcd` of `num_bigint::BigInt`, the greatest
/// common divisor of the magnitudes (`gcd(0, b) == |b|`).
#[verifier::external_body]
fn outside_gcd(a: &BigInt, b: &BigInt) -> (r: BigInt)
    ensures
        r@ == spec_gcd(abs_int(a@), abs_int(b@)) as int,
{
    let x = num_bigint::BigInt::from_slice(if a.neg { num_bigint::Sign::Minus } else { num_bigint::Sign::Plus }, &a.mag);
    let y = num_bigint::BigInt::from_slice(if b.neg { num_bigint::Sign::Minus } else { num_bigint::Sign::Plus }, &b.mag);
    let (s, mag) = num_integer::Integer::gcd(&x, &y).to_u32_digits();
    BigInt { neg: s == num_bigint::Sign::Minus, mag }
}

/// Trusted: `num_integer::Integer::lcm` of `num_bigint::BigInt`, the least
/// common multiple of the magnitudes (zero when either is zero).
#[verifier::external_body]
fn outside_lcm(a: &BigInt, b: &BigInt) -> (r: BigInt)
    ensures
        r@ == spec_lcm(abs_int(a@), abs_int(b@)) as int,
{
    let x = num_bigint::BigInt::from_slice(if a.neg { num_bigint::Sign::Minus } else { num_bigint::Sign::Plus }, &a.mag);
    let y = num_bigint::BigInt::from_slice(if b.neg { num_bigint::Sign::Minus } else { num_bigint::Sign::Plus }, &b.mag);
    let (s, mag) = num_integer::Integer::lcm(&x, &y).to_u32_digits();
    BigInt { neg: s == num_bigint::Sign::Minus, mag }
}

/// Trusted: `num_traits::ToPrimitive::to_u64` of `num_bigint::BigInt`: the
/// value when it lies in the range of `u64`, nothing otherwise.
#[verifier::external_body]
fn outside_to_u64(a: &BigInt) -> (r: Option<u64>)
    ensures
        r == (if 0 <= a@ <= u64::MAX { Some(a@ as u64) } else { None::<u64> }),
{
    let x = num_bigint::BigInt::from_slice(if a.neg { num_bigint::Sign::Minus } else { num_bigint::Sign::Plus }, &a.mag);
    num_traits::ToPrimitive::to_u64(&x)
}

/// Trusted: `num_traits::ToPrimitive::to_u128` of `num_bigint::BigInt`: the
/// value when it lies in the range of `u128`, nothing otherwise.
#[verifier::external_body]
fn outside_to_u128(a: &BigInt) -> (r: Option<u128>)
    ensures
        r == (if 0 <= a@ <= u128::MAX { Some(a@ as u128) } else { None::<u128> }),
{
    let x = num_bigint::BigInt::from_slice(if a.neg { num_bigint::Sign::Minus } else { num_bigint::Sign::Plus }, &a.mag);
    num_traits::ToPrimitive::to_u128(&x)
}

/// Trusted: `num_traits::ToPrimitive::to_usize` of `num_bigint::BigInt`: the
/// value when it lies in the range of `usize`, nothing otherwise.
#[verifier::external_body]
fn outside_to_usize(a: &BigInt) -> (r: Option<usize>)
    ensures
        r == (if 0 <= a@ <= usize::MAX { Some(a@ as usize) } else { None::<usize> }),
{
    let x = num_bigint::BigInt::from_slice(if a.neg { num_bigint::Sign::Minus } else { num_bigint::Sign::Plus }, &a.mag);
    num_traits::ToPrimitive::to_usize(&x)
}

/// Trusted: `num_traits::ToPrimitive::to_i64` of `num_bigint::BigInt`: the
/// value when it lies in the range of `i64`, nothing otherwise.
#[verifier::external_body]
fn outside_to_i64(a: &BigInt) -> (r: Option<i64>)
    ensures
        r == (if i64::MIN <= a@ <= i64::MAX { Some(a@ as i64) } else { None::<i64> }),
{
    let x = num_bigint::BigInt::from_slice(if a.neg { num_bigint::Sign::Minus } else { num_bigint::Sign::Plus }, &a.mag);
    num_traits::ToPrimitive::to_i64(&x)
}

/// Trusted: `ToString::to_string` of `num_bigint::BigInt` (its `Display`):
/// a minus sign for a negative value, then the decimal digits of the
/// magnitude without leading zeros.
#[verifier::external_body]
fn outside_to_string(a: &BigInt) -> (r: String)
    ensures
        r@ == int_decimal(a@),
{
    let x = num_bigint::BigInt::from_slice(if a.neg { num_bigint::Sign::Minus } else { num_bigint::Sign::Plus }, &a.mag);
    x.to_string()
}

impl BigInt {
    /// Zero.
    pub fn zero() -> (r: BigInt)
        ensures
            r@ == 0,
    {
        BigInt { neg: false, mag: Vec::new() }
    }

    /// One.
    pub fn one() -> (r: BigInt)
        ensures
            r@ == 1,
    {
        BigInt::from_u64(1)
    }

    /// The value of an unsigned machine integer.
    pub fn from_u64(n: u64) -> (r: BigInt)
        ensures
            r@ == n as int,
    {
        let mut mag: Vec<u32> = Vec::new();
        if n > 0 {
            proof {
                lemma_fundamental_div_mod(n as int, 0x1_0000_0000);
                lemma_mod_bound(n as int, 0x1_0000_0000);
                assert(n / 0x1_0000_0000 < 0x1_0000_0000) by (nonlinear_arith)
                    requires n <= u64::MAX;
            }
            let lo = (n % 0x1_0000_0000) as u32;
            let hi = (n / 0x1_0000_0000) as u32;
            mag.push(lo);
            if hi > 0 {
                mag.push(hi);
                assert(mag@.drop_first() =~= seq![hi]);
                assert(seq![hi].drop_first() =~= Seq::<u32>::empty());
                assert(limbs_value(Seq::<u32>::empty()) == 0);
                assert(limbs_value(seq![hi]) == hi as nat);
                assert(limbs_value(mag@) == lo as nat + 0x1_0000_0000 * (hi as nat));
            } else {
                assert(mag@.drop_first() =~= Seq::<u32>::empty());
                assert(limbs_value(Seq::<u32>::empty()) == 0);
                assert(limbs_value(mag@) == lo as nat);
            }
        }
        BigInt { neg: false, mag }
    }

    /// The value of a signed machine integer.
    pub fn from_i64(n: i64) -> (r: BigInt)
        ensures
            r@ == n as int,
    {
        let m: u64 = if n >= 0 {
            n as u64
        } else if n == i64::MIN {
            0x8000_0000_0000_0000u64
        } else {
            (-n) as u64
        };
        let u = BigInt::from_u64(m);
        BigInt { neg: n < 0, mag: u.mag }
    }

    /// The integer with the given sign and little-endian base-2^32 limbs.
    pub fn from_limbs(negative: bool, limbs: Vec<u32>) -> (r: BigInt)
        ensures
            r@ == (if negative { -(limbs_value(limbs@) as int) } else { limbs_value(limbs@) as int }),
    {
        BigInt { neg: negative, mag: limbs }
    }

    /// The sign flag and the little-endian base-2^32 limbs of the magnitude.
    pub fn to_limbs(&self) -> (r: (bool, Vec<u32>))
        ensures
            self@ == (if r.0 { -(limbs_value(r.1@) as int) } else { limbs_value(r.1@) as int }),
    {
        (self.neg, copy_limbs(&self.mag))
    }

    /// Whether the value is zero.
    pub fn is_zero(&self) -> (r: bool)
        ensures
            r == (self@ == 0),
    {
        proof {
            lemma_limbs_zero(self.mag@);
        }
        let mut i: usize = 0;
        while i < self.mag.len()
            invariant
                i <= self.mag@.len(),
                forall|j: int| 0 <= j < i ==> self.mag@[j] == 0,
            decreases self.mag@.len() - i,
        {
            if self.mag[i] != 0 {
                proof {
                    lemma_limbs_zero(self.mag@);
                }
                return false;
            }
            i = i + 1;
        }
        true
    }

    /// Whether the value is below zero.
    pub fn is_negative(&self) -> (r: bool)
        ensures
            r == (self@ < 0),
    {
        self.neg && !self.is_zero()
    }

    /// Whether the value is above zero.
    pub fn is_positive(&self) -> (r: bool)
        ensures
            r == (self@ > 0),
    {
        !self.neg && !self.is_zero()
    }

    /// Whether the value is odd.
    pub fn is_odd(&self) -> (r: bool)
        ensures
            r == (self@ % 2 == 1),
    {
        proof {
            lemma_neg_parity(limbs_value(self.mag@) as int);
            if self.mag@.len() > 0 {
                lemma_limbs_parity(self.mag@);
            }
        }
        self.mag.len() > 0 && self.mag[0] % 2 == 1
    }

    /// The absolute value.
    pub fn abs(&self) -> (r: BigInt)
        ensures
            r@ == abs_int(self@) as int,
    {
        BigInt { neg: false, mag: copy_limbs(&self.mag) }
    }

    /// The value with its sign flipped.
    pub fn negated(&self) -> (r: BigInt)
        ensures
            r@ == -self@,
    {
        BigInt { neg: !self.neg, mag: copy_limbs(&self.mag) }
    }

    /// The sum.
    pub fn plus(&self, other: &BigInt) -> (r: BigInt)
        ensures
            r@ == self@ + other@,
    {
        outside_add(self, other)
    }

    /// The difference.
    pub fn minus(&self, other: &BigInt) -> (r: BigInt)
        ensures
            r@ == self@ - other@,
    {
        outside_sub(self, other)
    }

    /// The product.
    pub fn times(&self, other: &BigInt) -> (r: BigInt)
        ensures
            r@ == self@ * other@,
    {
        outside_mul(self, other)
    }

    /// The quotient, rounded toward zero.
    pub fn div_trunc(&self, other: &BigInt) -> (r: BigInt)
        requires
            other@ != 0,
        ensures
            r@ == trunc_div(self@, other@),
    {
        outside_div(self, other)
    }

    /// The remainder of the division rounded toward zero.
    pub fn rem_trunc(&self, other: &BigInt) -> (r: BigInt)
        requires
            other@ != 0,
        ensures
            r@ == trunc_rem(self@, other@),
    {
        outside_rem(self, other)
    }

    /// Half the value, rounded toward negative infinity.
    pub fn halved(&self) -> (r: BigInt)
        ensures
            r@ == self@ / 2,
    {
        outside_shr1(self)
    }

    /// Whether the value is below the other.
    pub fn less_than(&self, other: &BigInt) -> (r: bool)
        ensures
            r == (self@ < other@),
    {
        outside_compare(self, other) < 0
    }

    /// Whether the value is at most the other.
    pub fn at_most(&self, other: &BigInt) -> (r: bool)
        ensures
            r == (self@ <= other@),
    {
        outside_compare(self, other) <= 0
    }

    /// Whether the two values are equal.
    pub fn equals(&self, other: &BigInt) -> (r: bool)
        ensures
            r == (self@ == other@),
    {
        outside_compare(self, other) == 0
    }

    /// The greatest common divisor of the magnitudes.
    pub fn gcd(&self, other: &BigInt) -> (r: BigInt)
        ensures
            r@ == spec_gcd(abs_int(self@), abs_int(other@)) as int,
    {
        outside_gcd(self, other)
    }

    /// The least common multiple of the magnitudes.
    pub fn lcm(&self, other: &BigInt) -> (r: BigInt)
        ensures
            r@ == spec_lcm(abs_int(self@), abs_int(other@)) as int,
    {
        outside_lcm(self, other)
    }

    /// The value as a `u64`, when it fits.
    pub fn to_u64(&self) -> (r: Option<u64>)
        ensures
            r == (if 0 <= self@ <= u64::MAX { Some(self@ as u64) } else { None::<u64> }),
    {
        outside_to_u64(self)
    }

    /// The value as a `u128`, when it fits.
    pub fn to_u128(&self) -> (r: Option<u128>)
        ensures
            r == (if 0 <= self@ <= u128::MAX { Some(self@ as u128) } else { None::<u128> }),
    {
        outside_to_u128(self)
    }

    /// The value as a `usize`, when it fits.
    pub fn to_usize(&self) -> (r: Option<usize>)
        ensures
            r == (if 0 <= self@ <= usize::MAX { Some(self@ as usize) } else { None::<usize> }),
    {
        outside_to_usize(self)
    }

    /// The value as an `i64`, when it fits.
    pub fn to_i64(&self) -> (r: Option<i64>)
        ensures
            r == (if i64::MIN <= self@ <= i64::MAX { Some(self@ as i64) } else { None::<i64> }),
    {
        outside_to_i64(self)
    }

    /// The decimal representation, with a minus sign when negative.
    pub fn to_decimal_string(&self) -> (r: String)
        ensures
            r@ == int_decimal(self@),
    {
        outside_to_string(self)
    }
}


/// A fraction of integers of any size, always in lowest terms with a positive
/// denominator.
#[derive(Debug, PartialEq, Eq)]
pub struct BigRational {
    numer: BigInt,
    denom: BigInt,
}

impl View for BigRational {
    /// The numerator and the denominator.
    type V = (int, int);

    closed spec fn view(&self) -> (int, int) {
        (self.numer@, self.denom@)
    }
}

/// A fraction in lowest terms with a positive denominator.
pub open spec fn reduced_fraction(n: int, d: int) -> bool {
    d > 0 && spec_gcd(abs_int(n), d as nat) == 1
}

impl BigRational {
    #[verifier::type_invariant]
    spec fn well_formed(self) -> bool {
        reduced_fraction(self.numer@, self.denom@)
    }
}

/// Trusted: `num_rational::Ratio::<num_bigint::BigInt>::new`, which divides
/// numerator and denominator by their gcd and makes the denominator positive
/// (panics on a zero denominator, left out by `requires`).
#[verifier::external_body]
fn outside_ratio_new(n: &BigInt, d: &BigInt) -> (r: BigRational)
    requires
        d@ != 0,
    ensures
        reduced_fraction(r@.0, r@.1),
        r@.0 * d@ == n@ * r@.1,
{
    let x = num_bigint::BigInt::from_slice(if n.neg { num_bigint::Sign::Minus } else { num_bigint::Sign::Plus }, &n.mag);
    let y = num_bigint::BigInt::from_slice(if d.neg { num_bigint::Sign::Minus } else { num_bigint::Sign::Plus }, &d.mag);
    let q = num_rational::Ratio::new(x, y);
    let (ns, nm) = q.numer().to_u32_digits();
    let (ds, dm) = q.denom().to_u32_digits();
    let numer = BigInt { neg: ns == num_bigint::Sign::Minus, mag: nm };
    BigRational { numer, denom: BigInt { neg: ds == num_bigint::Sign::Minus, mag: dm } }
}

proof fn lemma_gcd_with_one(a: nat)
    ensures
        spec_gcd(a, 1) == 1,
{
    assert(a % 1 == 0);
    assert(spec_gcd(1, 0) == 1);
}

impl BigRational {
    /// The fraction `numer / denom`, reduced to lowest terms with a positive
    /// denominator.
    pub fn new(numer: BigInt, denom: BigInt) -> (r: BigRational)
        requires
            denom@ != 0,
        ensures
            reduced_fraction(r@.0, r@.1),
            r@.0 * denom@ == numer@ * r@.1,
    {
        outside_ratio_new(&numer, &denom)
    }

    /// The integer `n` as a fraction `n / 1`.
    pub fn from_integer(n: BigInt) -> (r: BigRational)
        ensures
            r@ == (n@, 1int),
    {
        proof {
            lemma_gcd_with_one(abs_int(n@));
        }
        BigRational { numer: n, denom: BigInt::one() }
    }

    /// The numerator.
    pub fn numer(&self) -> (r: &BigInt)
        ensures
            r@ == self@.0,
    {
        &self.numer
    }

    /// The denominator; it is positive and the fraction is in lowest terms.
    pub fn denom(&self) -> (r: &BigInt)
        ensures
            r@ == self@.1,
            reduced_fraction(self@.0, self@.1),
    {
        proof {
            use_type_invariant(self);
        }
        &self.denom
    }

    /// Whether the fraction is an integer, its denominator being one.
    pub fn is_integer(&self) -> (r: bool)
        ensures
            r == (self@.1 == 1),
    {
        let one = BigInt::one();
        self.denom.equals(&one)
    }

    /// Whether the fraction is below zero.
    pub fn is_negative(&self) -> (r: bool)
        ensures
            r == (self@.0 < 0),
    {
        self.numer.is_negative()
    }
}

impl Clone for BigRational {
    fn clone(&self) -> (r: Self)
        ensures
            r@ == self@,
    {
        proof {
            use_type_invariant(self);
        }
        BigRational { numer: self.numer.clone(), denom: self.denom.clone() }
    }
}

} // verus!
