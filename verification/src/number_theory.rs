//! Number theory on machine integers: greatest common divisor, least common
//! multiple, modular exponentiation and the sieve of Eratosthenes.

use vstd::prelude::*;
use vstd::arithmetic::div_mod::*;
use vstd::arithmetic::mul::*;
use vstd::arithmetic::power::*;
use vstd::arithmetic::power2::*;
use crate::bigint::{BigInt, trunc_div, trunc_rem, lemma_trunc_nonneg, lemma_normalize_residue};
use crate::error::{CalcError, ErrorKind};
use crate::text::{owned, push_str, push_u64};
use crate::modular::{lemma_miller_rabin, lemma_square_step, lemma_prime_divisor};
use crate::totient::{totient_below, spec_totient, lemma_mod_trans, lemma_prime_factor, lemma_prime_without_small_factor, lemma_totient_skip};

verus! {

// ===================== divisibility and gcd =====================

/// `d` divides `n`.
pub open spec fn divides(d: nat, n: nat) -> bool {
    exists|k: nat| #[trigger] (d * k) == n
}

/// The greatest common divisor by Euclid's recurrence; `gcd(0, 0) == 0`.
pub open spec fn spec_gcd(a: nat, b: nat) -> nat
    decreases b,
{
    if b == 0 {
        a
    } else {
        spec_gcd(b, a % b)
    }
}

/// The least common multiple; zero when either argument is zero.
pub open spec fn spec_lcm(a: nat, b: nat) -> nat {
    if a == 0 || b == 0 {
        0
    } else {
        (a / spec_gcd(a, b)) * b
    }
}

/// The absolute value of an integer.
pub open spec fn abs_int(x: int) -> nat {
    if x < 0 { (-x) as nat } else { x as nat }
}

/// For a positive `d`, `d` divides `n` exactly when `n % d == 0`.
pub proof fn lemma_divides_mod(d: nat, n: nat)
    requires
        d > 0,
    ensures
        divides(d, n) <==> n % d == 0,
{
    if n % d == 0 {
        lemma_fundamental_div_mod(n as int, d as int);
        let k = n / d;
        assert(d * k == n);
    }
    if divides(d, n) {
        let k = choose|k: nat| #[trigger] (d * k) == n;
        lemma_mod_multiples_basic(k as int, d as int);
        lemma_mul_is_commutative(k as int, d as int);
    }
}

proof fn lemma_divides_linear(d: nat, x: nat, y: nat, q: nat)
    requires
        divides(d, x),
        divides(d, y),
        x >= q * y,
    ensures
        divides(d, (x - q * y) as nat),
{
    let kx = choose|k: nat| #[trigger] (d * k) == x;
    let ky = choose|k: nat| #[trigger] (d * k) == y;
    if d == 0 {
        assert(x == 0 && y == 0) by (nonlinear_arith)
            requires d * kx == x, d * ky == y, d == 0;
        assert(d * 0 == (x - q * y) as nat);
    } else {
        assert(q * y == d * (q * ky)) by (nonlinear_arith)
            requires d * ky == y;
        assert(kx >= q * ky) by (nonlinear_arith)
            requires d * kx == x, x >= d * (q * ky), d > 0;
        let k = (kx - q * ky) as nat;
        assert(d * k == (x - q * y) as nat) by (nonlinear_arith)
            requires d * kx == x, q * y == d * (q * ky), k == kx - q * ky, kx >= q * ky;
    }
}

proof fn lemma_divides_add(d: nat, x: nat, y: nat, q: nat)
    requires
        divides(d, x),
        divides(d, y),
    ensures
        divides(d, x + q * y),
{
    let kx = choose|k: nat| #[trigger] (d * k) == x;
    let ky = choose|k: nat| #[trigger] (d * k) == y;
    let k = kx + q * ky;
    assert(d * k == x + q * y) by (nonlinear_arith)
        requires d * kx == x, d * ky == y, k == kx + q * ky;
}

/// The gcd divides both of its arguments.
pub proof fn lemma_gcd_divides(a: nat, b: nat)
    ensures
        divides(spec_gcd(a, b), a),
        divides(spec_gcd(a, b), b),
    decreases b,
{
    if b == 0 {
        assert(spec_gcd(a, b) * 1 == a);
        assert(spec_gcd(a, b) * 0 == b);
    } else {
        lemma_gcd_divides(b, a % b);
        lemma_fundamental_div_mod(a as int, b as int);
        let q = a / b;
        assert(a == (a % b) + q * b) by (nonlinear_arith)
            requires a == b * (a / b) + a % b, q == a / b;
        lemma_divides_add(spec_gcd(a, b), a % b, b, q);
    }
}

/// Every common divisor of the arguments divides their gcd.
pub proof fn lemma_common_divisor_divides_gcd(a: nat, b: nat, d: nat)
    requires
        divides(d, a),
        divides(d, b),
    ensures
        divides(d, spec_gcd(a, b)),
    decreases b,
{
    if b != 0 {
        lemma_fundamental_div_mod(a as int, b as int);
        let q = a / b;
        lemma_mul_is_commutative(b as int, q as int);
        assert(a % b == a - q * b);
        assert(a >= q * b);
        lemma_divides_linear(d, a, b, q);
        lemma_common_divisor_divides_gcd(b, a % b, d);
    }
}

proof fn lemma_divides_antisym(x: nat, y: nat)
    requires
        divides(x, y),
        divides(y, x),
    ensures
        x == y,
{
    let k1 = choose|k: nat| #[trigger] (x * k) == y;
    let k2 = choose|k: nat| #[trigger] (y * k) == x;
    assert(x == y) by (nonlinear_arith)
        requires x * k1 == y, y * k2 == x;
}

/// The gcd does not depend on the order of its arguments.
pub proof fn lemma_gcd_commutative(a: nat, b: nat)
    ensures
        spec_gcd(a, b) == spec_gcd(b, a),
{
    lemma_gcd_divides(a, b);
    lemma_gcd_divides(b, a);
    lemma_common_divisor_divides_gcd(a, b, spec_gcd(b, a));
    lemma_common_divisor_divides_gcd(b, a, spec_gcd(a, b));
    lemma_divides_antisym(spec_gcd(a, b), spec_gcd(b, a));
}

/// The gcd is zero only for two zeros; otherwise it is positive.
pub proof fn lemma_gcd_positive(a: nat, b: nat)
    ensures
        (spec_gcd(a, b) == 0) == (a == 0 && b == 0),
    decreases b,
{
    if b != 0 {
        lemma_gcd_positive(b, a % b);
    }
}

/// The lcm is a common multiple, and lcm times gcd is the product.
pub proof fn lemma_lcm_properties(a: nat, b: nat)
    requires
        a > 0,
        b > 0,
    ensures
        divides(a, spec_lcm(a, b)),
        divides(b, spec_lcm(a, b)),
        spec_lcm(a, b) * spec_gcd(a, b) == a * b,
{
    let g = spec_gcd(a, b);
    lemma_gcd_divides(a, b);
    lemma_gcd_positive(a, b);
    let ka = choose|k: nat| #[trigger] (g * k) == a;
    let kb = choose|k: nat| #[trigger] (g * k) == b;
    lemma_div_multiples_vanish(ka as int, g as int);
    assert(a / g == ka);
    let l = spec_lcm(a, b);
    assert(l == ka * b);
    assert(a * kb == l) by (nonlinear_arith)
        requires g * ka == a, g * kb == b, l == ka * b;
    assert(b * ka == l) by (nonlinear_arith)
        requires l == ka * b;
    assert(l * g == a * b) by (nonlinear_arith)
        requires g * ka == a, l == ka * b;
}

// ===================== modular exponentiation =====================

/// `b` raised to the power `e`.
pub open spec fn spec_pow(b: nat, e: nat) -> nat
    decreases e,
{
    if e == 0 {
        1
    } else {
        b * spec_pow(b, (e - 1) as nat)
    }
}

proof fn lemma_pow_square(b: nat, q: nat)
    ensures
        spec_pow(b * b, q) == spec_pow(b, 2 * q),
    decreases q,
{
    if q > 0 {
        lemma_pow_square(b, (q - 1) as nat);
        assert(spec_pow(b, (2 * q - 1) as nat) == b * spec_pow(b, (2 * q - 2) as nat)) by {
            assert(((2 * q - 1) as nat - 1) as nat == (2 * q - 2) as nat);
        }
        assert(spec_pow(b, 2 * q) == b * spec_pow(b, (2 * q - 1) as nat));
        assert(spec_pow(b * b, q) == (b * b) * spec_pow(b, (2 * (q - 1)) as nat));
        assert((2 * (q - 1)) as nat == (2 * q - 2) as nat);
        lemma_mul_is_associative(b as int, b as int, spec_pow(b, (2 * q - 2) as nat) as int);
    }
}

proof fn lemma_pow_mod(b: nat, e: nat, m: nat)
    requires
        m > 0,
    ensures
        spec_pow(b % m, e) % m == spec_pow(b, e) % m,
    decreases e,
{
    if e > 0 {
        lemma_pow_mod(b, (e - 1) as nat, m);
        let p = spec_pow(b, (e - 1) as nat);
        let pm = spec_pow(b % m, (e - 1) as nat);
        lemma_mul_mod_noop(b as int, p as int, m as int);
        lemma_mul_mod_noop((b % m) as int, pm as int, m as int);
        lemma_mod_twice(b as int, m as int);
    }
}

/// `base` raised to `exp`, modulo `m`, by square-and-multiply.
/// The modulus must be positive.
pub fn mod_pow_u64(base: u64, exp: u64, m: u64) -> (r: u64)
    requires
        m > 0,
    ensures
        r as nat == spec_pow(base as nat, exp as nat) % (m as nat),
{
    if m == 1 {
        return 0;
    }
    let m128: u128 = m as u128;
    let mut result: u128 = 1;
    let mut cur: u128 = (base % m) as u128;
    let mut e: u64 = exp;
    proof {
        lemma_pow_mod(base as nat, exp as nat, m as nat);
        lemma_small_mod(1, m as nat);
    }
    while e > 0
        invariant
            m128 == m as u128,
            m > 1,
            result < m,
            cur < m,
            ((result as nat) * spec_pow(cur as nat, e as nat)) % (m as nat) == spec_pow(base as nat, exp as nat) % (m as nat),
        decreases e,
    {
        let ghost q = (e / 2) as nat;
        let ghost old_result = result as nat;
        let ghost old_cur = cur as nat;
        let ghost old_e = e as nat;
        proof {
            lemma_pow_square(old_cur, q);
            lemma_fundamental_div_mod(old_e as int, 2);
        }
        proof {
            assert(m * m <= u128::MAX) by (nonlinear_arith)
                requires m <= u64::MAX;
        }
        if e % 2 == 1 {
            proof {
                assert(old_e == 2 * q + 1);
                assert(spec_pow(old_cur, old_e) == old_cur * spec_pow(old_cur, 2 * q));
                lemma_mul_is_associative(old_result as int, old_cur as int, spec_pow(old_cur, 2 * q) as int);
                lemma_mul_mod_noop_left((old_result * old_cur) as int, spec_pow(old_cur, 2 * q) as int, m as int);
                assert(old_result * old_cur < m * m) by (nonlinear_arith)
                    requires old_result < m, old_cur < m;
            }
            result = (result * cur) % m128;
        } else {
            proof {
                assert(old_e == 2 * q);
            }
        }
        proof {
            assert(old_cur * old_cur < m * m) by (nonlinear_arith)
                requires old_cur < m;
            assert(m * m <= u128::MAX) by (nonlinear_arith)
                requires m <= u64::MAX;
        }
        cur = (cur * cur) % m128;
        e = e / 2;
        proof {
            // result * pow(cur, q) == result * pow(old_cur * old_cur % m, q)
            lemma_pow_mod(old_cur * old_cur, q, m as nat);
            lemma_mul_mod_noop_right(result as int, spec_pow(cur as nat, q) as int, m as int);
            lemma_mul_mod_noop_right(result as int, spec_pow(old_cur * old_cur, q) as int, m as int);
        }
    }
    proof {
        assert(e == 0);
        assert(spec_pow(cur as nat, 0) == 1);
        assert(spec_pow(cur as nat, e as nat) == 1);
        lemma_mul_basics(result as int);
        assert((result as nat) * spec_pow(cur as nat, e as nat) == result as nat);
        lemma_small_mod(result as nat, m as nat);
        assert((result as nat) % (m as nat) == result as nat);
    }
    result as u64
}


// ===================== primes =====================

/// `n` is prime: at least two and without a divisor strictly between one and itself.
pub open spec fn spec_is_prime(n: nat) -> bool {
    n >= 2 && forall|d: nat| 2 <= d < n ==> #[trigger] (n % d) != 0
}

/// The largest bound the sieve accepts.
pub const MAX_SIEVE_N: u64 = 10_000_000;

/// `j` is at least two and has no divisor `d` with `2 <= d < min(i, j)`.
spec fn no_divisor_below(j: nat, i: nat) -> bool {
    j >= 2 && forall|d: nat| 2 <= d < i && d < j ==> #[trigger] (j % d) != 0
}

proof fn lemma_no_divisor_step(k: nat, i: nat)
    requires
        i >= 2,
    ensures
        no_divisor_below(k, i + 1) == (no_divisor_below(k, i) && !(i < k && k % i == 0)),
{
    if no_divisor_below(k, i) && !(i < k && k % i == 0) {
        assert forall|d: nat| 2 <= d < i + 1 && d < k implies #[trigger] (k % d) != 0 by {
            if d < i {
                assert(2 <= d < i && d < k);
            }
        }
    }
    if no_divisor_below(k, i + 1) {
        assert forall|d: nat| 2 <= d < i && d < k implies #[trigger] (k % d) != 0 by {
            assert(2 <= d < i + 1 && d < k);
        }
        if i < k {
            assert(2 <= i < i + 1 && i < k);
            assert(k % i != 0);
        }
    }
}

proof fn lemma_mod_zero_transitive(k: nat, i: nat, d: nat)
    requires
        d > 0,
        i > 0,
        k % i == 0,
        i % d == 0,
    ensures
        k % d == 0,
{
    lemma_fundamental_div_mod(k as int, i as int);
    lemma_fundamental_div_mod(i as int, d as int);
    let a = k / i;
    let b = i / d;
    assert(k == d * (b * a)) by (nonlinear_arith)
        requires k == i * a, i == d * b;
    lemma_mod_multiples_basic((b * a) as int, d as int);
    lemma_mul_is_commutative(d as int, (b * a) as int);
}

proof fn lemma_middle_multiple(k: nat, i: nat)
    requires
        i >= 2,
        k % i == 0,
        i < k,
        k < i * i,
    ensures
        !no_divisor_below(k, i),
{
    lemma_fundamental_div_mod(k as int, i as int);
    let c = k / i;
    assert(k == i * c);
    assert(2 <= c < i) by (nonlinear_arith)
        requires k == i * c, i < k, k < i * i, i >= 2;
    assert(c < k) by (nonlinear_arith)
        requires k == i * c, i >= 2, c >= 2;
    lemma_mod_multiples_basic(i as int, c as int);
    lemma_mul_is_commutative(i as int, c as int);
    assert(k % c == 0);
}

proof fn lemma_small_divisor(k: nat, n: nat, i: nat)
    requires
        k >= 2,
        !spec_is_prime(k),
        k <= n,
        n < i * i,
    ensures
        !no_divisor_below(k, i),
{
    let d = choose|d: nat| 2 <= d < k && #[trigger] (k % d) == 0;
    lemma_fundamental_div_mod(k as int, d as int);
    let e = k / d;
    assert(k == d * e);
    assert(e >= 2) by (nonlinear_arith)
        requires k == d * e, d < k;
    lemma_mod_multiples_basic(d as int, e as int);
    lemma_mul_is_commutative(d as int, e as int);
    assert(k % e == 0);
    let s = if d <= e { d } else { e };
    assert(s * s <= k) by (nonlinear_arith)
        requires k == d * e, s == d || s == e, s <= d, s <= e;
    assert(s < i) by (nonlinear_arith)
        requires s * s <= k, k <= n, n < i * i, s >= 0, i >= 0;
    assert(s < k) by (nonlinear_arith)
        requires k == d * e, d >= 2, e >= 2, s == d || s == e;
    assert(k % s == 0);
}

/// The primes up to `n`, in increasing order (sieve of Eratosthenes).
/// The bound is at most `MAX_SIEVE_N`, which keeps the table of flags small.
pub fn prime_sieve_u64(n: u64) -> (r: Vec<u64>)
    requires
        n <= MAX_SIEVE_N,
    ensures
        forall|a: int| 0 <= a < r@.len() ==> spec_is_prime(#[trigger] r@[a] as nat) && r@[a] <= n,
        forall|a: int, b: int| 0 <= a < b < r@.len() ==> r@[a] < r@[b],
        forall|p: nat| p <= n && spec_is_prime(p) ==> r@.contains(p as u64),
{
    let mut r: Vec<u64> = Vec::new();
    if n < 2 {
        return r;
    }
    let nn: usize = n as usize;
    let mut marks: Vec<bool> = vec![true; nn + 1];
    marks.set(0, false);
    marks.set(1, false);
    let mut i: usize = 2;
    while i * i <= nn
        invariant
            nn == n,
            nn <= MAX_SIEVE_N,
            2 <= i <= nn,
            i * i <= nn + 2 * i + 1,
            marks@.len() == nn + 1,
            forall|k: int| 0 <= k <= nn ==> #[trigger] marks@[k] == no_divisor_below(k as nat, i as nat),
        decreases nn + 1 - i,
    {
        let ghost before = marks@;
        if marks[i] {
            let mut j: usize = i * i;
            proof {
                lemma_mod_multiples_basic(i as int, i as int);
            }
            while j <= nn
                invariant
                    nn == n,
                    nn <= MAX_SIEVE_N,
                    2 <= i <= nn,
                    i * i <= nn,
                    i * i <= j,
                    j <= nn + i,
                    j % i == 0,
                    marks@.len() == nn + 1,
                    forall|k: int| 0 <= k <= nn ==> #[trigger] marks@[k] == (before[k] && !(i * i <= k < j && k % (i as int) == 0)),
                decreases nn + i - j,
            {
                marks.set(j, false);
                proof {
                    assert forall|k: int| j < k < j + i implies #[trigger] (k % (i as int)) != 0 by {
                        lemma_fundamental_div_mod(k, i as int);
                        lemma_fundamental_div_mod(j as int, i as int);
                        if k % (i as int) == 0 {
                            let qk = k / (i as int);
                            let qj = (j as int) / (i as int);
                            assert(false) by (nonlinear_arith)
                                requires k == i * qk, j == i * qj, j < k, k < j + i, i >= 2;
                        }
                    }
                    lemma_mod_add_multiples_vanish(j as int, i as int);
                }
                j = j + i;
            }
            proof {
                assert forall|k: int| 0 <= k <= nn implies #[trigger] marks@[k] == no_divisor_below(k as nat, (i + 1) as nat) by {
                    lemma_no_divisor_step(k as nat, i as nat);
                    assert(before[k] == no_divisor_below(k as nat, i as nat));
                    assert((i as int) < i * i) by (nonlinear_arith)
                        requires i >= 2;
                    if k % (i as int) == 0 && (i as int) < k && k < i * i {
                        lemma_middle_multiple(k as nat, i as nat);
                    }
                }
            }
        } else {
            proof {
                assert(!no_divisor_below(i as nat, i as nat));
                let d = choose|d: nat| 2 <= d < i && d < i && #[trigger] ((i as nat) % d) == 0;
                assert forall|k: int| 0 <= k <= nn implies #[trigger] marks@[k] == no_divisor_below(k as nat, (i + 1) as nat) by {
                    lemma_no_divisor_step(k as nat, i as nat);
                    if k % (i as int) == 0 && (i as int) < k {
                        lemma_mod_zero_transitive(k as nat, i as nat, d);
                        assert(2 <= d < i && d < k);
                    }
                }
            }
        }
        assert((i + 1) * (i + 1) <= nn + 2 * (i + 1) + 1 && i + 1 <= nn) by (nonlinear_arith)
            requires i * i <= nn, i >= 2;
        i = i + 1;
    }
    proof {
        assert forall|k: int| 0 <= k <= nn implies #[trigger] marks@[k] == spec_is_prime(k as nat) by {
            if k >= 2 && !spec_is_prime(k as nat) {
                lemma_small_divisor(k as nat, nn as nat, i as nat);
            }
        }
    }
    let mut k: usize = 2;
    while k <= nn
        invariant
            nn == n,
            nn <= MAX_SIEVE_N,
            2 <= k <= nn + 1,
            marks@.len() == nn + 1,
            forall|x: int| 0 <= x <= nn ==> #[trigger] marks@[x] == spec_is_prime(x as nat),
            forall|a: int| 0 <= a < r@.len() ==> spec_is_prime(#[trigger] r@[a] as nat) && r@[a] < k,
            forall|a: int, b: int| 0 <= a < b < r@.len() ==> r@[a] < r@[b],
            forall|p: nat| p < k && spec_is_prime(p) ==> r@.contains(p as u64),
        decreases nn + 1 - k,
    {
        if marks[k] {
            let ghost old_r = r@;
            r.push(k as u64);
            proof {
                assert forall|p: nat| p < k + 1 && spec_is_prime(p) implies r@.contains(p as u64) by {
                    if p == k {
                        assert(r@[r@.len() - 1] == k as u64);
                    } else {
                        let w = choose|w: int| 0 <= w < old_r.len() && old_r[w] == p as u64;
                        assert(r@[w] == p as u64);
                    }
                }
            }
        } else {
            proof {
                assert forall|p: nat| p < k + 1 && spec_is_prime(p) implies r@.contains(p as u64) by {
                    if p == k {
                        assert(marks@[k as int] == spec_is_prime(k as nat));
                    }
                }
            }
        }
        k = k + 1;
    }
    r
}


// ===================== integers of any size =====================

/// Greatest common divisor: the gcd of `|a|` and `|b|`.
pub fn gcd(a: &BigInt, b: &BigInt) -> (r: BigInt)
    ensures
        r@ == spec_gcd(abs_int(a@), abs_int(b@)) as int,
{
    let x = a.abs();
    let y = b.abs();
    x.gcd(&y)
}

/// Least common multiple: zero when either argument is zero, otherwise the
/// lcm of `|a|` and `|b|`.
pub fn lcm(a: &BigInt, b: &BigInt) -> (r: BigInt)
    ensures
        r@ == spec_lcm(abs_int(a@), abs_int(b@)) as int,
{
    if a.is_zero() || b.is_zero() {
        return BigInt::zero();
    }
    let x = a.abs();
    let y = b.abs();
    x.lcm(&y)
}

/// `s` lists exactly the primes up to `n`, in increasing order.
pub open spec fn primes_up_to(s: Seq<u64>, n: int) -> bool {
    &&& forall|a: int| 0 <= a < s.len() ==> spec_is_prime(#[trigger] s[a] as nat) && s[a] <= n
    &&& forall|a: int, b: int| 0 <= a < b < s.len() ==> s[a] < s[b]
    &&& forall|p: nat| p <= n && spec_is_prime(p) ==> s.contains(p as u64)
}

/// The primes up to `n` by the sieve of Eratosthenes. A negative bound is a
/// domain error; a bound above `MAX_SIEVE_N` is an overflow.
pub fn prime_sieve(n: &BigInt) -> (r: Result<Vec<u64>, CalcError>)
    ensures
        n@ < 0 ==> (r matches Err(e) && e.kind == ErrorKind::Domain),
        n@ > MAX_SIEVE_N ==> (r matches Err(e) && e.kind == ErrorKind::Overflow),
        0 <= n@ <= MAX_SIEVE_N ==> (r matches Ok(v) && primes_up_to(v@, n@)),
{
    if n.is_negative() {
        return Err(CalcError::domain(owned("prime_sieve() requires non-negative argument")));
    }
    let n_u64 = match n.to_u64() {
        Some(v) => v,
        None => {
            return Err(CalcError::overflow());
        },
    };
    if n_u64 > MAX_SIEVE_N {
        return Err(CalcError::overflow());
    }
    Ok(prime_sieve_u64(n_u64))
}

/// `base` raised to `exp` modulo `m` by square-and-multiply, the base first
/// reduced into `[0, m)`.
fn mod_pow_bigint(base: &BigInt, exp: &BigInt, m: &BigInt) -> (r: BigInt)
    requires
        m@ > 0,
        exp@ >= 0,
    ensures
        r@ == pow(base@, exp@ as nat) % m@,
{
    let one = BigInt::one();
    if m.equals(&one) {
        proof {
            lemma_mod_bound(pow(base@, exp@ as nat), 1);
        }
        return BigInt::zero();
    }
    let mut result = BigInt::one();
    let t = base.rem_trunc(m);
    let t2 = t.plus(m);
    let mut b = t2.rem_trunc(m);
    let mut e = exp.clone();
    proof {
        lemma_normalize_residue(base@, m@);
        lemma_trunc_nonneg(t2@, m@);
        lemma_mod_bound(base@, m@);
        lemma_pow_mod_noop(base@, exp@ as nat, m@);
        lemma_small_mod(1, m@ as nat);
        assert(1 * pow(b@, e@ as nat) == pow(b@, e@ as nat));
    }
    while e.is_positive()
        invariant
            m@ > 1,
            0 <= result@ < m@,
            0 <= b@ < m@,
            e@ >= 0,
            (result@ * pow(b@, e@ as nat)) % m@ == pow(base@, exp@ as nat) % m@,
        decreases e@,
    {
        let ghost ee = e@;
        let ghost q = (e@ / 2) as nat;
        let ghost bb = b@;
        let ghost rr = result@;
        proof {
            lemma_fundamental_div_mod(ee, 2);
            lemma_pow_multiplies(bb, 2, q);
            lemma_square_is_pow2(bb);
        }
        if e.is_odd() {
            let prod = result.times(&b);
            proof {
                lemma_mul_nonnegative(rr, bb);
                lemma_trunc_nonneg(prod@, m@);
                lemma_mod_bound(prod@, m@);
                lemma_pow_adds(bb, 2 * q, 1);
                lemma_pow1(bb);
                assert(ee == 2 * q + 1);
                assert(pow(bb, ee as nat) == pow(bb, 2 * q) * bb);
                lemma_mul_is_associative(rr, bb, pow(bb, 2 * q));
                lemma_mul_is_commutative(pow(bb, 2 * q), bb);
                lemma_mul_mod_noop_left(rr * bb, pow(bb, 2 * q), m@);
            }
            result = prod.rem_trunc(m);
        } else {
            proof {
                assert(ee == 2 * q);
            }
        }
        let sq = b.times(&b);
        proof {
            lemma_mul_nonnegative(bb, bb);
            lemma_trunc_nonneg(sq@, m@);
            lemma_mod_bound(sq@, m@);
        }
        b = sq.rem_trunc(m);
        e = e.halved();
        proof {
            assert(e@ == q);
            assert((result@ * pow(bb, 2 * q)) % m@ == pow(base@, exp@ as nat) % m@);
            lemma_pow_mod_noop(bb * bb, q, m@);
            lemma_mul_mod_noop_right(result@, pow(b@, q), m@);
            lemma_mul_mod_noop_right(result@, pow(bb * bb, q), m@);
        }
    }
    proof {
        assert(e@ == 0);
        lemma_pow0(b@);
        lemma_small_mod(result@ as nat, m@ as nat);
    }
    result
}

/// Modular exponentiation `base^exp mod |m|`. A zero modulus is a division by
/// zero; a negative exponent is a domain error.
pub fn mod_pow(base: &BigInt, exp: &BigInt, m: &BigInt) -> (r: Result<BigInt, CalcError>)
    ensures
        m@ == 0 ==> (r matches Err(e) && e.kind == ErrorKind::DivisionByZero),
        m@ != 0 && exp@ < 0 ==> (r matches Err(e) && e.kind == ErrorKind::Domain),
        m@ != 0 && exp@ >= 0 ==> (r matches Ok(v) && v@ == pow(base@, exp@ as nat) % (abs_int(m@) as int)),
{
    if m.is_zero() {
        return Err(CalcError::division_by_zero());
    }
    if exp.is_negative() {
        return Err(CalcError::domain(owned("mod_pow() requires non-negative exponent")));
    }
    let m_abs = m.abs();
    Ok(mod_pow_bigint(base, exp, &m_abs))
}

/// The extended Euclidean algorithm: `(g, x, y)` with `g` the gcd of `a` and
/// `b` and `a * x + b * y == g`.
fn extended_gcd(a: &BigInt, b: &BigInt) -> (r: (BigInt, BigInt, BigInt))
    requires
        a@ >= 0,
        b@ >= 0,
    ensures
        r.0@ == spec_gcd(a@ as nat, b@ as nat) as int,
        a@ * r.1@ + b@ * r.2@ == r.0@,
    decreases b@,
{
    if b.is_zero() {
        return (a.clone(), BigInt::one(), BigInt::zero());
    }
    let a_mod_b = a.rem_trunc(b);
    proof {
        lemma_trunc_nonneg(a@, b@);
        lemma_mod_bound(a@, b@);
    }
    let (g, x1, y1) = extended_gcd(b, &a_mod_b);
    let q = a.div_trunc(b);
    let qy = q.times(&y1);
    let y = x1.minus(&qy);
    proof {
        lemma_fundamental_div_mod(a@, b@);
        assert(a@ * y1@ + b@ * y@ == g@) by (nonlinear_arith)
            requires
                b@ * x1@ + a_mod_b@ * y1@ == g@,
                a_mod_b@ == a@ - b@ * q@,
                y@ == x1@ - q@ * y1@;
    }
    (g, y1, y)
}

/// The inverse of `a` modulo `m > 0` in `[0, m)`, when `a` and `m` are coprime.
fn mod_inverse_impl(a: &BigInt, m: &BigInt) -> (r: Option<BigInt>)
    requires
        m@ > 0,
    ensures
        r is Some <==> spec_gcd((a@ % m@) as nat, m@ as nat) == 1,
        r matches Some(x) ==> 0 <= x@ < m@ && (a@ * x@) % m@ == 1int % m@,
{
    let t = a.rem_trunc(m);
    let a_mod = if a.is_negative() {
        let t2 = t.plus(m);
        t2.rem_trunc(m)
    } else {
        t
    };
    proof {
        lemma_normalize_residue(a@, m@);
        if a@ >= 0 {
            lemma_trunc_nonneg(a@, m@);
        }
        lemma_mod_bound(a@, m@);
    }
    assert(a_mod@ == a@ % m@);
    let (g, x, _y) = extended_gcd(&a_mod, m);
    let one = BigInt::one();
    if !g.equals(&one) {
        return None;
    }
    let u = x.rem_trunc(m);
    let u2 = u.plus(m);
    let res = u2.rem_trunc(m);
    proof {
        lemma_normalize_residue(x@, m@);
        lemma_mod_bound(x@, m@);
        // a * res == a * x (mod m), and a_mod * x == 1 - m * y
        lemma_mul_mod_noop_right(a@, x@, m@);
        lemma_mul_mod_noop_left(a@, x@, m@);
        assert(a_mod@ * x@ == 1 - m@ * _y@);
        lemma_mod_multiples_vanish(-_y@, 1, m@);
        assert(m@ * (-_y@) + 1 == 1 - m@ * _y@) by (nonlinear_arith);
    }
    Some(res)
}

/// The inverse of `a` modulo `|m|`: the `x` in `[0, |m|)` with
/// `a * x == 1 (mod |m|)`. A zero modulus is a division by zero; when `a` and
/// `m` are not coprime there is no inverse, a domain error.
pub fn mod_inverse(a: &BigInt, m: &BigInt) -> (r: Result<BigInt, CalcError>)
    ensures
        m@ == 0 ==> (r matches Err(e) && e.kind == ErrorKind::DivisionByZero),
        m@ != 0 ==> match r {
            Ok(x) => spec_gcd((a@ % (abs_int(m@) as int)) as nat, abs_int(m@)) == 1
                && 0 <= x@ < abs_int(m@)
                && (a@ * x@) % (abs_int(m@) as int) == 1int % (abs_int(m@) as int),
            Err(e) => spec_gcd((a@ % (abs_int(m@) as int)) as nat, abs_int(m@)) != 1
                && e.kind == ErrorKind::Domain,
        },
{
    if m.is_zero() {
        return Err(CalcError::division_by_zero());
    }
    let m_abs = m.abs();
    match mod_inverse_impl(a, &m_abs) {
        Some(inv) => Ok(inv),
        None => {
            let mut msg = owned("mod_inverse: ");
            push_str(&mut msg, &a.to_decimal_string());
            push_str(&mut msg, " and ");
            push_str(&mut msg, &m.to_decimal_string());
            push_str(&mut msg, " are not coprime");
            Err(CalcError::domain(msg))
        },
    }
}


// ===================== simultaneous congruences =====================

/// The values of a sequence of big integers.
pub open spec fn big_values(s: Seq<BigInt>) -> Seq<int> {
    s.map_values(|b: BigInt| b@)
}

/// `x` satisfies the first `n` congruences `x == rs[j] (mod |ms[j]|)`.
pub open spec fn solves_prefix(x: int, rs: Seq<int>, ms: Seq<int>, n: nat) -> bool {
    forall|j: int| 0 <= j < n ==> #[trigger] (x % (abs_int(ms[j]) as int)) == rs[j] % (abs_int(ms[j]) as int)
}

/// The least common multiple of the magnitudes of the first `n` moduli.
pub open spec fn lcm_prefix(ms: Seq<int>, n: nat) -> nat
    decreases n,
{
    if n == 0 {
        1
    } else if n == 1 {
        abs_int(ms[0])
    } else {
        spec_lcm(lcm_prefix(ms, (n - 1) as nat), abs_int(ms[n - 1]))
    }
}

/// A system the solver accepts: as many remainders as moduli, at least one,
/// and no zero modulus.
pub open spec fn crt_well_posed(rs: Seq<int>, ms: Seq<int>) -> bool {
    &&& rs.len() > 0
    &&& rs.len() == ms.len()
    &&& forall|j: int| 0 <= j < ms.len() ==> ms[j] != 0
}

proof fn lemma_trunc_rem_shape(a: int, b: int)
    requires
        b != 0,
    ensures
        trunc_rem(a, b) == (if a >= 0 {
            (abs_int(a) % abs_int(b)) as int
        } else {
            -((abs_int(a) % abs_int(b)) as int)
        }),
{
    let aa = abs_int(a) as int;
    let bb = abs_int(b) as int;
    lemma_fundamental_div_mod(aa, bb);
    let q = aa / bb;
    let rho = aa % bb;
    if a >= 0 && b > 0 {
        assert(trunc_rem(a, b) == rho) by (nonlinear_arith)
            requires trunc_rem(a, b) == a - b * q, a == aa, b == bb, aa == bb * q + rho;
    } else if a >= 0 {
        assert(trunc_div(a, b) == -q);
        assert(trunc_rem(a, b) == rho) by (nonlinear_arith)
            requires trunc_rem(a, b) == a - b * (-q), a == aa, b == -bb, aa == bb * q + rho;
    } else if b > 0 {
        assert(trunc_div(a, b) == -q);
        assert(trunc_rem(a, b) == -rho) by (nonlinear_arith)
            requires trunc_rem(a, b) == a - b * (-q), a == -aa, b == bb, aa == bb * q + rho;
    } else {
        assert(trunc_rem(a, b) == -rho) by (nonlinear_arith)
            requires trunc_rem(a, b) == a - b * q, a == -aa, b == -bb, aa == bb * q + rho;
    }
}

/// The remainder of a division rounding toward zero is congruent to the
/// dividend and smaller than the divisor in magnitude.
proof fn lemma_trunc_rem_congruent(a: int, b: int)
    requires
        b != 0,
    ensures
        trunc_rem(a, b) % (abs_int(b) as int) == a % (abs_int(b) as int),
        -(abs_int(b) as int) < trunc_rem(a, b) < abs_int(b) as int,
        trunc_rem(a, b) == 0 <==> a % (abs_int(b) as int) == 0,
{
    lemma_trunc_rem_shape(a, b);
    let aa = abs_int(a) as int;
    let bb = abs_int(b) as int;
    lemma_fundamental_div_mod(aa, bb);
    lemma_mod_bound(aa, bb);
    let q = aa / bb;
    let rho = aa % bb;
    lemma_small_mod(rho as nat, bb as nat);
    if a >= 0 {
        assert(a % bb == rho);
    } else {
        assert(bb * (-q) + (-rho) == a) by (nonlinear_arith)
            requires aa == bb * q + rho, a == -aa;
        lemma_mod_multiples_vanish(-q, -rho, bb);
        if rho == 0 {
            lemma_mod_multiples_basic(-q, bb);
            assert(a == (-q) * bb) by (nonlinear_arith)
                requires aa == bb * q + rho, a == -aa, rho == 0;
        } else {
            lemma_mod_multiples_vanish(-1, bb - rho, bb);
            lemma_small_mod((bb - rho) as nat, bb as nat);
            assert((-rho) % bb == bb - rho);
        }
    }
}

/// Congruence modulo `n` carries over to every divisor `d` of `n`.
proof fn lemma_congruent_divisor(x: int, y: int, n: int, d: int)
    requires
        n > 0,
        d > 0,
        n % d == 0,
        x % n == y % n,
    ensures
        x % d == y % d,
{
    lemma_fundamental_div_mod(n, d);
    let k = n / d;
    assert(k > 0) by (nonlinear_arith)
        requires n == d * k, n > 0, d > 0;
    lemma_mod_mod(x, d, k);
    lemma_mod_mod(y, d, k);
}

/// Two numbers with the same residue differ by a multiple of the modulus.
proof fn lemma_same_residue_diff(x: int, y: int, m: int)
    requires
        m > 0,
    ensures
        (x % m == y % m) <==> ((x - y) % m == 0),
{
    lemma_fundamental_div_mod(x, m);
    lemma_fundamental_div_mod(y, m);
    lemma_mod_bound(x, m);
    lemma_mod_bound(y, m);
    let qx = x / m;
    let qy = y / m;
    assert(x - y == m * (qx - qy) + (x % m - y % m)) by (nonlinear_arith)
        requires x == m * qx + x % m, y == m * qy + y % m;
    lemma_mod_multiples_vanish(qx - qy, x % m - y % m, m);
    if (x - y) % m == 0 {
        let dd = x % m - y % m;
        if dd > 0 {
            lemma_small_mod(dd as nat, m as nat);
        } else if dd < 0 {
            lemma_mod_multiples_vanish(1, dd, m);
            lemma_small_mod((m + dd) as nat, m as nat);
        }
    } else {
        if x % m == y % m {
            assert(x % m - y % m == 0);
            lemma_mod_multiples_basic(qx - qy, m);
            assert(m * (qx - qy) == (qx - qy) * m) by (nonlinear_arith);
        }
    }
}

/// Bezout's identity for the gcd.
pub proof fn lemma_bezout(a: nat, b: nat) -> (st: (int, int))
    ensures
        a * st.0 + b * st.1 == spec_gcd(a, b),
    decreases b,
{
    if b == 0 {
        (1, 0)
    } else {
        let (s1, t1) = lemma_bezout(b, a % b);
        lemma_fundamental_div_mod(a as int, b as int);
        let q = (a / b) as int;
        let g = spec_gcd(a, b);
        assert(a * t1 + b * (s1 - q * t1) == g) by (nonlinear_arith)
            requires
                b * s1 + (a % b) * t1 == g,
                a == b * q + (a % b);
        (t1, s1 - q * t1)
    }
}

/// A common multiple of two positive numbers is a multiple of their lcm.
proof fn lemma_lcm_divides(a: nat, b: nat, z: int)
    requires
        a > 0,
        b > 0,
        z % (a as int) == 0,
        z % (b as int) == 0,
    ensures
        spec_lcm(a, b) > 0,
        z % (spec_lcm(a, b) as int) == 0,
{
    let g = spec_gcd(a, b);
    let l = spec_lcm(a, b);
    lemma_gcd_positive(a, b);
    lemma_lcm_properties(a, b);
    let (s, t) = lemma_bezout(a, b);
    lemma_fundamental_div_mod(z, a as int);
    lemma_fundamental_div_mod(z, b as int);
    let p = z / (a as int);
    let q = z / (b as int);
    let w = q * s + p * t;
    assert(l > 0) by (nonlinear_arith)
        requires l * g == a * b, a > 0, b > 0, g > 0;
    assert(z * g == z * a * s + z * b * t) by (nonlinear_arith)
        requires a * s + b * t == g;
    assert(z * a * s == (a * b) * (q * s)) by (nonlinear_arith)
        requires z == b * q;
    assert(z * b * t == (a * b) * (p * t)) by (nonlinear_arith)
        requires z == a * p;
    assert(z * g == (a * b) * w) by (nonlinear_arith)
        requires
            z * g == z * a * s + z * b * t,
            z * a * s == (a * b) * (q * s),
            z * b * t == (a * b) * (p * t),
            w == q * s + p * t;
    assert(z * g == g * (l * w)) by (nonlinear_arith)
        requires z * g == (a * b) * w, l * g == a * b;
    assert(z == l * w) by (nonlinear_arith)
        requires z * g == g * (l * w), g > 0;
    lemma_mod_multiples_basic(w, l as int);
    assert(l * w == w * l) by (nonlinear_arith);
}

/// A divisor of `n`, as the remainder being zero.
proof fn lemma_divides_rem(d: nat, n: nat)
    requires
        d > 0,
        divides(d, n),
    ensures
        (n as int) % (d as int) == 0,
{
    lemma_divides_mod(d, n);
}

proof fn lemma_residue_step(x: int, m: int, k: int)
    requires
        m > 0,
    ensures
        (m * k + x) % m == x % m,
{
    lemma_mod_multiples_vanish(k, x, m);
}

/// The Chinese remainder theorem: the solution of `x == remainders[i]
/// (mod |moduli[i]|)` for every `i`, found by merging the congruences two at
/// a time (the moduli need not be coprime). Empty input, a length mismatch, a
/// zero modulus and an incompatible system are domain errors. The solution
/// is the least non-negative one, below the lcm of the magnitudes of the moduli.
pub fn crt(remainders: &[BigInt], moduli: &[BigInt]) -> (r: Result<BigInt, CalcError>)
    ensures
        r matches Err(e) ==> e.kind == ErrorKind::Domain,
        r is Ok <==> (crt_well_posed(big_values(remainders@), big_values(moduli@))
            && exists|x: int| solves_prefix(x, big_values(remainders@), big_values(moduli@), remainders@.len())),
        r matches Ok(x) ==> {
            let rs = big_values(remainders@);
            let ms = big_values(moduli@);
            let l = lcm_prefix(ms, rs.len()) as int;
            &&& solves_prefix(x@, rs, ms, rs.len())
            &&& 0 <= x@ < l
            &&& forall|y: int| 0 <= y && #[trigger] solves_prefix(y, rs, ms, rs.len()) ==> x@ <= y
        },
{
    let ghost rs = big_values(remainders@);
    let ghost ms = big_values(moduli@);
    if remainders.len() == 0 || moduli.len() == 0 {
        return Err(CalcError::domain(owned("crt(): empty input")));
    }
    if remainders.len() != moduli.len() {
        return Err(CalcError::domain(owned("crt(): remainders and moduli length mismatch")));
    }
    let n = remainders.len();
    let mut k: usize = 0;
    while k < n
        invariant
            n == moduli@.len(),
            ms == big_values(moduli@),
            k <= n,
            forall|j: int| 0 <= j < k ==> ms[j] != 0,
        decreases n - k,
    {
        if moduli[k].is_zero() {
            proof {
                assert(ms[k as int] == moduli@[k as int]@);
            }
            return Err(CalcError::domain(owned("crt(): zero modulus")));
        }
        proof {
            assert(ms[k as int] == moduli@[k as int]@);
        }
        k = k + 1;
    }
    proof {
        assert(ms[0] == moduli@[0]@);
    }
    let m0 = &moduli[0];
    let mut cur_m = m0.abs();
    let t0 = remainders[0].rem_trunc(&cur_m);
    let t0m = t0.plus(&cur_m);
    let mut cur_r = t0m.rem_trunc(&cur_m);
    proof {
        let a0 = abs_int(ms[0]) as int;
        assert(cur_m@ == a0);
        lemma_trunc_rem_congruent(rs[0], a0);
        lemma_trunc_rem_congruent(t0@, a0);
        lemma_trunc_rem_congruent(t0m@, a0);
        lemma_residue_step(t0@, a0, 1);
        lemma_trunc_rem_shape(rs[0], a0);
        lemma_trunc_rem_shape(t0m@, a0);
        assert(abs_int(a0) == a0);
        assert(cur_r@ % a0 == rs[0] % a0);
        assert forall|x: int| #[trigger] solves_prefix(x, rs, ms, 1) <==> x % cur_m@ == cur_r@ % cur_m@ by {
            if x % cur_m@ == cur_r@ % cur_m@ {
                assert forall|j: int| 0 <= j < 1 implies #[trigger] (x % (abs_int(ms[j]) as int)) == rs[j] % (abs_int(ms[j]) as int) by {
                    assert(j == 0);
                }
            }
            if solves_prefix(x, rs, ms, 1) {
                assert(x % (abs_int(ms[0]) as int) == rs[0] % (abs_int(ms[0]) as int));
            }
        }
    }
    let mut i: usize = 1;
    while i < n
        invariant
            n == remainders@.len(),
            n == moduli@.len(),
            rs == big_values(remainders@),
            ms == big_values(moduli@),
            1 <= i <= n,
            forall|j: int| 0 <= j < n ==> ms[j] != 0,
            cur_m@ == lcm_prefix(ms, i as nat) as int,
            cur_m@ > 0,
            -cur_m@ < cur_r@ < cur_m@,
            0 <= cur_r@,
            forall|x: int| #[trigger] solves_prefix(x, rs, ms, i as nat) <==> x % cur_m@ == cur_r@ % cur_m@,
        decreases n - i,
    {
        let mi_raw = &moduli[i];
        proof {
            assert(ms[i as int] == mi_raw@);
        }
        let ti = remainders[i].rem_trunc(mi_raw);
        let tim = ti.plus(mi_raw);
        let r_i = tim.rem_trunc(mi_raw);
        let m_i = mi_raw.abs();
        let ghost cm = cur_m@;
        let ghost cr = cur_r@;
        let ghost mi = m_i@;
        proof {
            assert(ms[i as int] == mi_raw@);
            assert(rs[i as int] == remainders@[i as int]@);
            lemma_trunc_rem_congruent(rs[i as int], ms[i as int]);
            lemma_trunc_rem_congruent(ti@, ms[i as int]);
            lemma_trunc_rem_congruent(tim@, ms[i as int]);
            if ms[i as int] > 0 {
                lemma_residue_step(ti@, mi, 1);
            } else {
                lemma_residue_step(ti@, mi, -1);
            }
            assert(r_i@ % mi == rs[i as int] % mi);
        }
        let (g, s, _t) = extended_gcd(&cur_m, &m_i);
        let ghost gg = g@;
        proof {
            lemma_gcd_positive(cm as nat, mi as nat);
            lemma_gcd_divides(cm as nat, mi as nat);
            lemma_divides_rem(gg as nat, cm as nat);
            lemma_divides_rem(gg as nat, mi as nat);
        }
        let diff = r_i.minus(&cur_r);
        let dr = diff.rem_trunc(&g);
        proof {
            lemma_trunc_rem_congruent(diff@, gg);
        }
        if !dr.is_zero() {
            proof {
                assert forall|x: int| !#[trigger] solves_prefix(x, rs, ms, n as nat) by {
                    if solves_prefix(x, rs, ms, n as nat) {
                        assert forall|j: int| 0 <= j < i implies #[trigger] (x % (abs_int(ms[j]) as int)) == rs[j] % (abs_int(ms[j]) as int) by {
                            assert(x % (abs_int(ms[j]) as int) == rs[j] % (abs_int(ms[j]) as int));
                        }
                        assert(solves_prefix(x, rs, ms, i as nat));
                        assert(x % (abs_int(ms[i as int]) as int) == rs[i as int] % (abs_int(ms[i as int]) as int));
                        lemma_congruent_divisor(x, cr, cm, gg);
                        lemma_congruent_divisor(x, r_i@, mi, gg);
                        lemma_same_residue_diff(r_i@, cr, gg);
                    }
                }
            }
            let mut msg = owned("crt(): incompatible congruences at index ");
            push_u64(&mut msg, i as u64);
            push_str(&mut msg, " (gcd=");
            push_str(&mut msg, &g.to_decimal_string());
            push_str(&mut msg, " does not divide diff=");
            push_str(&mut msg, &diff.to_decimal_string());
            push_str(&mut msg, ")");
            return Err(CalcError::domain(msg));
        }
        let a1 = cur_m.div_trunc(&g);
        let lcm = a1.times(&m_i);
        let kq = diff.div_trunc(&g);
        let ks = kq.times(&s);
        let step = ks.rem_trunc(&m_i);
        let cs = cur_m.times(&step);
        let v = cur_r.plus(&cs);
        let ghost ll = lcm@;
        proof {
            // the merged modulus is the lcm, a multiple of both moduli
            lemma_trunc_nonneg(cm, gg);
            lemma_fundamental_div_mod(cm, gg);
            lemma_fundamental_div_mod(mi, gg);
            let b1 = mi / gg;
            assert(a1@ > 0) by (nonlinear_arith)
                requires cm == gg * a1@, cm > 0, gg > 0;
            assert(ll == spec_lcm(cm as nat, mi as nat));
            assert(ll > 0) by (nonlinear_arith)
                requires ll == a1@ * mi, a1@ > 0, mi > 0;
            assert(ll == cm * b1) by (nonlinear_arith)
                requires ll == a1@ * mi, cm == gg * a1@, mi == gg * b1;
            lemma_mod_multiples_basic(b1, cm);
            assert(ll % cm == 0) by (nonlinear_arith)
                requires ll == cm * b1, (b1 * cm) % cm == 0;
            lemma_mod_multiples_basic(a1@, mi);
            // the step makes the merged value congruent to r_i modulo m_i
            assert(diff@ == gg * kq@);
            lemma_trunc_rem_congruent(ks@, mi);
            lemma_mul_mod_noop_right(cm, step@, mi);
            lemma_mul_mod_noop_right(cm, ks@, mi);
            lemma_add_mod_noop_right(cr, cm * step@, mi);
            lemma_add_mod_noop_right(cr, cm * ks@, mi);
            assert(cr + cm * ks@ == mi * (-(kq@ * _t@)) + r_i@) by (nonlinear_arith)
                requires
                    cm * s@ + mi * _t@ == gg,
                    diff@ == gg * kq@,
                    diff@ == r_i@ - cr,
                    ks@ == kq@ * s@;
            lemma_mod_multiples_vanish(-(kq@ * _t@), r_i@, mi);
            assert(v@ % mi == r_i@ % mi);
            // and congruent to cur_r modulo cur_m
            lemma_mod_multiples_vanish(step@, cr, cm);
            assert(v@ % cm == cr % cm);
        }
        let v1 = v.rem_trunc(&lcm);
        let v2 = v1.plus(&lcm);
        let new_r = v2.rem_trunc(&lcm);
        proof {
            lemma_normalize_residue(v@, ll);
            lemma_mod_bound(v@, ll);
            let nr = new_r@;
            assert(nr == v@ % ll);
            lemma_small_mod(nr as nat, ll as nat);
            lemma_mod_multiples_basic(a1@, mi);
            assert(ll % mi == 0);
            lemma_congruent_divisor(nr, v@, ll, cm);
            lemma_congruent_divisor(nr, v@, ll, mi);
            assert forall|x: int| #[trigger] solves_prefix(x, rs, ms, (i + 1) as nat) <==> x % ll == nr % ll by {
                if x % ll == nr % ll {
                    lemma_congruent_divisor(x, nr, ll, cm);
                    lemma_congruent_divisor(x, nr, ll, mi);
                    assert(solves_prefix(x, rs, ms, i as nat));
                    assert forall|j: int| 0 <= j < i + 1 implies #[trigger] (x % (abs_int(ms[j]) as int)) == rs[j] % (abs_int(ms[j]) as int) by {
                        if j < i {
                            assert(x % (abs_int(ms[j]) as int) == rs[j] % (abs_int(ms[j]) as int));
                        }
                    }
                }
                if solves_prefix(x, rs, ms, (i + 1) as nat) {
                    assert forall|j: int| 0 <= j < i implies #[trigger] (x % (abs_int(ms[j]) as int)) == rs[j] % (abs_int(ms[j]) as int) by {
                        assert(x % (abs_int(ms[j]) as int) == rs[j] % (abs_int(ms[j]) as int));
                    }
                    assert(solves_prefix(x, rs, ms, i as nat));
                    assert(x % cm == cr % cm);
                    assert(x % (abs_int(ms[i as int]) as int) == rs[i as int] % (abs_int(ms[i as int]) as int));
                    lemma_same_residue_diff(x, nr, cm);
                    lemma_same_residue_diff(x, nr, mi);
                    lemma_lcm_divides(cm as nat, mi as nat, x - nr);
                    lemma_same_residue_diff(x, nr, ll);
                }
            }
            assert(lcm_prefix(ms, (i + 1) as nat) == spec_lcm(lcm_prefix(ms, i as nat), abs_int(ms[i as int])));
        }
        cur_r = new_r;
        cur_m = lcm;
        i = i + 1;
    }
    proof {
        assert(solves_prefix(cur_r@, rs, ms, n as nat));
        {
            assert forall|y: int| 0 <= y && #[trigger] solves_prefix(y, rs, ms, n as nat) implies cur_r@ <= y by {
                let l = cur_m@;
                lemma_fundamental_div_mod(y, l);
                lemma_mod_bound(y, l);
                lemma_small_mod(cur_r@ as nat, l as nat);
                assert(y % l == cur_r@);
                assert(y / l >= 0) by {
                    lemma_div_pos_is_pos(y, l);
                }
                assert(l * (y / l) >= 0) by (nonlinear_arith)
                    requires y / l >= 0, l > 0;
            }
        }
    }
    Ok(cur_r)
}


// ===================== primality =====================

/// The twelve fixed Miller-Rabin bases, the first twelve primes.
pub open spec fn spec_mr_base(i: nat) -> nat {
    if i == 0 { 2 } else if i == 1 { 3 } else if i == 2 { 5 } else if i == 3 { 7 }
    else if i == 4 { 11 } else if i == 5 { 13 } else if i == 6 { 17 } else if i == 7 { 19 }
    else if i == 8 { 23 } else if i == 9 { 29 } else if i == 10 { 31 } else { 37 }
}

/// The thirteen extra bases tried for values above `u64::MAX`: the `j`-th
/// fixed base (cyclically) plus `1000 j`.
pub open spec fn extra_base(j: nat) -> nat {
    spec_mr_base(j % 12) + j * 1000
}

/// `m == d * 2^r` with `d` odd, as the halving loop finds it from `(m, r0)`
/// (the count stops at `u32::MAX`).
pub open spec fn split_twos(m: nat, r: nat) -> (nat, nat)
    decreases m,
{
    if m > 0 && m % 2 == 0 && r < u32::MAX {
        split_twos(m / 2, r + 1)
    } else {
        (m, r)
    }
}

/// Every fixed base below `n` passes the round for `n - 1 == d * 2^r`.
pub open spec fn fixed_bases_pass(n: nat, d: nat, r: nat) -> bool {
    forall|i: nat| i < 12 && spec_mr_base(i) < n ==> #[trigger] mr_round_passes(spec_mr_base(i), d, r, n)
}

/// Every extra base below `n` passes the round for `n - 1 == d * 2^r`.
pub open spec fn extra_bases_pass(n: nat, d: nat, r: nat) -> bool {
    forall|j: nat| j < 13 && extra_base(j) < n ==> #[trigger] mr_round_passes(extra_base(j), d, r, n)
}

/// The answer of the primality test: two is accepted; values below two and
/// even values are rejected; an odd `n > 2` is accepted exactly when every
/// fixed base below `n` passes the Miller-Rabin round, and, above `u64::MAX`,
/// every extra base below `n` does too.
pub open spec fn miller_rabin_accepts(n: int) -> bool {
    if n < 2 {
        false
    } else if n == 2 {
        true
    } else if n % 2 == 0 {
        false
    } else {
        let (d, r) = split_twos((n - 1) as nat, 0);
        fixed_bases_pass(n as nat, d, r) && (n > u64::MAX ==> extra_bases_pass(n as nat, d, r))
    }
}

fn mr_base(i: usize) -> (r: u64)
    requires
        i < 12,
    ensures
        2 <= r <= 37,
        r == spec_mr_base(i as nat),
{
    match i {
        0 => 2,
        1 => 3,
        2 => 5,
        3 => 7,
        4 => 11,
        5 => 13,
        6 => 17,
        7 => 19,
        8 => 23,
        9 => 29,
        10 => 31,
        _ => 37,
    }
}

/// `spec_pow` is vstd's `pow` on natural numbers.
proof fn lemma_spec_pow_is_pow(b: nat, e: nat)
    ensures
        spec_pow(b, e) == pow(b as int, e),
    decreases e,
{
    reveal(pow);
    if e > 0 {
        lemma_spec_pow_is_pow(b, (e - 1) as nat);
    }
}

/// An even number above two is not prime.
proof fn lemma_even_not_prime(n: nat)
    requires
        n > 2,
        n % 2 == 0,
    ensures
        !spec_is_prime(n),
{
    assert(2 <= 2 < n && (n % 2) == 0);
}

/// A base that passed every squaring step without meeting `n - 1`, and whose
/// `d`-th power is not one, shows that `n` is composite.
proof fn lemma_mr_composite(a: nat, d: nat, r: nat, n: nat, rounds: nat)
    requires
        2 <= a < n,
        d * pow2(r) == n - 1,
        rounds == (if r > 0 { (r - 1) as nat } else { 0 }),
        pow(a as int, d) % (n as int) != 1,
        forall|i: nat| i <= rounds ==> #[trigger] (pow(a as int, d * pow2(i)) % (n as int)) != n - 1,
    ensures
        !spec_is_prime(n),
{
    if spec_is_prime(n) {
        lemma_small_mod(a, n);
        lemma_miller_rabin(a, d, r, n);
        if exists|k: nat| k < r && #[trigger] (pow(a as int, d * pow2(k)) % (n as int)) == n - 1 {
            let k = choose|k: nat| k < r && #[trigger] (pow(a as int, d * pow2(k)) % (n as int)) == n - 1;
            assert(k <= rounds);
        } else {
            lemma_pow2_0();
            assert(d * pow2(0) == d);
        }
    }
}

proof fn lemma_pow2_0()
    ensures
        pow2(0) == 1,
{
    lemma2_to64();
}

/// Miller-Rabin with the twelve fixed bases, for machine integers. It never
/// rejects a prime.
fn is_prime_u64(n: u64) -> (r: bool)
    ensures
        n < 2 ==> !r,
        n == 2 ==> r,
        n > 2 && n % 2 == 0 ==> !r,
        spec_is_prime(n as nat) ==> r,
        r == miller_rabin_accepts(n as int),
{
    if n < 2 {
        return false;
    }
    if n == 2 {
        return true;
    }
    if n % 2 == 0 {
        proof {
            lemma_even_not_prime(n as nat);
        }
        return false;
    }
    let mut d: u64 = n - 1;
    let mut r: u32 = 0;
    proof {
        lemma2_to64();
        lemma2_to64_rest();
    }
    while d % 2 == 0
        invariant
            d >= 1,
            r <= 63,
            pow2(r as nat) * (d as nat) == (n - 1) as nat,
            n > 2,
            pow2(64) == 0x1_0000_0000_0000_0000,
            split_twos(d as nat, r as nat) == split_twos((n - 1) as nat, 0),
        decreases d,
    {
        proof {
            lemma_pow2_unfold((r + 1) as nat);
            assert(pow2((r + 1) as nat) * ((d / 2) as nat) == (n - 1) as nat) by (nonlinear_arith)
                requires
                    pow2(r as nat) * (d as nat) == (n - 1) as nat,
                    pow2((r + 1) as nat) == 2 * pow2(r as nat),
                    d % 2 == 0;
            assert(pow2((r + 1) as nat) <= (n - 1) as nat) by (nonlinear_arith)
                requires pow2((r + 1) as nat) * ((d / 2) as nat) == (n - 1) as nat, d / 2 >= 1;
            if r + 1 > 64 {
                lemma_pow2_strictly_increases(64, (r + 1) as nat);
            } else if r + 1 == 64 {
                assert(pow2((r + 1) as nat) == pow2(64));
            }
            assert(r + 1 <= 63);
        }
        d = d / 2;
        r = r + 1;
    }
    proof {
        lemma_mul_is_commutative(pow2(r as nat) as int, d as int);
        assert(split_twos(d as nat, r as nat) == (d as nat, r as nat));
    }
    let mut i: usize = 0;
    while i < 12
        invariant
            n > 2,
            n % 2 == 1,
            i <= 12,
            d >= 1,
            r <= 63,
            (d as nat) * pow2(r as nat) == (n - 1) as nat,
            split_twos((n - 1) as nat, 0) == (d as nat, r as nat),
            forall|i2: nat| i2 < i && spec_mr_base(i2) < n ==> #[trigger] mr_round_passes(spec_mr_base(i2), d as nat, r as nat, n as nat),
        decreases 12 - i,
    {
        let a = mr_base(i);
        if a < n {
            if !mr_round_u64(a, d, r, n) {
                proof {
                    assert(!mr_round_passes(spec_mr_base(i as nat), d as nat, r as nat, n as nat));
                    assert(!fixed_bases_pass(n as nat, d as nat, r as nat));
                    lemma_mr_composite(a as nat, d as nat, r as nat, n as nat, mr_rounds(r as nat));
                }
                return false;
            }
        }
        i = i + 1;
    }
    proof {
        assert(fixed_bases_pass(n as nat, d as nat, r as nat));
    }
    true
}

/// One Miller-Rabin round on machine integers: whether base `a` passes for
/// `n - 1 == d * 2^r`.
fn mr_round_u64(a: u64, d: u64, r: u32, n: u64) -> (res: bool)
    requires
        n > 2,
        2 <= a < n,
        d >= 1,
        (d as nat) * pow2(r as nat) == (n - 1) as nat,
    ensures
        res == mr_round_passes(a as nat, d as nat, r as nat, n as nat),
{
    let ghost ga = a as nat;
    let ghost gd = d as nat;
    let ghost gn = n as nat;
    let mut x = mod_pow_u64(a, d, n);
    proof {
        lemma_spec_pow_is_pow(ga, gd);
        lemma_pow2_0();
        assert(gd * pow2(0) == gd);
    }
    if x == 1 || x == n - 1 {
        proof {
            if x != 1 {
                assert(pow(ga as int, gd * pow2(0)) % (gn as int) == gn - 1);
            }
        }
        return true;
    }
    let n128: u128 = n as u128;
    let rounds: u32 = if r > 0 { r - 1 } else { 0 };
    let mut k: u32 = 0;
    while k < rounds
        invariant
            n128 == n as u128,
            n > 2,
            x < n,
            k <= rounds,
            gn == n,
            ga == a,
            gd == d,
            rounds == mr_rounds(r as nat),
            x as int == pow(ga as int, gd * pow2(k as nat)) % (gn as int),
            forall|j: nat| j <= k ==> #[trigger] (pow(ga as int, gd * pow2(j)) % (gn as int)) != gn - 1,
        decreases rounds - k,
    {
        proof {
            assert((x as u128) * (x as u128) <= u128::MAX) by (nonlinear_arith)
                requires x < n, n <= u64::MAX;
            lemma_square_step(ga as int, gd, k as nat, gn as int);
        }
        x = (((x as u128) * (x as u128)) % n128) as u64;
        if x == n - 1 {
            proof {
                assert(pow(ga as int, gd * pow2((k + 1) as nat)) % (gn as int) == gn - 1);
            }
            return true;
        }
        k = k + 1;
    }
    false
}

/// The number of squarings in a Miller-Rabin round for `n - 1 == d * 2^r`.
pub open spec fn mr_rounds(r: nat) -> nat {
    if r > 0 { (r - 1) as nat } else { 0 }
}

/// Base `a` passes the Miller-Rabin round for `n - 1 == d * 2^r`: modulo `n`,
/// `a^d` is one, or `a^(d 2^k)` is `n - 1` for some `k` from zero to
/// `mr_rounds(r)`.
pub open spec fn mr_round_passes(a: nat, d: nat, r: nat, n: nat) -> bool {
    ||| pow(a as int, d) % (n as int) == 1
    ||| exists|k: nat| k <= mr_rounds(r) && #[trigger] (pow(a as int, d * pow2(k)) % (n as int)) == n - 1
}

/// One Miller-Rabin round with base `a` for `n - 1 == d * 2^r`: whether `a`
/// fails to witness that `n` is composite. A prime always passes.
fn miller_rabin_witness(a: &BigInt, d: &BigInt, r: u32, n_minus_1: &BigInt, n: &BigInt) -> (res: bool)
    requires
        n@ > 2,
        d@ >= 1,
        2 <= a@ < n@,
        d@ * pow2(r as nat) == n@ - 1,
        n_minus_1@ == n@ - 1,
    ensures
        res == mr_round_passes(a@ as nat, d@ as nat, r as nat, n@ as nat),
        spec_is_prime(n@ as nat) ==> res,
{
    let ghost ga = a@ as nat;
    let ghost gd = d@ as nat;
    let ghost gn = n@ as nat;
    let one = BigInt::one();
    let mut x = mod_pow_bigint(a, d, n);
    proof {
        lemma_mod_bound(pow(a@, gd), n@);
    }
    proof {
        lemma_pow2_0();
        assert(gd * pow2(0) == gd);
    }
    if x.equals(&one) || x.equals(n_minus_1) {
        proof {
            if x@ != 1 {
                assert(pow(ga as int, gd * pow2(0)) % (gn as int) == gn - 1);
            }
        }
        return true;
    }
    let rounds: u32 = if r > 0 { r - 1 } else { 0 };
    let mut k: u32 = 0;
    while k < rounds
        invariant
            n@ > 2,
            gn == n@,
            ga == a@,
            gd == d@,
            rounds == mr_rounds(r as nat),
            n_minus_1@ == n@ - 1,
            k <= rounds,
            0 <= x@ < n@,
            x@ == pow(ga as int, gd * pow2(k as nat)) % (gn as int),
            forall|j: nat| j <= k ==> #[trigger] (pow(ga as int, gd * pow2(j)) % (gn as int)) != gn - 1,
        decreases rounds - k,
    {
        let sq = x.times(&x);
        proof {
            lemma_mul_nonnegative(x@, x@);
            lemma_trunc_nonneg(sq@, n@);
            lemma_mod_bound(sq@, n@);
            lemma_square_step(ga as int, gd, k as nat, gn as int);
        }
        x = sq.rem_trunc(n);
        if x.equals(n_minus_1) {
            proof {
                assert(pow(ga as int, gd * pow2((k + 1) as nat)) % (gn as int) == gn - 1);
            }
            return true;
        }
        k = k + 1;
    }
    proof {
        assert(gd * pow2(r as nat) == gn - 1);
        lemma_mr_composite(ga, gd, r as nat, gn, rounds as nat);
    }
    false
}

/// Miller-Rabin for integers of any size: the twelve fixed bases, then
/// thirteen more rounds with shifted bases. Values that fit in a `u64` take
/// the machine-integer path. A prime is never rejected.
fn is_prime_bigint(n: &BigInt) -> (res: bool)
    ensures
        n@ < 2 ==> !res,
        n@ == 2 ==> res,
        n@ > 2 && n@ % 2 == 0 ==> !res,
        n@ >= 0 && spec_is_prime(n@ as nat) ==> res,
        res == miller_rabin_accepts(n@),
{
    let two = BigInt::from_u64(2);
    if n.less_than(&two) {
        return false;
    }
    if n.equals(&two) {
        return true;
    }
    if !n.is_odd() {
        proof {
            lemma_even_not_prime(n@ as nat);
        }
        return false;
    }
    if let Some(n_u64) = n.to_u64() {
        return is_prime_u64(n_u64);
    }
    let one = BigInt::one();
    let n_minus_1 = n.minus(&one);
    let mut d = n_minus_1.clone();
    let mut r: u32 = 0;
    proof {
        lemma_pow2_0();
    }
    // `r` counts the factors two of `n - 1`; it stays far below `u32::MAX`
    // for every value that fits in memory, and the bound keeps the count safe.
    while !d.is_odd() && r < u32::MAX
        invariant
            d@ > 0,
            two@ == 2,
            d@ * pow2(r as nat) == n@ - 1,
            split_twos(d@ as nat, r as nat) == split_twos((n@ - 1) as nat, 0),
        decreases d@,
    {
        proof {
            lemma_trunc_nonneg(d@, 2);
            lemma_fundamental_div_mod(d@, 2);
            lemma_pow2_unfold((r + 1) as nat);
            assert((d@ / 2) * pow2((r + 1) as nat) == n@ - 1) by (nonlinear_arith)
                requires
                    d@ * pow2(r as nat) == n@ - 1,
                    pow2((r + 1) as nat) == 2 * pow2(r as nat),
                    d@ == 2 * (d@ / 2) + d@ % 2,
                    d@ % 2 == 0;
        }
        d = d.div_trunc(&two);
        r = r + 1;
    }
    proof {
        assert(split_twos(d@ as nat, r as nat) == (d@ as nat, r as nat));
        assert(n@ > u64::MAX);
        assert(n@ % 2 == 1);
    }
    let ghost gd = d@ as nat;
    let ghost gn = n@ as nat;
    let mut i: usize = 0;
    while i < 12
        invariant
            n@ > 2,
            n@ > u64::MAX,
            n@ % 2 == 1,
            split_twos((n@ - 1) as nat, 0) == (gd, r as nat),
            gd == d@,
            gn == n@,
            d@ > 0,
            d@ * pow2(r as nat) == n@ - 1,
            n_minus_1@ == n@ - 1,
            i <= 12,
            forall|i2: nat| i2 < i && spec_mr_base(i2) < gn ==> #[trigger] mr_round_passes(spec_mr_base(i2), gd, r as nat, gn),
        decreases 12 - i,
    {
        let a = BigInt::from_u64(mr_base(i));
        if a.less_than(n) {
            if !miller_rabin_witness(&a, &d, r, &n_minus_1, n) {
                proof {
                    assert(!mr_round_passes(spec_mr_base(i as nat), gd, r as nat, gn));
                    assert(!fixed_bases_pass(gn, gd, r as nat));
                }
                return false;
            }
        }
        i = i + 1;
    }
    proof {
        assert(fixed_bases_pass(gn, gd, r as nat));
    }
    let mut j: u64 = 0;
    while j < 13
        invariant
            n@ > 2,
            d@ > 0,
            d@ * pow2(r as nat) == n@ - 1,
            n_minus_1@ == n@ - 1,
            one@ == 1,
            j <= 13,
            n@ > u64::MAX,
            n@ % 2 == 1,
            split_twos((n@ - 1) as nat, 0) == (gd, r as nat),
            gd == d@,
            gn == n@,
            fixed_bases_pass(gn, gd, r as nat),
            forall|j2: nat| j2 < j && extra_base(j2) < gn ==> #[trigger] mr_round_passes(extra_base(j2), gd, r as nat, gn),
        decreases 13 - j,
    {
        let a = BigInt::from_u64(mr_base((j % 12) as usize) + j * 1000);
        proof {
            assert(a@ == extra_base(j as nat));
            assert(a@ >= 2);
        }
        if a.less_than(n) && !a.is_zero() && !a.equals(&one) {
            if !miller_rabin_witness(&a, &d, r, &n_minus_1, n) {
                proof {
                    assert(!mr_round_passes(extra_base(j as nat), gd, r as nat, gn));
                    assert(!extra_bases_pass(gn, gd, r as nat));
                }
                return false;
            }
        }
        j = j + 1;
    }
    proof {
        assert(extra_bases_pass(gn, gd, r as nat));
    }
    true
}

/// Primality by the Miller-Rabin test: below two nothing is prime, two is,
/// and no other even number is. Odd values are decided by the test rounds,
/// which never reject a prime.
pub fn is_prime(n: &BigInt) -> (r: bool)
    ensures
        n@ < 2 ==> !r,
        n@ == 2 ==> r,
        n@ > 2 && n@ % 2 == 0 ==> !r,
        n@ >= 0 && spec_is_prime(n@ as nat) ==> r,
        r && n@ < 41 * 41 ==> spec_is_prime(n@ as nat),
        r == miller_rabin_accepts(n@),
{
    let r = is_prime_bigint(n);
    proof {
        if r && n@ < 41 * 41 {
            lemma_accepts_only_primes_below_41_squared(n@);
        }
    }
    r
}


/// A power with a positive exponent is a multiple of its base.
proof fn lemma_pow_multiple_of_base(a: nat, e: nat)
    requires
        a >= 2,
        e >= 1,
    ensures
        pow(a as int, e) % (a as int) == 0,
{
    reveal(pow);
    lemma_mod_multiples_basic(pow(a as int, (e - 1) as nat), a as int);
    lemma_mul_is_commutative(a as int, pow(a as int, (e - 1) as nat));
}

/// A base that divides `n` never passes the Miller-Rabin round for `n`: its
/// powers stay multiples of it modulo `n`, while `1` and `n - 1` are not.
proof fn lemma_dividing_base_fails(a: nat, d: nat, r: nat, n: nat)
    requires
        2 <= a < n,
        n % a == 0,
        d >= 1,
    ensures
        !mr_round_passes(a, d, r, n),
{
    lemma_fundamental_div_mod(n as int, a as int);
    let b = n / a;
    assert(n == a * b);
    assert(b > 0) by (nonlinear_arith)
        requires n == a * b, n > 0, a >= 2;
    assert forall|e: nat| e >= 1 implies #[trigger] (pow(a as int, e) % (n as int)) % (a as int) == 0 by {
        lemma_pow_multiple_of_base(a, e);
        lemma_mod_mod(pow(a as int, e), a as int, b as int);
    }
    assert((1int) % (a as int) == 1) by {
        lemma_small_mod(1, a);
    }
    assert(((n - 1) as int) % (a as int) == a - 1) by {
        lemma_mod_multiples_vanish(b as int - 1, a - 1, a as int);
        lemma_small_mod((a - 1) as nat, a);
        assert((a as int) * (b - 1) + (a - 1) == n - 1) by (nonlinear_arith)
            requires n == a * b;
        lemma_mul_is_commutative(a as int, b as int - 1);
    }
    if pow(a as int, d) % (n as int) == 1 {
        assert((pow(a as int, d) % (n as int)) % (a as int) == 0);
    }
    if exists|k: nat| k <= mr_rounds(r) && #[trigger] (pow(a as int, d * pow2(k)) % (n as int)) == n - 1 {
        let k = choose|k: nat| k <= mr_rounds(r) && #[trigger] (pow(a as int, d * pow2(k)) % (n as int)) == n - 1;
        lemma_pow2_pos(k);
        assert(d * pow2(k) >= 1) by (nonlinear_arith)
            requires d >= 1, pow2(k) > 0;
        assert((pow(a as int, d * pow2(k)) % (n as int)) % (a as int) == 0);
    }
}

/// The odd part of a positive number is positive.
proof fn lemma_split_twos_positive(m: nat, r: nat)
    requires
        m > 0,
    ensures
        split_twos(m, r).0 >= 1,
    decreases m,
{
    if m > 0 && m % 2 == 0 && r < u32::MAX {
        lemma_split_twos_positive(m / 2, r + 1);
    }
}

/// One of the twelve bases divides every number from 2 to 40.
proof fn lemma_base_divides_small(q: nat) -> (i: nat)
    requires
        2 <= q <= 40,
    ensures
        i < 12,
        spec_mr_base(i) <= q,
        q % spec_mr_base(i) == 0,
{
    if q % 2 == 0 { 0 }
    else if q % 3 == 0 { 1 }
    else if q % 5 == 0 { 2 }
    else if q % 7 == 0 { 3 }
    else if q == 11 { 4 }
    else if q == 13 { 5 }
    else if q == 17 { 6 }
    else if q == 19 { 7 }
    else if q == 23 { 8 }
    else if q == 29 { 9 }
    else if q == 31 { 10 }
    else {
        assert(q == 37);
        11
    }
}

/// Nothing the primality test accepts has a divisor from 2 to 40 other than
/// itself: such a divisor has one of the twelve bases as a factor, and a base
/// that divides the number fails its round.
pub proof fn lemma_accepted_has_no_small_divisor(n: int, q: nat)
    requires
        miller_rabin_accepts(n),
        2 <= q <= 40,
        q < n,
    ensures
        n % (q as int) != 0,
{
    if n % (q as int) == 0 {
        assert(n > 2);
        assert(n % 2 == 1);
        let (d, r) = split_twos((n - 1) as nat, 0);
        lemma_split_twos_positive((n - 1) as nat, 0);
        let i = lemma_base_divides_small(q);
        let a = spec_mr_base(i);
        lemma_mod_zero_transitive(n as nat, q, a);
        assert(fixed_bases_pass(n as nat, d, r));
        assert(mr_round_passes(spec_mr_base(i), d, r, n as nat));
        lemma_dividing_base_fails(a, d, r, n as nat);
    }
}

/// Below 41 squared the test accepts only primes: a composite that small
/// has a divisor of at most 40, which the test never lets through.
pub proof fn lemma_accepts_only_primes_below_41_squared(n: int)
    requires
        miller_rabin_accepts(n),
        n < 41 * 41,
    ensures
        spec_is_prime(n as nat),
{
    assert(n >= 2);
    let k = n as nat;
    assert forall|d: nat| 2 <= d < k implies #[trigger] (k % d) != 0 by {
        if k % d == 0 {
            lemma_fundamental_div_mod(k as int, d as int);
            let e = k / d;
            assert(k == d * e);
            assert(e >= 2) by (nonlinear_arith)
                requires k == d * e, d < k;
            lemma_mod_multiples_basic(d as int, e as int);
            lemma_mul_is_commutative(d as int, e as int);
            assert(k % e == 0);
            let s = if d <= e { d } else { e };
            assert(s * s <= k) by (nonlinear_arith)
                requires k == d * e, s == d || s == e, s <= d, s <= e;
            assert(s <= 40) by (nonlinear_arith)
                requires s * s <= k, k < 41 * 41, s >= 0;
            assert(s < k) by (nonlinear_arith)
                requires k == d * e, d >= 2, e >= 2, s == d || s == e;
            assert(k % s == 0);
            lemma_accepted_has_no_small_divisor(n, s);
        }
    }
}

// ===================== Euler's totient =====================

/// Euler's product over the prime divisors of `n >= 1`, by trial division:
/// each prime `p` found removes the fraction `1/p` from the running result.
fn euler_phi_impl(n: &BigInt) -> (r: BigInt)
    requires
        n@ >= 1,
    ensures
        r@ == spec_totient(n@ as nat),
        1 <= r@ <= n@,
{
    let one = BigInt::one();
    if n.equals(&one) {
        return BigInt::one();
    }
    let ghost nn: nat = n@ as nat;
    let mut result = n.clone();
    let mut m = n.clone();
    let mut p = BigInt::from_u64(2);
    loop
        invariant
            one@ == 1,
            nn == n@,
            n@ >= 2,
            1 <= m@ <= n@,
            2 <= p@ <= n@ + 1,
            1 <= result@ <= n@,
            nn % (m@ as nat) == 0,
            result@ == totient_below(nn, p@ as nat),
            forall|q: nat| 2 <= q < p@ && #[trigger] spec_is_prime(q) ==> (m@ as nat) % q != 0,
            forall|q: nat| p@ <= q && #[trigger] spec_is_prime(q) && nn % q == 0 ==> (m@ as nat) % q == 0,
        ensures
            m@ < p@ * p@,
        decreases (if m@ >= p@ { m@ - p@ } else { 0 }),
    {
        let pp = p.times(&p);
        if !pp.at_most(&m) {
            break;
        }
        proof {
            assert(p@ <= pp@) by (nonlinear_arith)
                requires pp@ == p@ * p@, p@ >= 2;
            assert(m@ - p@ >= 2) by (nonlinear_arith)
                requires pp@ == p@ * p@, p@ >= 2, pp@ <= m@;
        }
        let ghost m_start = m@;
        let ghost pn: nat = p@ as nat;
        let t = m.rem_trunc(&p);
        proof {
            lemma_trunc_nonneg(m@, p@);
        }
        if t.is_zero() {
            proof {
                // the smallest divisor left in m is prime
                if !spec_is_prime(pn) {
                    let q = lemma_prime_factor(pn);
                    lemma_mod_trans(m_start as nat, pn, q);
                    assert(false);
                }
                lemma_mod_trans(nn, m_start as nat, pn);
            }
            let ghost m0 = m@;
            loop
                invariant
                    p@ >= 2,
                    pn == p@,
                    1 <= m@ <= m0,
                    m0 == m_start,
                    (m0 as nat) % (m@ as nat) == 0,
                    forall|q: nat| p@ < q && #[trigger] spec_is_prime(q) && (m0 as nat) % q == 0
                        ==> (m@ as nat) % q == 0,
                ensures
                    1 <= m@ <= m0,
                    (m0 as nat) % (m@ as nat) == 0,
                    (m@ as nat) % pn != 0,
                    forall|q: nat| p@ < q && #[trigger] spec_is_prime(q) && (m0 as nat) % q == 0
                        ==> (m@ as nat) % q == 0,
                decreases m@,
            {
                let t2 = m.rem_trunc(&p);
                proof {
                    lemma_trunc_nonneg(m@, p@);
                }
                if !t2.is_zero() {
                    break;
                }
                let ghost m_prev = m@;
                proof {
                    lemma_fundamental_div_mod(m@, p@);
                    assert(m@ / p@ >= 1 && m@ / p@ < m@) by (nonlinear_arith)
                        requires m@ == p@ * (m@ / p@) + m@ % p@, m@ % p@ == 0, m@ >= 1, p@ >= 2;
                }
                m = m.div_trunc(&p);
                proof {
                    let mp = m_prev as nat;
                    let mn = m@ as nat;
                    assert(m@ == m_prev / p@);
                    assert(m_prev % p@ == 0);
                    assert(m_prev == p@ * m@);
                    assert(mp == mn * pn) by (nonlinear_arith)
                        requires m_prev == p@ * m@, pn == p@, mp == m_prev, mn == m@;
                    lemma_mod_multiples_basic(pn as int, mn as int);
                    assert(mp % mn == 0);
                    lemma_mod_trans(m0 as nat, mp, mn);
                    assert forall|q: nat| p@ < q && #[trigger] spec_is_prime(q) && (m0 as nat) % q == 0
                        implies (m@ as nat) % q == 0 by {
                        assert(mp % q == 0);
                        crate::modular::lemma_euclid(q, mn as int, pn as int);
                        lemma_small_mod(pn, q);
                    }
                }
            }
            proof {
                let mn = m@ as nat;
                let ms = m_start as nat;
                assert forall|q: nat| 2 <= q < p@ + 1 && #[trigger] spec_is_prime(q) implies mn % q != 0 by {
                    if q < pn && mn % q == 0 {
                        lemma_mod_trans(ms, mn, q);
                    }
                }
                lemma_mod_trans(nn, ms, mn);
            }
            proof {
                lemma_trunc_nonneg(result@, p@);
                lemma_fundamental_div_mod(result@, p@);
                lemma_mod_bound(result@, p@);
            }
            let q = result.div_trunc(&p);
            proof {
                assert(result@ - q@ >= 1) by (nonlinear_arith)
                    requires result@ == p@ * q@ + result@ % p@, 0 <= result@ % p@ < p@, p@ >= 2, result@ >= 1;
            }
            result = result.minus(&q);
        } else {
            proof {
                assert(!(spec_is_prime(pn) && nn % pn == 0));
            }
        }
        assert(m@ <= m_start);
        p = p.plus(&one);
    }
    let m_gt_one = one.less_than(&m);
    if m_gt_one {
        let ghost mn: nat = m@ as nat;
        let ghost pn: nat = p@ as nat;
        proof {
            lemma_prime_without_small_factor(mn, pn);
            if mn < pn {
                lemma_mod_self_0(mn as int);
                assert(mn % mn != 0);
            }
            assert forall|q: nat| pn <= q < mn && #[trigger] spec_is_prime(q) implies nn % q != 0 by {
                if nn % q == 0 {
                    assert(mn % q == 0);
                    lemma_prime_divisor(mn, q);
                }
            }
            lemma_totient_skip(nn, pn, mn);
            assert forall|q: nat| mn + 1 <= q < nn + 1 && #[trigger] spec_is_prime(q) implies nn % q != 0 by {
                if nn % q == 0 {
                    assert(mn % q == 0);
                    lemma_prime_divisor(mn, q);
                }
            }
            lemma_totient_skip(nn, mn + 1, nn + 1);
            lemma_trunc_nonneg(result@, m@);
            lemma_fundamental_div_mod(result@, m@);
            lemma_mod_bound(result@, m@);
        }
        let q = result.div_trunc(&m);
        proof {
            assert(result@ - q@ >= 1) by (nonlinear_arith)
                requires result@ == m@ * q@ + result@ % m@, 0 <= result@ % m@ < m@, m@ >= 2, result@ >= 1;
        }
        result = result.minus(&q);
    } else {
        proof {
            assert forall|q: nat| p@ <= q < nn + 1 && #[trigger] spec_is_prime(q) implies nn % q != 0 by {
                if nn % q == 0 {
                    assert((m@ as nat) % q == 0);
                    lemma_small_mod(1, q);
                }
            }
            lemma_totient_skip(nn, p@ as nat, nn + 1);
        }
    }
    result
}

/// Euler's totient of `|n|` by its product formula over the prime divisors;
/// zero for `n == 0`.
pub fn euler_phi(n: &BigInt) -> (r: BigInt)
    ensures
        n@ == 0 ==> r@ == 0,
        n@ != 0 ==> r@ == spec_totient(abs_int(n@) as nat),
        n@ != 0 ==> 1 <= r@ <= abs_int(n@),
{
    if n.is_zero() {
        return BigInt::zero();
    }
    euler_phi_impl(&n.abs())
}


// ===================== discrete logarithm =====================

/// One Newton step `(x + n / x) / 2` from any `x >= 1` lands at or above
/// the integer square root of `n`.
proof fn lemma_newton_above(n: int, x: int, q: int, y: int)
    requires
        x >= 1,
        n >= 0,
        q == n / x,
        y == (x + q) / 2,
    ensures
        (y + 1) * (y + 1) > n,
        y >= 0,
{
    lemma_fundamental_div_mod(n, x);
    lemma_mod_bound(n, x);
    lemma_div_pos_is_pos(n, x);
    assert(n < x * (q + 1)) by (nonlinear_arith)
        requires n == x * q + n % x, 0 <= n % x < x;
    lemma_fundamental_div_mod(x + q, 2);
    lemma_mod_bound(x + q, 2);
    assert(2 * (y + 1) >= x + q + 1 && y >= 0) by (nonlinear_arith)
        requires x + q == 2 * y + (x + q) % 2, 0 <= (x + q) % 2 < 2, x >= 1, q >= 0;
    assert((x + q + 1) * (x + q + 1) >= 4 * x * (q + 1)) by (nonlinear_arith);
    assert(4 * ((y + 1) * (y + 1)) >= (x + q + 1) * (x + q + 1)) by (nonlinear_arith)
        requires 2 * (y + 1) >= x + q + 1, x + q + 1 >= 0;
    assert(4 * x * (q + 1) > 4 * n) by (nonlinear_arith)
        requires n < x * (q + 1);
}

/// The integer square root of `n` by Newton's method started from
/// `estimate` (at least one): one step is always taken, which lands at or
/// above the root, the steps continue while they descend, and the value is
/// then lowered until its square does not exceed `n`. Negative values give
/// zero and values below two are their own root.
fn sqrt_bigint_from(n: &BigInt, estimate: u64) -> (r: BigInt)
    requires
        estimate >= 1,
    ensures
        r@ >= 0,
        n@ >= 0 ==> r@ * r@ <= n@,
        n@ >= 0 ==> n@ < (r@ + 1) * (r@ + 1),
{
    if n.is_negative() {
        return BigInt::zero();
    }
    let two = BigInt::from_u64(2);
    if n.less_than(&two) {
        let r = n.clone();
        proof {
            assert(r@ * r@ <= n@ && n@ < (r@ + 1) * (r@ + 1)) by (nonlinear_arith)
                requires r@ == n@, 0 <= n@ < 2;
        }
        return r;
    }
    let e = BigInt::from_u64(estimate);
    let q0 = n.div_trunc(&e);
    let s0 = e.plus(&q0);
    proof {
        lemma_trunc_nonneg(n@, e@);
        lemma_div_pos_is_pos(n@, e@);
        lemma_trunc_nonneg(s0@, 2);
    }
    let mut x = s0.div_trunc(&two);
    proof {
        lemma_newton_above(n@, e@, q0@, x@);
        assert(x@ >= 1) by (nonlinear_arith)
            requires n@ < (x@ + 1) * (x@ + 1), n@ >= 2, x@ >= 0;
    }
    loop
        invariant
            x@ >= 1,
            n@ >= 2,
            two@ == 2,
            n@ < (x@ + 1) * (x@ + 1),
        decreases x@,
    {
        let q = n.div_trunc(&x);
        let s = x.plus(&q);
        proof {
            lemma_trunc_nonneg(n@, x@);
            lemma_div_pos_is_pos(n@, x@);
            lemma_trunc_nonneg(s@, 2);
        }
        let x1 = s.div_trunc(&two);
        if !x1.less_than(&x) {
            break;
        }
        proof {
            lemma_newton_above(n@, x@, q@, x1@);
            assert(x1@ >= 1) by (nonlinear_arith)
                requires n@ < (x1@ + 1) * (x1@ + 1), n@ >= 2, x1@ >= 0;
        }
        x = x1;
    }
    let one = BigInt::one();
    loop
        invariant
            x@ >= 0,
            n@ >= 2,
            one@ == 1,
            n@ < (x@ + 1) * (x@ + 1),
        ensures
            x@ >= 0,
            x@ * x@ <= n@,
            n@ < (x@ + 1) * (x@ + 1),
        decreases x@,
    {
        let sq = x.times(&x);
        if !n.less_than(&sq) {
            break;
        }
        proof {
            assert(x@ > 0) by (nonlinear_arith)
                requires sq@ == x@ * x@, n@ < sq@, n@ >= 2, x@ >= 0;
        }
        x = x.minus(&one);
    }
    x
}

/// `g^(j + 1) mod p` from `g^j mod p`.
proof fn lemma_pow_mod_step(g: int, j: nat, p: int)
    requires
        p > 0,
    ensures
        pow(g, j + 1) % p == ((pow(g, j) % p) * g) % p,
{
    lemma_pow_adds(g, j, 1);
    lemma_pow1(g);
    lemma_mul_mod_noop_left(pow(g, j), g, p);
}

/// With `gm == g^m mod p` and `gm * inv == 1 (mod p)`, the power `g^(i*m + j)`
/// is congruent to `c` exactly when `g^j` is congruent to `c * inv^i`.
proof fn lemma_giant_step(g: int, c: int, p: int, m: nat, i: nat, j: nat, gm: int, inv: int)
    requires
        p >= 2,
        gm == pow(g, m) % p,
        (gm * inv) % p == 1,
    ensures
        (pow(g, i * m + j) % p == c % p) <==> (pow(g, j) % p == (c * pow(inv, i)) % p),
{
    let a = pow(g, m);
    let x = pow(a, i);
    let y = pow(g, j);
    let u = pow(inv, i);
    let e = pow(a * inv, i);
    lemma_mul_is_commutative(i as int, m as int);
    lemma_pow_multiplies(g, m, i);
    lemma_pow_adds(g, m * i, j);
    assert(pow(g, i * m + j) == x * y);
    lemma_pow_distributes(a, inv, i);
    assert(e == x * u);
    // (a * inv) % p == 1, so e % p == 1
    lemma_mul_mod_noop_left(a, inv, p);
    lemma_pow_mod_noop(a * inv, i, p);
    lemma1_pow(i);
    lemma_small_mod(1, p as nat);
    assert(e % p == 1);
    // (x * y * u) % p == y % p
    assert(x * y * u == y * e) by (nonlinear_arith)
        requires e == x * u;
    lemma_mul_mod_noop_right(y, e, p);
    assert((y * e) % p == y % p);
    if pow(g, i * m + j) % p == c % p {
        // c * u == x * y * u (mod p)
        lemma_mul_mod_noop_left(c, u, p);
        lemma_mul_mod_noop_left(x * y, u, p);
        assert((c * u) % p == ((x * y) * u) % p);
        assert((x * y) * u == x * y * u) by (nonlinear_arith);
    }
    if y % p == (c * u) % p {
        // x * y == x * c * u == c * e (mod p) == c (mod p)
        lemma_mul_mod_noop_right(x, y, p);
        lemma_mul_mod_noop_right(x, c * u, p);
        assert(x * (c * u) == c * e) by (nonlinear_arith)
            requires e == x * u;
        lemma_mul_mod_noop_right(c, e, p);
        assert((c * e) % p == (c * 1) % p);
    }
}

/// A power of a residue that a prime does not divide is not divisible by it.
proof fn lemma_pow_not_divisible(p: nat, g: int, k: nat)
    requires
        spec_is_prime(p),
        g % (p as int) != 0,
    ensures
        pow(g, k) % (p as int) != 0,
    decreases k,
{
    if k == 0 {
        lemma_pow0(g);
        lemma_small_mod(1, p);
    } else {
        lemma_pow_not_divisible(p, g, (k - 1) as nat);
        if pow(g, k) % (p as int) == 0 {
            lemma_pow_adds(g, (k - 1) as nat, 1);
            lemma_pow1(g);
            assert(pow(g, k) == pow(g, (k - 1) as nat) * g);
            crate::modular::lemma_euclid(p, pow(g, (k - 1) as nat), g);
        }
    }
}

/// A prime is coprime to every positive residue below it.
proof fn lemma_coprime_below_prime(p: nat, x: nat)
    requires
        spec_is_prime(p),
        0 < x < p,
    ensures
        spec_gcd(x, p) == 1,
{
    let d = spec_gcd(x, p);
    lemma_gcd_divides(x, p);
    lemma_gcd_positive(x, p);
    lemma_divides_mod(d, p);
    lemma_prime_divisor(p, d);
    if d == p {
        let k = choose|k: nat| #[trigger] (d * k) == x;
        assert(k == 0 || d * k >= d) by (nonlinear_arith)
            requires d > 0;
    }
}

/// For a residue that the prime `p` does not divide, exponents may be
/// reduced modulo `p - 1` (Fermat).
proof fn lemma_fermat_reduce(g: int, p: nat, y: nat)
    requires
        spec_is_prime(p),
        g % (p as int) != 0,
    ensures
        pow(g, y % ((p - 1) as nat)) % (p as int) == pow(g, y) % (p as int),
{
    let pi = p as int;
    let n1 = (p - 1) as nat;
    let gg = g % pi;
    lemma_mod_bound(g, pi);
    lemma_small_mod(gg as nat, p);
    crate::modular::lemma_fermat(gg as nat, p);
    let q = y / n1;
    let r = y % n1;
    lemma_fundamental_div_mod(y as int, n1 as int);
    lemma_mod_bound(y as int, n1 as int);
    lemma_div_pos_is_pos(y as int, n1 as int);
    assert(n1 * q + r == y);
    lemma_mul_is_commutative(n1 as int, q as int);
    lemma_pow_adds(gg, n1 * q, r);
    lemma_pow_multiplies(gg, n1, q);
    let a = pow(gg, n1);
    lemma_pow_mod_noop(a, q, pi);
    lemma1_pow(q);
    lemma_small_mod(1, p);
    assert(pow(a, q) % pi == 1);
    lemma_mul_mod_noop_left(pow(a, q), pow(gg, r), pi);
    assert((1 * pow(gg, r)) == pow(gg, r));
    assert(pow(gg, y) % pi == pow(gg, r) % pi);
    lemma_pow_mod_noop(g, y, pi);
    lemma_pow_mod_noop(g, r, pi);
}

/// Every exponent below `i * m + j` misses `h`, when each giant step before
/// the `i`-th missed the whole baby-step table and, at the `i`-th, the baby
/// steps below `j` missed.
proof fn lemma_no_earlier_hit(g: int, h: int, pp: int, gg: int, hh: int, mm: nat, i: nat, jv: nat, gm: int, inv: int)
    requires
        pp >= 2,
        mm >= 1,
        jv <= mm,
        i <= mm,
        gg == g % pp,
        hh == h % pp,
        gm == pow(gg, mm) % pp,
        (gm * inv) % pp == 1,
        forall|ii: int, jj: int| 0 <= ii < i && 0 <= jj < mm ==>
            #[trigger] (pow(gg, jj as nat) % pp) != #[trigger] ((hh * pow(inv, ii as nat)) % pp),
        forall|jj: int| 0 <= jj < jv ==>
            #[trigger] (pow(gg, jj as nat) % pp) != (hh * pow(inv, i)) % pp,
    ensures
        forall|y: int| 0 <= y < i * mm + jv ==> #[trigger] (pow(g, y as nat) % pp) != h % pp,
{
    assert forall|y: int| 0 <= y < i * mm + jv implies #[trigger] (pow(g, y as nat) % pp) != h % pp by {
        lemma_fundamental_div_mod(y, mm as int);
        lemma_mod_bound(y, mm as int);
        let ii = y / (mm as int);
        let jj = y % (mm as int);
        assert(0 <= ii <= i && (ii == i ==> jj < jv)) by (nonlinear_arith)
            requires y == mm * ii + jj, 0 <= jj < mm, 0 <= y < i * mm + jv, jv <= mm, mm >= 1;
        lemma_giant_step(gg, hh, pp, mm, ii as nat, jj as nat, gm, inv);
        assert(ii * mm + jj == y) by (nonlinear_arith)
            requires y == mm * ii + jj;
        assert((ii as nat) * mm + (jj as nat) == y as nat);
        lemma_pow_mod_noop(g, y as nat, pp);
        lemma_mod_bound(h, pp);
        lemma_small_mod(hh as nat, pp as nat);
        if ii < i {
            assert((pow(gg, jj as nat) % pp) != ((hh * pow(inv, ii as nat)) % pp));
        } else {
            assert((pow(gg, jj as nat) % pp) != (hh * pow(inv, i)) % pp);
        }
    }
}

/// No exponent below `k * k` takes `g` to `h` modulo `p`.
pub open spec fn no_discrete_log_below(g: int, h: int, p: int, k: int) -> bool {
    forall|x: int| 0 <= x < k * k ==> #[trigger] (pow(g, x as nat) % p) != h % p
}

/// The discrete logarithm: the least `x >= 0` with `g^x == h (mod p)`, by
/// baby-step giant-step with `m = r + 1` steps each way, where `r` is the
/// integer square root of `p` computed by Newton's method from
/// `root_estimate` (the floating-point square root of `min(p, u64::MAX)`,
/// truncated; at least one). The baby-step table keeps, for each residue,
/// the first exponent that reaches it. A zero modulus is a division by zero;
/// a modulus that the primality test rejects, a zero base, a base whose
/// `m`-th power has no inverse and an equation without a solution below
/// `m * m` are domain errors. A step count that does not fit a `usize`, or a
/// modulus above `u128::MAX` (the table's key), is an overflow. For a prime
/// modulus that does not divide `g`, every solvable equation is solved.
pub fn discrete_log_from_estimate(g: &BigInt, h: &BigInt, p: &BigInt, root_estimate: u64) -> (r: Result<BigInt, CalcError>)
    requires
        root_estimate >= 1,
    ensures
        p@ == 0 ==> (r matches Err(e) && e.kind == ErrorKind::DivisionByZero),
        p@ != 0 && (p@ < 2 || (p@ > 2 && p@ % 2 == 0)) ==> (r matches Err(e) && e.kind == ErrorKind::Domain),
        p@ != 0 && !miller_rabin_accepts(p@) ==> (r matches Err(e) && e.kind == ErrorKind::Domain),
        g@ == 0 ==> r is Err,
        r matches Ok(x) ==> p@ >= 2 && x@ >= 0 && pow(g@, x@ as nat) % p@ == h@ % p@,
        r matches Ok(x) ==> forall|y: int| 0 <= y < x@ ==> #[trigger] (pow(g@, y as nat) % p@) != h@ % p@,
        r matches Err(e) && e.kind == ErrorKind::Overflow ==> p@ > u128::MAX || p@ >= usize::MAX * usize::MAX,
        p@ >= 2 && spec_is_prime(p@ as nat) && g@ % p@ != 0 && p@ <= u128::MAX && p@ < usize::MAX * usize::MAX
            && (exists|x: nat| #[trigger] (pow(g@, x) % p@) == h@ % p@) ==> r is Ok,
        r matches Err(e) ==> e.kind == ErrorKind::DivisionByZero || e.kind == ErrorKind::Domain || e.kind == ErrorKind::Overflow,
        r matches Err(e) ==> (e.message@ == "discrete_log(): no solution found"@ ==> exists|k: int|
            k >= 1 && (k - 1) * (k - 1) <= p@ && #[trigger] no_discrete_log_below(g@, h@, p@, k)),
        p@ >= 2 && spec_is_prime(p@ as nat) && g@ % p@ != 0 ==> match r {
            Ok(_) => true,
            Err(e) => e.kind == ErrorKind::Overflow || e.message@ == "discrete_log(): no solution found"@,
        },
{
    broadcast use vstd::std_specs::hash::group_hash_axioms;
    proof {
        reveal_strlit("discrete_log(): no solution found");
        reveal_strlit("discrete_log(): modulus ");
        reveal_strlit("discrete_log(): base g must not be zero");
        reveal_strlit("discrete_log(): base not invertible mod p");
        reveal_strlit("division by zero");
        reveal_strlit("arithmetic overflow");
        assert("discrete_log(): no solution found"@.len() == 33);
        assert("discrete_log(): base g must not be zero"@.len() == 39);
        assert("discrete_log(): base not invertible mod p"@.len() == 41);
        assert("division by zero"@.len() == 16);
        assert("arithmetic overflow"@.len() == 19);
    }
    if p.is_zero() {
        return Err(CalcError::division_by_zero());
    }
    if !is_prime(p) {
        let mut msg = owned("discrete_log(): modulus ");
        push_str(&mut msg, &p.to_decimal_string());
        push_str(&mut msg, " is not prime");
        proof {
            assert(msg@[16] == 'm');
            assert("discrete_log(): no solution found"@[16] == 'n');
        }
        return Err(CalcError::domain(msg));
    }
    if g.is_zero() {
        proof {
            if p@ >= 2 {
                lemma_small_mod(0, p@ as nat);
            }
        }
        return Err(CalcError::domain(owned("discrete_log(): base g must not be zero")));
    }
    let p_abs = p.abs();
    let ghost pp = p_abs@;
    assert(pp == p@ && pp >= 2);
    let one = BigInt::one();
    let ht = h.rem_trunc(&p_abs);
    let ht2 = ht.plus(&p_abs);
    let h_mod = ht2.rem_trunc(&p_abs);
    let gt = g.rem_trunc(&p_abs);
    let gt2 = gt.plus(&p_abs);
    let g_mod = gt2.rem_trunc(&p_abs);
    let ghost gg = g_mod@;
    let ghost hh = h_mod@;
    proof {
        lemma_normalize_residue(h@, pp);
        lemma_normalize_residue(g@, pp);
        lemma_mod_bound(h@, pp);
        lemma_mod_bound(g@, pp);
    }
    let root = sqrt_bigint_from(&p_abs, root_estimate);
    let m = root.plus(&one);
    let m_usize = match m.to_usize() {
        Some(v) => v,
        None => {
            proof {
                let u = usize::MAX as int;
                assert(p@ >= u * u) by (nonlinear_arith)
                    requires root@ >= u, root@ * root@ <= p@, u >= 0;
            }
            return Err(CalcError::overflow());
        },
    };
    let p128 = match p_abs.to_u128() {
        Some(v) => v,
        None => {
            return Err(CalcError::overflow());
        },
    };
    let ghost mm = m@;
    // baby steps: the residues g^j mod p for j < m, each mapped to the first j
    let mut table: std::collections::HashMap<u128, usize> = std::collections::HashMap::new();
    let mut power = BigInt::one();
    let mut j: usize = 0;
    proof {
        lemma_pow0(gg);
        lemma_small_mod(1, pp as nat);
    }
    while j < m_usize
        invariant
            pp >= 2,
            p_abs@ == pp,
            p128 == pp,
            g_mod@ == gg,
            0 <= gg < pp,
            m_usize == mm,
            j <= m_usize,
            power@ == pow(gg, j as nat) % pp,
            forall|k: u128| #[trigger] table@.contains_key(k) ==> (table@[k] < j && pow(gg, table@[k] as nat) % pp == k),
            forall|jj: int| 0 <= jj < j ==> table@.contains_key(#[trigger] (pow(gg, jj as nat) % pp) as u128)
                && table@[(pow(gg, jj as nat) % pp) as u128] <= jj,
        decreases m_usize - j,
    {
        proof {
            lemma_mod_bound(pow(gg, j as nat), pp);
        }
        let key = power.to_u128().unwrap();
        if !table.contains_key(&key) {
            table.insert(key, j);
        }
        let prod = power.times(&g_mod);
        proof {
            lemma_mod_bound(pow(gg, j as nat), pp);
            lemma_mul_nonnegative(power@, gg);
            lemma_trunc_nonneg(prod@, pp);
            lemma_pow_mod_step(gg, j as nat, pp);
        }
        power = prod.rem_trunc(&p_abs);
        j = j + 1;
    }
    // giant steps: h * (g^m)^(-i) for i < m
    let g_m = mod_pow_bigint(&g_mod, &m, &p_abs);
    proof {
        if spec_is_prime(pp as nat) && g@ % p@ != 0 {
            assert(gg != 0);
            lemma_small_mod(gg as nat, pp as nat);
            lemma_pow_not_divisible(pp as nat, gg, mm as nat);
            lemma_mod_bound(pow(gg, mm as nat), pp);
            lemma_small_mod(g_m@ as nat, pp as nat);
            lemma_coprime_below_prime(pp as nat, g_m@ as nat);
        }
    }
    let g_m_inv = match mod_inverse_impl(&g_m, &p_abs) {
        Some(v) => v,
        None => {
            return Err(CalcError::domain(owned("discrete_log(): base not invertible mod p")));
        },
    };
    let ghost gm = g_m@;
    let ghost inv = g_m_inv@;
    proof {
        lemma_small_mod(1, pp as nat);
        assert((gm * inv) % pp == 1);
        lemma_pow0(inv);
        lemma_small_mod(hh as nat, pp as nat);
    }
    let mut gamma = h_mod.clone();
    let mut i: usize = 0;
    while i < m_usize
        invariant
            pp >= 2,
            p_abs@ == pp,
            pp == p@,
            !(pp > 2 && pp % 2 == 0),
            g@ != 0,
            miller_rabin_accepts(p@),
            gg == g@ % pp,
            hh == h@ % pp,
            p128 == pp,
            g_mod@ == gg,
            h_mod@ == hh,
            0 <= gg < pp,
            0 <= hh < pp,
            m@ == mm,
            m_usize == mm,
            g_m@ == gm,
            g_m_inv@ == inv,
            gm == pow(gg, mm as nat) % pp,
            (gm * inv) % pp == 1,
            0 <= inv < pp,
            i <= m_usize,
            gamma@ == (hh * pow(inv, i as nat)) % pp,
            forall|k: u128| #[trigger] table@.contains_key(k) ==> (table@[k] < mm && pow(gg, table@[k] as nat) % pp == k),
            forall|jj: int| 0 <= jj < mm ==> table@.contains_key(#[trigger] (pow(gg, jj as nat) % pp) as u128)
                && table@[(pow(gg, jj as nat) % pp) as u128] <= jj,
            forall|ii: int, jj: int| 0 <= ii < i && 0 <= jj < mm ==>
                #[trigger] (pow(gg, jj as nat) % pp) != #[trigger] ((hh * pow(inv, ii as nat)) % pp),
        decreases m_usize - i,
    {
        proof {
            lemma_mod_bound(hh * pow(inv, i as nat), pp);
        }
        let key = gamma.to_u128().unwrap();
        match table.get(&key) {
            Some(jr) => {
                let jv: usize = *jr;
                let iv = BigInt::from_u64(i as u64);
                let im = iv.times(&m);
                let x = im.plus(&BigInt::from_u64(jv as u64));
                proof {
                    assert(table@.contains_key(key) && table@[key] == jv);
                    assert(pow(gg, jv as nat) % pp == key);
                    lemma_giant_step(gg, hh, pp, mm as nat, i as nat, jv as nat, gm, inv);
                    lemma_small_mod(hh as nat, pp as nat);
                    assert(x@ == i * mm + jv);
                    assert(pow(gg, (i as nat) * (mm as nat) + (jv as nat)) % pp == hh % pp);
                    assert((i as nat) * (mm as nat) + (jv as nat) == x@ as nat);
                    lemma_pow_mod_noop(g@, x@ as nat, pp);
                    assert(x@ >= 0) by (nonlinear_arith)
                        requires x@ == i * mm + jv, i >= 0, mm >= 1, jv >= 0;
                    // the first index kept for this residue: no smaller baby step reaches it
                    assert forall|jj: int| 0 <= jj < jv implies
                        #[trigger] (pow(gg, jj as nat) % pp) != (hh * pow(inv, i as nat)) % pp by {
                        lemma_mod_bound(pow(gg, jj as nat), pp);
                    }
                    lemma_no_earlier_hit(g@, h@, pp, gg, hh, mm as nat, i as nat, jv as nat, gm, inv);
                }
                return Ok(x);
            },
            None => {},
        }
        proof {
            assert(!table@.contains_key(key));
            assert forall|jj: int| 0 <= jj < mm implies
                #[trigger] (pow(gg, jj as nat) % pp) != ((hh * pow(inv, i as nat)) % pp) by {
                assert(table@.contains_key((pow(gg, jj as nat) % pp) as u128));
                lemma_mod_bound(pow(gg, jj as nat), pp);
            }
        }
        let prod = gamma.times(&g_m_inv);
        proof {
            lemma_mod_bound(hh * pow(inv, i as nat), pp);
            lemma_mul_nonnegative(gamma@, inv);
            lemma_trunc_nonneg(prod@, pp);
            lemma_pow_adds(inv, i as nat, 1);
            lemma_pow1(inv);
            lemma_mul_mod_noop_left(hh * pow(inv, i as nat), inv, pp);
            assert((hh * pow(inv, i as nat)) * inv == hh * pow(inv, (i + 1) as nat)) by (nonlinear_arith)
                requires pow(inv, (i + 1) as nat) == pow(inv, i as nat) * inv;
        }
        gamma = prod.rem_trunc(&p_abs);
        i = i + 1;
    }
    proof {
        lemma_no_earlier_hit(g@, h@, pp, gg, hh, mm as nat, mm as nat, 0, gm, inv);
        assert(mm >= 1 && (mm - 1) * (mm - 1) <= p@);
        assert(no_discrete_log_below(g@, h@, p@, mm));
        if spec_is_prime(p@ as nat) && g@ % p@ != 0 && exists|x: nat| #[trigger] (pow(g@, x) % p@) == h@ % p@ {
            // Fermat: a solution exists below p - 1 < m * m
            let x0 = choose|x: nat| #[trigger] (pow(g@, x) % p@) == h@ % p@;
            let y = x0 % ((pp - 1) as nat);
            lemma_fermat_reduce(g@, pp as nat, x0);
            lemma_mod_bound(x0 as int, pp - 1);
            assert(pp < mm * mm);
            let yi: int = y as int;
            assert(0 <= yi < (mm as nat) * (mm as nat) + 0);
            assert((pow(g@, yi as nat) % pp) != h@ % pp);
            assert(false);
        }
    }
    Err(CalcError::domain(owned("discrete_log(): no solution found")))
}

} // verus!
