//! Arithmetic modulo a prime: Euclid's lemma, the binomial theorem,
//! Fermat's little theorem and the property that the Miller-Rabin test
//! checks, so that the test never rejects a prime.

use vstd::prelude::*;
use vstd::arithmetic::div_mod::*;
use vstd::arithmetic::mul::*;
use vstd::arithmetic::power::*;
use vstd::arithmetic::power2::*;
use crate::combinatorics::{binom, lemma_binom_absorb, lemma_binom_diagonal, lemma_binom_zero_above};
use crate::number_theory::{
    divides, lemma_bezout, lemma_divides_mod, lemma_gcd_divides, lemma_gcd_positive, spec_gcd, spec_is_prime,
};

verus! {

/// The only positive divisors of a prime are one and itself.
pub proof fn lemma_prime_divisor(p: nat, d: nat)
    requires
        spec_is_prime(p),
        d > 0,
        (p as int) % (d as int) == 0,
    ensures
        d == 1 || d == p,
{
    lemma_fundamental_div_mod(p as int, d as int);
    let k = (p as int) / (d as int);
    assert(k >= 1) by (nonlinear_arith)
        requires p == d * k, p >= 2, d > 0;
    assert(d <= p) by (nonlinear_arith)
        requires p == d * k, k >= 1, d > 0;
    if 2 <= d < p {
        assert((p % d) != 0);
    }
}

/// Euclid's lemma: a prime that divides a product divides one of the factors.
pub proof fn lemma_euclid(p: nat, a: int, b: int)
    requires
        spec_is_prime(p),
        (a * b) % (p as int) == 0,
    ensures
        a % (p as int) == 0 || b % (p as int) == 0,
{
    let pi = p as int;
    if a % pi != 0 {
        lemma_mod_bound(a, pi);
        let a1 = (a % pi) as nat;
        let g = spec_gcd(p, a1);
        lemma_gcd_positive(p, a1);
        lemma_gcd_divides(p, a1);
        lemma_divides_mod(g, p);
        lemma_divides_mod(g, a1);
        lemma_prime_divisor(p, g);
        if g == p {
            // a1 is a positive multiple of p below p
            lemma_fundamental_div_mod(a1 as int, g as int);
            let q = (a1 as int) / (g as int);
            assert(false) by (nonlinear_arith)
                requires a1 == g * q, 0 < a1 < p, g == p;
        }
        let (s, t) = lemma_bezout(p, a1);
        assert(pi * s + (a1 as int) * t == 1);
        lemma_mul_mod_noop_left(a, b, pi);
        assert(((a1 as int) * b) % pi == 0);
        lemma_fundamental_div_mod((a1 as int) * b, pi);
        let q = ((a1 as int) * b) / pi;
        assert(b == pi * (b * s + t * q)) by (nonlinear_arith)
            requires pi * s + (a1 as int) * t == 1, (a1 as int) * b == pi * q;
        lemma_mod_multiples_basic(b * s + t * q, pi);
        lemma_mul_is_commutative(pi, b * s + t * q);
    }
}

/// `p` divides `C(p, k)` for a prime `p` and `0 < k < p`.
pub proof fn lemma_binom_prime(p: nat, k: nat)
    requires
        spec_is_prime(p),
        0 < k < p,
    ensures
        (binom(p, k) as int) % (p as int) == 0,
{
    let m = (p - 1) as nat;
    let km1 = (k - 1) as nat;
    lemma_binom_absorb(m, km1);
    assert(km1 + 1 == k);
    assert(binom(p, k) == binom(m, km1) + binom(m, k));
    assert(k * binom(p, k) == p * binom(m, km1)) by (nonlinear_arith)
        requires
            binom(p, k) == binom(m, km1) + binom(m, k),
            (km1 + 1) * binom(m, km1 + 1) == (m - km1) * binom(m, km1),
            km1 + 1 == k,
            m == p - 1;
    lemma_mod_multiples_basic(binom(m, km1) as int, p as int);
    assert(((k as int) * (binom(p, k) as int)) % (p as int) == 0) by {
        lemma_mul_is_commutative(binom(m, km1) as int, p as int);
    }
    lemma_euclid(p, k as int, binom(p, k) as int);
    lemma_small_mod(k, p);
}

/// `sum of C(n, i) * a^i for i < k`.
pub open spec fn binom_sum(a: int, n: nat, k: nat) -> int
    decreases k,
{
    if k == 0 {
        0
    } else {
        binom_sum(a, n, (k - 1) as nat) + (binom(n, (k - 1) as nat) as int) * pow(a, (k - 1) as nat)
    }
}

proof fn lemma_pascal_sum(a: int, n: nat, k: nat)
    ensures
        binom_sum(a, n + 1, k + 1) == binom_sum(a, n, k + 1) + a * binom_sum(a, n, k),
    decreases k,
{
    lemma_pow0(a);
    if k == 0 {
        assert(binom_sum(a, n + 1, 1) == binom_sum(a, n + 1, 0) + (binom(n + 1, 0) as int) * pow(a, 0));
        assert(binom_sum(a, n, 1) == binom_sum(a, n, 0) + (binom(n, 0) as int) * pow(a, 0));
    } else {
        let km1 = (k - 1) as nat;
        lemma_pascal_sum(a, n, km1);
        lemma_pow_adds(a, km1, 1);
        lemma_pow1(a);
        let s1 = binom_sum(a, n + 1, k);
        let s2 = binom_sum(a, n, k);
        let s3 = binom_sum(a, n, km1);
        assert(binom(n + 1, k) == binom(n, km1) + binom(n, k));
        assert(binom_sum(a, n + 1, k + 1) == s1 + (binom(n + 1, k) as int) * pow(a, k));
        assert(binom_sum(a, n, k + 1) == s2 + (binom(n, k) as int) * pow(a, k));
        assert(s2 == s3 + (binom(n, km1) as int) * pow(a, km1));
        assert(pow(a, k) == pow(a, km1) * a);
        assert(binom_sum(a, n + 1, k + 1) == binom_sum(a, n, k + 1) + a * s2) by (nonlinear_arith)
            requires
                binom_sum(a, n + 1, k + 1) == s1 + (binom(n + 1, k) as int) * pow(a, k),
                s1 == s2 + a * s3,
                binom(n + 1, k) == binom(n, km1) + binom(n, k),
                binom_sum(a, n, k + 1) == s2 + (binom(n, k) as int) * pow(a, k),
                s2 == s3 + (binom(n, km1) as int) * pow(a, km1),
                pow(a, k) == pow(a, km1) * a;
    }
}

/// The binomial theorem for `(a + 1)^n`.
pub proof fn lemma_binomial_theorem(a: int, n: nat)
    ensures
        pow(a + 1, n) == binom_sum(a, n, n + 1),
    decreases n,
{
    lemma_pow0(a + 1);
    lemma_pow0(a);
    if n == 0 {
        assert(binom_sum(a, 0, 1) == binom_sum(a, 0, 0) + (binom(0, 0) as int) * pow(a, 0));
    } else {
        let m = (n - 1) as nat;
        lemma_binomial_theorem(a, m);
        lemma_pow_adds(a + 1, m, 1);
        lemma_pow1(a + 1);
        lemma_pascal_sum(a, m, n);
        lemma_binom_zero_above(m, n);
        let s = binom_sum(a, m, n);
        assert(binom_sum(a, m, n + 1) == s + (binom(m, n) as int) * pow(a, n));
        assert(binom_sum(a, m, n + 1) == s);
        assert(pow(a + 1, n) == pow(a + 1, m) * (a + 1));
        assert(pow(a + 1, n) == binom_sum(a, n, n + 1)) by (nonlinear_arith)
            requires
                pow(a + 1, n) == pow(a + 1, m) * (a + 1),
                pow(a + 1, m) == s,
                binom_sum(a, n, n + 1) == binom_sum(a, m, n + 1) + a * s,
                binom_sum(a, m, n + 1) == s;
    }
}

proof fn lemma_binom_sum_prime(a: int, p: nat, k: nat)
    requires
        spec_is_prime(p),
        1 <= k <= p,
    ensures
        binom_sum(a, p, k) % (p as int) == 1,
    decreases k,
{
    let pi = p as int;
    lemma_pow0(a);
    lemma_small_mod(1, p);
    if k == 1 {
        assert(binom_sum(a, p, 1) == binom_sum(a, p, 0) + (binom(p, 0) as int) * pow(a, 0));
    } else {
        let km1 = (k - 1) as nat;
        lemma_binom_sum_prime(a, p, km1);
        lemma_binom_prime(p, km1);
        let c = binom(p, km1) as int;
        let t = c * pow(a, km1);
        lemma_fundamental_div_mod(c, pi);
        let q = c / pi;
        assert(t == pi * (q * pow(a, km1))) by (nonlinear_arith)
            requires t == c * pow(a, km1), c == pi * q + c % pi, c % pi == 0;
        lemma_mod_multiples_vanish(q * pow(a, km1), binom_sum(a, p, km1), pi);
        assert(binom_sum(a, p, k) == binom_sum(a, p, km1) + t);
    }
}

/// The freshman's dream modulo a prime: `(a + 1)^p == a^p + 1 (mod p)`.
pub proof fn lemma_freshman(a: int, p: nat)
    requires
        spec_is_prime(p),
    ensures
        pow(a + 1, p) % (p as int) == (pow(a, p) + 1) % (p as int),
{
    let pi = p as int;
    lemma_binomial_theorem(a, p);
    lemma_binom_sum_prime(a, p, p);
    lemma_binom_diagonal(p);
    assert(binom_sum(a, p, p + 1) == binom_sum(a, p, p) + (binom(p, p) as int) * pow(a, p));
    lemma_add_mod_noop(binom_sum(a, p, p), pow(a, p), pi);
    lemma_add_mod_noop(1, pow(a, p), pi);
    lemma_small_mod(1, p);
}

/// `a^p == a (mod p)` for a prime `p`.
pub proof fn lemma_fermat_self(a: nat, p: nat)
    requires
        spec_is_prime(p),
    ensures
        pow(a as int, p) % (p as int) == (a as int) % (p as int),
    decreases a,
{
    let pi = p as int;
    if a == 0 {
        lemma0_pow(p);
    } else {
        let b = (a - 1) as nat;
        lemma_fermat_self(b, p);
        lemma_freshman(b as int, p);
        lemma_add_mod_noop(pow(b as int, p), 1, pi);
        lemma_add_mod_noop(b as int, 1, pi);
    }
}

/// Fermat's little theorem: `a^(p - 1) == 1 (mod p)` when the prime `p` does
/// not divide `a`.
pub proof fn lemma_fermat(a: nat, p: nat)
    requires
        spec_is_prime(p),
        (a as int) % (p as int) != 0,
    ensures
        pow(a as int, (p - 1) as nat) % (p as int) == 1,
{
    let pi = p as int;
    let ai = a as int;
    let e = pow(ai, (p - 1) as nat);
    lemma_fermat_self(a, p);
    lemma_pow_adds(ai, 1, (p - 1) as nat);
    lemma_pow1(ai);
    assert(pow(ai, p) == ai * e);
    // a * (e - 1) == 0 (mod p)
    assert(ai * (e - 1) == ai * e - ai) by (nonlinear_arith);
    lemma_sub_mod_noop(ai * e, ai, pi);
    assert((ai * (e - 1)) % pi == 0) by {
        lemma_mod_bound(ai, pi);
        assert((ai * e) % pi - ai % pi == 0);
        lemma_small_mod(0, p);
    }
    lemma_euclid(p, ai, e - 1);
    lemma_fundamental_div_mod(e - 1, pi);
    lemma_mod_multiples_vanish((e - 1) / pi, 1, pi);
    assert(e == pi * ((e - 1) / pi) + 1);
    lemma_small_mod(1, p);
}

/// The square roots of one modulo a prime are `1` and `p - 1`.
pub proof fn lemma_sqrt_one(p: nat, x: int)
    requires
        spec_is_prime(p),
        0 <= x < p,
        (x * x) % (p as int) == 1,
    ensures
        x == 1 || x == p - 1,
{
    let pi = p as int;
    assert((x - 1) * (x + 1) == x * x - 1) by (nonlinear_arith);
    lemma_sub_mod_noop(x * x, 1, pi);
    lemma_small_mod(1, p);
    lemma_small_mod(0, p);
    assert(((x - 1) * (x + 1)) % pi == 0);
    lemma_euclid(p, x - 1, x + 1);
    if (x - 1) % pi == 0 {
        if x == 0 {
            lemma_mod_multiples_vanish(-1, pi - 1, pi);
            lemma_small_mod((pi - 1) as nat, p);
        } else {
            lemma_small_mod((x - 1) as nat, p);
        }
    } else {
        if x + 1 < pi {
            lemma_small_mod((x + 1) as nat, p);
        }
    }
}

/// Squaring the residue of `a^(d 2^k)` gives the residue of `a^(d 2^(k+1))`.
pub proof fn lemma_square_step(a: int, d: nat, k: nat, p: int)
    requires
        p > 0,
    ensures
        pow(a, d * pow2(k + 1)) % p == ((pow(a, d * pow2(k)) % p) * (pow(a, d * pow2(k)) % p)) % p,
{
    let e = d * pow2(k);
    lemma_pow2_unfold(k + 1);
    assert(d * pow2(k + 1) == e * 2) by (nonlinear_arith)
        requires pow2(k + 1) == 2 * pow2(k), e == d * pow2(k);
    lemma_pow_multiplies(a, e, 2);
    lemma_square_is_pow2(pow(a, e));
    lemma_mul_mod_noop(pow(a, e), pow(a, e), p);
}

proof fn lemma_mr_no_one(a: nat, d: nat, r: nat, p: nat, j: nat)
    requires
        spec_is_prime(p),
        j <= r,
        pow(a as int, d) % (p as int) != 1,
        forall|k: nat| k < r ==> #[trigger] (pow(a as int, d * pow2(k)) % (p as int)) != p - 1,
    ensures
        pow(a as int, d * pow2(j)) % (p as int) != 1,
    decreases j,
{
    let pi = p as int;
    if j == 0 {
        lemma_pow2_0();
        assert(d * pow2(0) == d);
    } else {
        let i = (j - 1) as nat;
        lemma_mr_no_one(a, d, r, p, i);
        lemma_square_step(a as int, d, i, pi);
        let y = pow(a as int, d * pow2(i)) % pi;
        lemma_mod_bound(pow(a as int, d * pow2(i)), pi);
        if pow(a as int, d * pow2(j)) % pi == 1 {
            lemma_sqrt_one(p, y);
            assert(pow(a as int, d * pow2(i)) % pi != p - 1);
        }
    }
}

/// The Miller-Rabin property of a prime `p = d * 2^r + 1` and a base `a` that
/// `p` does not divide: either `a^d == 1`, or `a^(d 2^k) == -1` for some
/// `k < r` (all modulo `p`).
pub proof fn lemma_miller_rabin(a: nat, d: nat, r: nat, p: nat)
    requires
        spec_is_prime(p),
        (a as int) % (p as int) != 0,
        d * pow2(r) == p - 1,
    ensures
        pow(a as int, d) % (p as int) == 1
            || exists|k: nat| k < r && #[trigger] (pow(a as int, d * pow2(k)) % (p as int)) == p - 1,
{
    if !(pow(a as int, d) % (p as int) == 1)
        && !(exists|k: nat| k < r && #[trigger] (pow(a as int, d * pow2(k)) % (p as int)) == p - 1) {
        lemma_mr_no_one(a, d, r, p, r);
        lemma_fermat(a, p);
        assert(d * pow2(r) == (p - 1) as nat);
    }
}

proof fn lemma_pow2_0()
    ensures
        pow2(0) == 1,
{
    lemma2_to64();
}

} // verus!
