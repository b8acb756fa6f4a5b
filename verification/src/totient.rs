//! Euler's totient through its product formula over the prime divisors.
//!
//! `totient_below(n, k)` is `n` with the factor `(1 - 1/q)` applied for each
//! prime `q < k` that divides `n`, in increasing order of `q`; the totient of
//! `n` takes every prime up to `n`.

use vstd::prelude::*;
use vstd::arithmetic::div_mod::*;
use crate::number_theory::spec_is_prime;
use crate::modular::lemma_prime_divisor;

verus! {

/// `n` times `(1 - 1/q)` for each prime `q < k` dividing `n`, smallest first.
pub open spec fn totient_below(n: nat, k: nat) -> nat
    decreases k,
{
    if k <= 2 {
        n
    } else {
        let q = (k - 1) as nat;
        let r = totient_below(n, q);
        if spec_is_prime(q) && n % q == 0 {
            (r - r / q) as nat
        } else {
            r
        }
    }
}

/// Euler's totient `n * prod_{p | n, p prime} (1 - 1/p)`.
pub open spec fn spec_totient(n: nat) -> nat {
    totient_below(n, n + 1)
}

/// Divisibility is transitive.
pub proof fn lemma_mod_trans(a: nat, b: nat, c: nat)
    requires
        b > 0,
        c > 0,
        a % b == 0,
        b % c == 0,
    ensures
        a % c == 0,
{
    lemma_fundamental_div_mod(a as int, b as int);
    lemma_fundamental_div_mod(b as int, c as int);
    let x = (b as int / c as int) * (a as int / b as int);
    assert(a as int == x * (c as int)) by (nonlinear_arith)
        requires
            a as int == (b as int) * (a as int / b as int),
            b as int == (c as int) * (b as int / c as int),
            x == (b as int / c as int) * (a as int / b as int),
    ;
    lemma_mod_multiples_basic(x, c as int);
}

/// Every integer from two on has a prime divisor not above it.
pub proof fn lemma_prime_factor(n: nat) -> (q: nat)
    requires
        n >= 2,
    ensures
        spec_is_prime(q),
        2 <= q <= n,
        n % q == 0,
    decreases n,
{
    if spec_is_prime(n) {
        lemma_mod_self_0(n as int);
        n
    } else {
        let d = choose|d: nat| 2 <= d < n && #[trigger] (n % d) == 0;
        let q = lemma_prime_factor(d);
        lemma_mod_trans(n, d, q);
        q
    }
}

/// An integer from two on with no prime factor below `p`, and less than
/// `p * p`, is prime.
pub proof fn lemma_prime_without_small_factor(m: nat, p: nat)
    requires
        m >= 2,
        m < p * p,
        forall|q: nat| 2 <= q < p && #[trigger] spec_is_prime(q) ==> m % q != 0,
    ensures
        spec_is_prime(m),
{
    if !spec_is_prime(m) {
        let d = choose|d: nat| 2 <= d < m && #[trigger] (m % d) == 0;
        lemma_fundamental_div_mod(m as int, d as int);
        let e = m / d;
        assert(e >= 2) by (nonlinear_arith)
            requires
                m as int == (d as int) * (e as int),
                2 <= d < m,
        ;
        assert(m % e == 0) by {
            lemma_mod_multiples_basic(d as int, e as int);
            assert((d as int) * (e as int) == m as int);
        }
        let a = if d <= e { d } else { e };
        assert(a * a <= m) by (nonlinear_arith)
            requires
                m as int == (d as int) * (e as int),
                a == d || a == e,
                a <= d,
                a <= e,
        ;
        assert(a < p) by (nonlinear_arith)
            requires
                a * a <= m,
                m < p * p,
        ;
        assert(m % a == 0);
        let q = lemma_prime_factor(a);
        lemma_mod_trans(m, a, q);
        assert(m % q != 0);
    }
}

/// Primes in `[k1, k2)` that do not divide `n` leave the product unchanged.
pub proof fn lemma_totient_skip(n: nat, k1: nat, k2: nat)
    requires
        2 <= k1 <= k2,
        forall|q: nat| k1 <= q < k2 && #[trigger] spec_is_prime(q) ==> n % q != 0,
    ensures
        totient_below(n, k2) == totient_below(n, k1),
    decreases k2,
{
    if k2 > k1 {
        lemma_totient_skip(n, k1, (k2 - 1) as nat);
        let q = (k2 - 1) as nat;
        assert(!(spec_is_prime(q) && n % q == 0));
    }
}

/// The totient of a prime `p` is `p - 1`.
pub proof fn lemma_totient_prime(p: nat)
    requires
        spec_is_prime(p),
    ensures
        spec_totient(p) == p - 1,
{
    assert forall|q: nat| 2 <= q < p && #[trigger] spec_is_prime(q) implies p % q != 0 by {
        if p % q == 0 {
            lemma_prime_divisor(p, q);
        }
    }
    lemma_totient_skip(p, 2, p);
    lemma_mod_self_0(p as int);
    lemma_div_by_self(p as int);
}

} // verus!
