//! Combinatorics on integers of any size: permutations, combinations,
//! Catalan numbers and Stirling numbers of the second kind.

use vstd::prelude::*;
use vstd::arithmetic::div_mod::*;
use crate::bigint::{BigInt, trunc_div, lemma_trunc_nonneg};
use crate::error::{CalcError, ErrorKind};
use crate::precision::spec_factorial;

verus! {

/// The largest `k` that `perm` and `comb` accept.
pub const MAX_PERMUTATION_K: u64 = 10000;

/// The largest `n` (and `k`) that `catalan` and `stirling_second` accept.
pub const MAX_CATALAN_N: u64 = 5000;

/// The falling factorial `n * (n - 1) * ... * (n - k + 1)`.
pub open spec fn falling(n: int, k: nat) -> int
    decreases k,
{
    if k == 0 {
        1
    } else {
        falling(n, (k - 1) as nat) * (n - (k - 1))
    }
}

/// The binomial coefficient by Pascal's rule.
pub open spec fn binom(n: nat, k: nat) -> nat
    decreases n, k,
{
    if k == 0 {
        1
    } else if n == 0 {
        0
    } else {
        binom((n - 1) as nat, (k - 1) as nat) + binom((n - 1) as nat, k)
    }
}

/// The `n`-th Catalan number, `C(2n, n) / (n + 1)`.
pub open spec fn catalan_number(n: nat) -> nat {
    binom(2 * n, n) / (n + 1)
}

/// Stirling numbers of the second kind: the ways to split `n` elements into
/// `k` non-empty blocks.
pub open spec fn stirling2(n: nat, k: nat) -> nat
    decreases n,
{
    if n == 0 {
        if k == 0 { 1 } else { 0 }
    } else if k == 0 {
        0
    } else {
        k * stirling2((n - 1) as nat, k) + stirling2((n - 1) as nat, (k - 1) as nat)
    }
}

/// There are no ways to choose more elements than there are.
pub proof fn lemma_binom_zero_above(n: nat, k: nat)
    requires
        k > n,
    ensures
        binom(n, k) == 0,
    decreases n,
{
    if n > 0 {
        lemma_binom_zero_above((n - 1) as nat, (k - 1) as nat);
        lemma_binom_zero_above((n - 1) as nat, k);
    }
}

/// There is one way to choose all elements.
pub proof fn lemma_binom_diagonal(n: nat)
    ensures
        binom(n, n) == 1,
    decreases n,
{
    if n > 0 {
        lemma_binom_diagonal((n - 1) as nat);
        lemma_binom_zero_above((n - 1) as nat, n);
    }
}

/// The absorption identity `(k + 1) * C(n, k + 1) == (n - k) * C(n, k)`.
pub proof fn lemma_binom_absorb(n: nat, k: nat)
    ensures
        (k + 1) * binom(n, k + 1) == (n - k) * binom(n, k),
    decreases n,
{
    if n == 0 {
        assert(binom(0, k + 1) == 0);
        if k > 0 {
            lemma_binom_zero_above(0, k);
        }
        assert((k + 1) * binom(n, k + 1) == 0) by (nonlinear_arith)
            requires binom(n, k + 1) == 0;
        assert((n - k) * binom(n, k) == 0) by (nonlinear_arith)
            requires n == 0, k > 0 ==> binom(n, k) == 0;
    } else {
        let m = (n - 1) as nat;
        lemma_binom_absorb(m, k);
        let b_m_k = binom(m, k);
        let b_m_k1 = binom(m, k + 1);
        assert(binom(n, k + 1) == b_m_k + b_m_k1);
        if k == 0 {
            assert(binom(m, 0) == 1);
            assert(b_m_k1 == m) by (nonlinear_arith)
                requires (k + 1) * b_m_k1 == (m - k) * b_m_k, k == 0, b_m_k == 1;
            assert(binom(n, 0) == 1);
            assert((k + 1) * binom(n, k + 1) == (n - k) * binom(n, k)) by (nonlinear_arith)
                requires binom(n, k + 1) == b_m_k + b_m_k1, b_m_k == 1, b_m_k1 == m, m == n - 1, k == 0, binom(n, k) == 1;
        } else {
            let km1 = (k - 1) as nat;
            lemma_binom_absorb(m, km1);
            let b_m_km1 = binom(m, km1);
            assert(binom(n, k) == b_m_km1 + b_m_k);
            assert(km1 + 1 == k);
            assert((k + 1) * binom(n, k + 1) == (n - k) * binom(n, k)) by (nonlinear_arith)
                requires
                    binom(n, k + 1) == b_m_k + b_m_k1,
                    binom(n, k) == b_m_km1 + b_m_k,
                    (k + 1) * b_m_k1 == (m - k) * b_m_k,
                    (km1 + 1) * binom(m, km1 + 1) == (m - km1) * b_m_km1,
                    binom(m, km1 + 1) == b_m_k,
                    km1 + 1 == k,
                    m == n - 1;
        }
    }
}

/// Pascal's triangle is symmetric: `C(n, k) == C(n, n - k)`.
pub proof fn lemma_binom_symmetric(n: nat, k: nat)
    requires
        k <= n,
    ensures
        binom(n, k) == binom(n, (n - k) as nat),
    decreases n,
{
    if k == 0 {
        lemma_binom_diagonal(n);
    } else if k == n {
        lemma_binom_diagonal(n);
    } else {
        let m = (n - 1) as nat;
        lemma_binom_symmetric(m, (k - 1) as nat);
        lemma_binom_symmetric(m, k);
        assert(binom(n, (n - k) as nat) == binom(m, (n - k - 1) as nat) + binom(m, (n - k) as nat));
    }
}

/// Combinations are permutations up to order: `C(n, k) * k! == P(n, k)`.
pub proof fn lemma_binom_falling(n: nat, k: nat)
    ensures
        binom(n, k) * spec_factorial(k) == falling(n as int, k),
    decreases k,
{
    if k == 0 {
        assert(binom(n, 0) == 1);
        assert(spec_factorial(0) == 1);
        assert(falling(n as int, 0) == 1);
    } else {
        let j = (k - 1) as nat;
        lemma_binom_falling(n, j);
        lemma_binom_absorb(n, j);
        let b = binom(n, j);
        let b1 = binom(n, k);
        let f = spec_factorial(j);
        assert(spec_factorial(k) == k * f);
        assert(falling(n as int, k) == falling(n as int, j) * (n - j));
        assert(b1 * spec_factorial(k) == falling(n as int, k)) by (nonlinear_arith)
            requires
                spec_factorial(k) == k * f,
                falling(n as int, k) == falling(n as int, j) * (n - j),
                b * f == falling(n as int, j),
                (j + 1) * b1 == (n - j) * b,
                k == j + 1,
        ;
    }
}

/// Permutations count orderings: `P(n, k) * (n - k)! == n!` for `k <= n`.
pub proof fn lemma_falling_factorial(n: nat, k: nat)
    requires
        k <= n,
    ensures
        falling(n as int, k) * spec_factorial((n - k) as nat) == spec_factorial(n),
    decreases k,
{
    if k > 0 {
        let j = (k - 1) as nat;
        lemma_falling_factorial(n, j);
        let r = (n - k) as nat;
        assert(spec_factorial((n - j) as nat) == (n - j) * spec_factorial(r));
        assert(falling(n as int, k) == falling(n as int, j) * (n - j));
        assert(falling(n as int, k) * spec_factorial(r) == spec_factorial(n)) by (nonlinear_arith)
            requires
                spec_factorial((n - j) as nat) == (n - j) * spec_factorial(r),
                falling(n as int, k) == falling(n as int, j) * (n - j),
                falling(n as int, j) * spec_factorial((n - j) as nat) == spec_factorial(n),
        ;
    }
}

proof fn lemma_stirling_zero_above(n: nat, k: nat)
    requires
        k > n,
    ensures
        stirling2(n, k) == 0,
    decreases n,
{
    if n > 0 {
        lemma_stirling_zero_above((n - 1) as nat, k);
        lemma_stirling_zero_above((n - 1) as nat, (k - 1) as nat);
        assert(stirling2(n, k) == k * stirling2((n - 1) as nat, k) + stirling2((n - 1) as nat, (k - 1) as nat));
        assert(k * stirling2((n - 1) as nat, k) == 0) by (nonlinear_arith)
            requires stirling2((n - 1) as nat, k) == 0;
    }
}

/// The number of `k`-permutations of `n`, `n * (n - 1) * ... * (n - k + 1)`:
/// one for `k == 0`, zero for `k > n`. A `k` beyond `MAX_PERMUTATION_K` (or
/// one that is not a `u64`) is an overflow.
pub fn perm(n: &BigInt, k: &BigInt) -> (r: Result<BigInt, CalcError>)
    ensures
        k@ == 0 ==> (r matches Ok(v) && v@ == 1),
        k@ != 0 && k@ > n@ ==> (r matches Ok(v) && v@ == 0),
        k@ != 0 && k@ <= n@ && (k@ < 0 || k@ > MAX_PERMUTATION_K) ==> (r matches Err(e) && e.kind == ErrorKind::Overflow),
        0 < k@ <= n@ && k@ <= MAX_PERMUTATION_K ==> (r matches Ok(v) && v@ == falling(n@, k@ as nat)),
{
    if k.is_zero() {
        return Ok(BigInt::one());
    }
    if n.less_than(k) {
        return Ok(BigInt::zero());
    }
    let k_u64 = match k.to_u64() {
        Some(v) => v,
        None => {
            return Err(CalcError::overflow());
        },
    };
    if k_u64 > MAX_PERMUTATION_K {
        return Err(CalcError::overflow());
    }
    let mut result = BigInt::one();
    let mut current = n.clone();
    let one = BigInt::one();
    let mut i: u64 = 0;
    while i < k_u64
        invariant
            i <= k_u64,
            one@ == 1,
            result@ == falling(n@, i as nat),
            current@ == n@ - i,
        decreases k_u64 - i,
    {
        result = result.times(&current);
        current = current.minus(&one);
        i = i + 1;
    }
    Ok(result)
}

/// The binomial coefficient `C(n, k)`: one for `k == 0` or `k == n`, zero for
/// `k > n`. It multiplies and divides along the smaller of `k` and `n - k`;
/// when that is beyond `MAX_PERMUTATION_K` (or not a `u64`) it is an overflow.
pub fn comb(n: &BigInt, k: &BigInt) -> (r: Result<BigInt, CalcError>)
    ensures
        k@ == 0 || k@ == n@ ==> (r matches Ok(v) && v@ == 1),
        k@ != 0 && k@ != n@ && k@ > n@ ==> (r matches Ok(v) && v@ == 0),
        k@ != 0 && k@ < n@ && (k@ < 0 || (if k@ < n@ - k@ { k@ } else { n@ - k@ }) > MAX_PERMUTATION_K)
            ==> (r matches Err(e) && e.kind == ErrorKind::Overflow),
        0 < k@ < n@ && (if k@ < n@ - k@ { k@ } else { n@ - k@ }) <= MAX_PERMUTATION_K
            ==> (r matches Ok(v) && v@ == binom(n@ as nat, k@ as nat)),
{
    if k.is_zero() || k.equals(n) {
        return Ok(BigInt::one());
    }
    if n.less_than(k) {
        return Ok(BigInt::zero());
    }
    let n_minus_k = n.minus(k);
    let k_opt = if k.less_than(&n_minus_k) { k.clone() } else { n_minus_k };
    let k_u64 = match k_opt.to_u64() {
        Some(v) => v,
        None => {
            return Err(CalcError::overflow());
        },
    };
    if k_u64 > MAX_PERMUTATION_K {
        return Err(CalcError::overflow());
    }
    proof {
        if k@ > 0 && k_opt@ == n@ - k@ {
            lemma_binom_symmetric(n@ as nat, k@ as nat);
        }
    }
    let mut result = BigInt::one();
    let mut current = n.clone();
    let one = BigInt::one();
    let mut i: u64 = 0;
    while i < k_u64
        invariant
            0 < k@ < n@,
            k_u64 < n@,
            i <= k_u64,
            one@ == 1,
            result@ == binom(n@ as nat, i as nat) as int,
            current@ == n@ - i,
        decreases k_u64 - i,
    {
        let prod = result.times(&current);
        let divisor = BigInt::from_u64(i + 1);
        proof {
            lemma_binom_absorb(n@ as nat, i as nat);
            let b1 = binom(n@ as nat, (i + 1) as nat);
            assert(prod@ == b1 * (i + 1)) by (nonlinear_arith)
                requires
                    prod@ == result@ * current@,
                    current@ == n@ - i,
                    result@ == binom(n@ as nat, i as nat),
                    (i + 1) * b1 == (n@ - i) * binom(n@ as nat, i as nat);
            lemma_trunc_nonneg(prod@, (i + 1) as int);
            lemma_div_multiples_vanish(b1 as int, (i + 1) as int);
            assert(prod@ == (i + 1) * b1) by (nonlinear_arith)
                requires prod@ == b1 * (i + 1);
        }
        result = prod.div_trunc(&divisor);
        current = current.minus(&one);
        i = i + 1;
    }
    Ok(result)
}

/// The `n`-th Catalan number `C(2n, n) / (n + 1)`: one for `n == 0`; an `n`
/// beyond `MAX_CATALAN_N` (or not a `u64`) is an overflow.
pub fn catalan(n: &BigInt) -> (r: Result<BigInt, CalcError>)
    ensures
        n@ == 0 ==> (r matches Ok(v) && v@ == 1),
        n@ != 0 && (n@ < 0 || n@ > MAX_CATALAN_N) ==> (r matches Err(e) && e.kind == ErrorKind::Overflow),
        0 < n@ <= MAX_CATALAN_N ==> (r matches Ok(v) && v@ == catalan_number(n@ as nat)),
{
    if n.is_zero() {
        return Ok(BigInt::one());
    }
    let n_u64 = match n.to_u64() {
        Some(v) => v,
        None => {
            return Err(CalcError::overflow());
        },
    };
    if n_u64 > MAX_CATALAN_N {
        return Err(CalcError::overflow());
    }
    let two = BigInt::from_u64(2);
    let two_n = n.times(&two);
    let c_2n_n = match comb(&two_n, n) {
        Ok(c) => c,
        Err(e) => {
            return Err(e);
        },
    };
    let one = BigInt::one();
    let n_plus_1 = n.plus(&one);
    proof {
        lemma_trunc_nonneg(c_2n_n@, n_plus_1@);
    }
    Ok(c_2n_n.div_trunc(&n_plus_1))
}

/// The Stirling number of the second kind `S(n, k)`, by the recurrence
/// `S(n, k) == k * S(n - 1, k) + S(n - 1, k - 1)` computed row by row.
/// `S(0, 0) == 1`; a zero `n` or `k` (not both) and `k > n` give zero; an
/// `n` or `k` beyond `MAX_CATALAN_N` (or not a `u64`) is an overflow.
pub fn stirling_second(n: &BigInt, k: &BigInt) -> (r: Result<BigInt, CalcError>)
    ensures
        n@ == 0 && k@ == 0 ==> (r matches Ok(v) && v@ == 1),
        (n@ == 0) != (k@ == 0) ==> (r matches Ok(v) && v@ == 0),
        n@ != 0 && k@ != 0 && k@ > n@ ==> (r matches Ok(v) && v@ == 0),
        n@ != 0 && k@ != 0 && k@ <= n@ && (k@ < 0 || n@ > MAX_CATALAN_N)
            ==> (r matches Err(e) && e.kind == ErrorKind::Overflow),
        0 < k@ <= n@ <= MAX_CATALAN_N ==> (r matches Ok(v) && v@ == stirling2(n@ as nat, k@ as nat)),
{
    if n.is_zero() && k.is_zero() {
        return Ok(BigInt::one());
    }
    if n.is_zero() || k.is_zero() {
        return Ok(BigInt::zero());
    }
    if n.less_than(k) {
        return Ok(BigInt::zero());
    }
    let n_u64 = match n.to_u64() {
        Some(v) => v,
        None => {
            return Err(CalcError::overflow());
        },
    };
    let k_u64 = match k.to_u64() {
        Some(v) => v,
        None => {
            return Err(CalcError::overflow());
        },
    };
    if n_u64 > MAX_CATALAN_N || k_u64 > MAX_CATALAN_N {
        return Err(CalcError::overflow());
    }
    let nn = n_u64 as usize;
    let kk = k_u64 as usize;
    // row 0: S(0, j)
    let mut prev: Vec<BigInt> = Vec::new();
    prev.push(BigInt::one());
    let mut j: usize = 1;
    while j <= kk
        invariant
            1 <= j <= kk + 1,
            kk <= MAX_CATALAN_N,
            prev@.len() == j,
            forall|t: int| 0 <= t < j ==> (#[trigger] prev@[t])@ == stirling2(0, t as nat),
        decreases kk + 1 - j,
    {
        prev.push(BigInt::zero());
        j = j + 1;
    }
    let mut i: usize = 1;
    while i <= nn
        invariant
            1 <= i <= nn + 1,
            nn <= MAX_CATALAN_N,
            kk <= MAX_CATALAN_N,
            prev@.len() == kk + 1,
            forall|t: int| 0 <= t <= kk ==> (#[trigger] prev@[t])@ == stirling2((i - 1) as nat, t as nat),
        decreases nn + 1 - i,
    {
        let mut cur: Vec<BigInt> = Vec::new();
        cur.push(BigInt::zero());
        let mut j: usize = 1;
        while j <= kk
            invariant
                1 <= i <= nn,
                1 <= j <= kk + 1,
                kk <= MAX_CATALAN_N,
                prev@.len() == kk + 1,
                cur@.len() == j,
                forall|t: int| 0 <= t <= kk ==> (#[trigger] prev@[t])@ == stirling2((i - 1) as nat, t as nat),
                forall|t: int| 0 <= t < j ==> (#[trigger] cur@[t])@ == stirling2(i as nat, t as nat),
            decreases kk + 1 - j,
        {
            if j > i {
                proof {
                    lemma_stirling_zero_above(i as nat, j as nat);
                }
                cur.push(BigInt::zero());
                proof {
                    assert(cur@[j as int]@ == stirling2(i as nat, j as nat));
                }
            } else {
                let w = BigInt::from_u64(j as u64);
                let scaled = prev[j].times(&w);
                let v = prev[j - 1].plus(&scaled);
                proof {
                    assert(prev@[j as int]@ == stirling2((i - 1) as nat, j as nat));
                    assert(prev@[j - 1]@ == stirling2((i - 1) as nat, (j - 1) as nat));
                    assert(stirling2(i as nat, j as nat) == j * stirling2((i - 1) as nat, j as nat) + stirling2((i - 1) as nat, (j - 1) as nat));
                    assert(scaled@ == stirling2((i - 1) as nat, j as nat) * j);
                    assert(stirling2((i - 1) as nat, j as nat) * j == j * stirling2((i - 1) as nat, j as nat)) by (nonlinear_arith);
                    assert(v@ == stirling2(i as nat, j as nat));
                }
                cur.push(v);
                proof {
                    assert(cur@[j as int]@ == stirling2(i as nat, j as nat));
                }
            }
            j = j + 1;
        }
        prev = cur;
        i = i + 1;
    }
    Ok(prev[kk].clone())
}

} // verus!
