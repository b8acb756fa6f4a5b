use calnexus::bigint::BigInt;
use calnexus::error::ErrorKind;
use calnexus::number_theory::{
    crt, discrete_log_from_estimate, euler_phi, gcd, is_prime, lcm, mod_inverse, mod_pow, prime_sieve,
};

fn b(v: i64) -> BigInt {
    BigInt::from_i64(v)
}

/// The discrete logarithm with the square-root estimate a binary64 gives for
/// the modulus.
fn discrete_log(g: &BigInt, h: &BigInt, p: &BigInt) -> Result<BigInt, calnexus::error::CalcError> {
    let v = p.abs().to_u64().unwrap_or(u64::MAX);
    let estimate = (v as f64).sqrt() as u64;
    discrete_log_from_estimate(g, h, p, estimate.max(1))
}

#[test]
fn test_gcd_basic() {
    assert_eq!(gcd(&b(12), &b(18)), b(6));
}

#[test]
fn test_gcd_negative() {
    assert_eq!(gcd(&b(-12), &b(18)), b(6));
}

#[test]
fn test_gcd_both_negative() {
    assert_eq!(gcd(&b(-12), &b(-18)), b(6));
}

#[test]
fn test_gcd_zero() {
    assert_eq!(gcd(&b(0), &b(5)), b(5));
}

#[test]
fn test_gcd_both_zero() {
    assert_eq!(gcd(&b(0), &b(0)), b(0));
}

#[test]
fn test_lcm_basic() {
    assert_eq!(lcm(&b(4), &b(6)), b(12));
}

#[test]
fn test_lcm_zero() {
    assert_eq!(lcm(&b(0), &b(5)), b(0));
}

#[test]
fn test_lcm_negative() {
    assert_eq!(lcm(&b(-4), &b(6)), b(12));
}

#[test]
fn test_is_prime_small() {
    assert!(is_prime(&b(7)));
    assert!(!is_prime(&b(9)));
}

#[test]
fn test_is_prime_boundaries() {
    assert!(!is_prime(&b(0)));
    assert!(!is_prime(&b(1)));
    assert!(is_prime(&b(2)));
    assert!(is_prime(&b(3)));
    assert!(!is_prime(&b(4)));
}

#[test]
fn test_is_prime_large() {
    assert!(is_prime(&b(1_000_000_007)));
    assert!(!is_prime(&b(1_000_000_008)));
}

#[test]
fn test_is_prime_negative() {
    assert!(!is_prime(&b(-7)));
}

#[test]
fn test_is_prime_huge() {
    let two = b(2);
    let mut p = b(1);
    for _ in 0..127 {
        p = p.times(&two);
    }
    let p = p.minus(&b(1));
    assert!(is_prime(&p));
}

#[test]
fn test_prime_sieve_basic() {
    assert_eq!(prime_sieve(&b(20)).unwrap(), vec![2, 3, 5, 7, 11, 13, 17, 19]);
}

#[test]
fn test_prime_sieve_boundary() {
    assert!(prime_sieve(&b(1)).unwrap().is_empty());
    assert_eq!(prime_sieve(&b(2)).unwrap(), vec![2]);
}

#[test]
fn test_prime_sieve_zero() {
    assert!(prime_sieve(&b(0)).unwrap().is_empty());
}

#[test]
fn test_prime_sieve_negative() {
    assert!(prime_sieve(&b(-5)).is_err());
}

#[test]
fn test_mod_inverse_basic() {
    let inv = mod_inverse(&b(3), &b(11)).unwrap();
    assert_eq!(inv.times(&b(3)).rem_trunc(&b(11)), b(1));
}

#[test]
fn test_mod_inverse_negative() {
    let inv = mod_inverse(&b(-3), &b(11)).unwrap();
    let check = inv.times(&b(-3)).rem_trunc(&b(11)).plus(&b(11)).rem_trunc(&b(11));
    assert_eq!(check, b(1));
}

#[test]
fn test_mod_inverse_not_coprime() {
    assert!(mod_inverse(&b(2), &b(4)).is_err());
}

#[test]
fn test_mod_inverse_zero_modulus() {
    assert!(mod_inverse(&b(3), &b(0)).is_err());
}

#[test]
fn test_mod_pow_basic() {
    let r = mod_pow(&b(2), &b(10), &b(1000)).unwrap();
    assert_eq!(r, b(24));
}

#[test]
fn test_mod_pow_zero_exp() {
    let r = mod_pow(&b(5), &b(0), &b(7)).unwrap();
    assert_eq!(r, b(1));
}

#[test]
fn test_mod_pow_negative_exp() {
    assert!(mod_pow(&b(2), &b(-1), &b(100)).is_err());
}

#[test]
fn test_mod_pow_zero_modulus() {
    assert!(mod_pow(&b(2), &b(10), &b(0)).is_err());
}

#[test]
fn test_mod_pow_modulus_one() {
    let r = mod_pow(&b(5), &b(3), &b(1)).unwrap();
    assert_eq!(r, b(0));
}

#[test]
fn test_euler_phi_one() {
    assert_eq!(euler_phi(&b(1)), b(1));
}

#[test]
fn test_euler_phi_ten() {
    assert_eq!(euler_phi(&b(10)), b(4));
}

#[test]
fn test_euler_phi_prime() {
    assert_eq!(euler_phi(&b(7)), b(6));
}

#[test]
fn test_euler_phi_twelve() {
    assert_eq!(euler_phi(&b(12)), b(4));
}

#[test]
fn test_euler_phi_zero() {
    assert_eq!(euler_phi(&b(0)), b(0));
}

#[test]
fn test_euler_phi_of_primes_is_one_less() {
    for p in [2i64, 3, 13, 97, 7919] {
        assert_eq!(euler_phi(&b(p)), b(p - 1));
    }
}

#[test]
fn test_euler_phi_negative_and_prime_powers() {
    assert_eq!(euler_phi(&b(-10)), b(4));
    assert_eq!(euler_phi(&b(36)), b(12));
    assert_eq!(euler_phi(&b(1024)), b(512));
    assert_eq!(euler_phi(&b(2 * 3 * 5 * 7 * 11 * 13)), b(1 * 2 * 4 * 6 * 10 * 12));
}

#[test]
fn test_crt_classic() {
    let r = vec![b(2), b(3), b(2)];
    let m = vec![b(3), b(5), b(7)];
    assert_eq!(crt(&r, &m).unwrap(), b(23));
}

#[test]
fn test_crt_single() {
    let r = vec![b(3)];
    let m = vec![b(7)];
    assert_eq!(crt(&r, &m).unwrap(), b(3));
}

#[test]
fn test_crt_non_coprime_compatible() {
    let r = vec![b(1), b(3)];
    let m = vec![b(2), b(4)];
    assert_eq!(crt(&r, &m).unwrap(), b(3));
}

#[test]
fn test_crt_incompatible() {
    let r = vec![b(0), b(1)];
    let m = vec![b(2), b(4)];
    assert!(crt(&r, &m).is_err());
}

#[test]
fn test_crt_empty() {
    assert!(crt(&[], &[]).is_err());
}

// ----- further cases -----

#[test]
fn gcd_of_large_values_is_the_common_factor() {
    let two = b(2);
    let mut p = b(1);
    for _ in 0..100 {
        p = p.times(&two);
    }
    let a = p.times(&b(3));
    let c = p.times(&b(5));
    assert_eq!(gcd(&a, &c), p);
    assert_eq!(lcm(&a, &c), p.times(&b(15)));
}

#[test]
fn lcm_times_gcd_is_the_product() {
    for (x, y) in [(4i64, 6i64), (21, 6), (17, 5), (100, 75)] {
        let g = gcd(&b(x), &b(y));
        let l = lcm(&b(x), &b(y));
        assert_eq!(g.times(&l), b(x * y));
    }
}

#[test]
fn prime_sieve_rejects_bounds_above_the_limit() {
    let e = prime_sieve(&b(10_000_001)).unwrap_err();
    assert_eq!(e.kind, ErrorKind::Overflow);
    let e = prime_sieve(&b(-1)).unwrap_err();
    assert_eq!(e.kind, ErrorKind::Domain);
    assert_eq!(prime_sieve(&b(30)).unwrap(), vec![2, 3, 5, 7, 11, 13, 17, 19, 23, 29]);
}

#[test]
fn mod_pow_reduces_negative_bases() {
    assert_eq!(mod_pow(&b(-2), &b(3), &b(5)).unwrap(), b(2));
    assert_eq!(mod_pow(&b(3), &b(4), &b(-7)).unwrap(), b(4));
    assert_eq!(mod_pow(&b(2), &b(10), &b(0)).unwrap_err().kind, ErrorKind::DivisionByZero);
    assert_eq!(mod_pow(&b(2), &b(-1), &b(7)).unwrap_err().kind, ErrorKind::Domain);
}

#[test]
fn mod_inverse_errors_and_values() {
    assert_eq!(mod_inverse(&b(3), &b(11)).unwrap(), b(4));
    assert_eq!(mod_inverse(&b(5), &b(1)).unwrap(), b(0));
    let e = mod_inverse(&b(6), &b(9)).unwrap_err();
    assert_eq!(e.kind, ErrorKind::Domain);
    assert_eq!(e.message, "mod_inverse: 6 and 9 are not coprime");
    assert_eq!(mod_inverse(&b(3), &b(0)).unwrap_err().kind, ErrorKind::DivisionByZero);
}

#[test]
fn crt_single_negative_modulus_gives_least_non_negative() {
    let r = vec![b(2)];
    let m = vec![b(-3)];
    assert_eq!(crt(&r, &m).unwrap(), b(2));
    assert_eq!(crt(&[b(-7)], &[b(-3)]).unwrap(), b(2));
    assert_eq!(crt(&[b(1), b(3)], &[b(2), b(4)]).unwrap(), b(3));
    assert!(crt(&[b(0), b(1)], &[b(2), b(4)]).is_err());
}

#[test]
fn crt_messages_name_the_failure() {
    let e = crt(&[b(0), b(1)], &[b(2), b(4)]).unwrap_err();
    assert_eq!(e.message, "crt(): incompatible congruences at index 1 (gcd=2 does not divide diff=1)");
    let e = crt(&[b(1)], &[b(2), b(3)]).unwrap_err();
    assert_eq!(e.message, "crt(): remainders and moduli length mismatch");
    let e = crt(&[b(1), b(2)], &[b(2), b(0)]).unwrap_err();
    assert_eq!(e.message, "crt(): zero modulus");
}

#[test]
fn crt_solution_satisfies_every_congruence() {
    let r = vec![b(1), b(2), b(3), b(-4)];
    let m = vec![b(4), b(9), b(-5), b(7)];
    let x = crt(&r, &m).unwrap();
    for i in 0..4 {
        let mm = m[i].abs();
        let lhs = x.rem_trunc(&mm).plus(&mm).rem_trunc(&mm);
        let rhs = r[i].rem_trunc(&mm).plus(&mm).rem_trunc(&mm);
        assert_eq!(lhs, rhs);
    }
    assert!(!x.is_negative());
    assert!(x.less_than(&b(4 * 9 * 5 * 7)));
}

#[test]
fn euler_phi_of_composites() {
    assert_eq!(euler_phi(&b(36)), b(12));
    assert_eq!(euler_phi(&b(-9)), b(6));
    assert_eq!(euler_phi(&b(97)), b(96));
    assert_eq!(euler_phi(&b(1000)), b(400));
}

#[test]
fn is_prime_on_carmichael_and_large_values() {
    assert!(!is_prime(&b(561)));
    assert!(!is_prime(&b(1_000_000_007 * 3)));
    assert!(is_prime(&b(2_147_483_647)));
    let two = b(2);
    let mut p = b(1);
    for _ in 0..89 {
        p = p.times(&two);
    }
    assert!(is_prime(&p.minus(&b(1))));
    assert!(!is_prime(&p.plus(&b(1))));
}

#[test]
fn test_discrete_log_basic() {
    let x = discrete_log(&b(2), &b(8), &b(11)).unwrap();
    assert_eq!(x, b(3));
}

#[test]
fn test_discrete_log_large() {
    let x = discrete_log(&b(2), &b(5), &b(13)).unwrap();
    assert_eq!(mod_pow(&b(2), &x, &b(13)).unwrap(), b(5));
}

#[test]
fn test_discrete_log_zero_base() {
    assert!(discrete_log(&b(0), &b(1), &b(7)).is_err());
}

#[test]
fn test_discrete_log_non_prime_mod() {
    assert!(discrete_log(&b(2), &b(1), &b(4)).is_err());
}

#[test]
fn discrete_log_errors_and_solutions() {
    assert_eq!(discrete_log(&b(3), &b(1), &b(0)).unwrap_err().kind, ErrorKind::DivisionByZero);
    let e = discrete_log(&b(3), &b(1), &b(15)).unwrap_err();
    assert_eq!(e.message, "discrete_log(): modulus 15 is not prime");
    // 2 generates the units modulo 101: every residue has a logarithm
    for h in 1..101i64 {
        let x = discrete_log(&b(2), &b(h), &b(101)).unwrap();
        assert_eq!(mod_pow(&b(2), &x, &b(101)).unwrap(), b(h));
    }
    // 4 is a square modulo 7, 3 is not: 2^x is never 3 modulo 7
    let e = discrete_log(&b(2), &b(3), &b(7)).unwrap_err();
    assert_eq!(e.message, "discrete_log(): no solution found");
    // a base that is a multiple of the modulus has no inverse power
    let e = discrete_log(&b(7), &b(1), &b(7)).unwrap_err();
    assert_eq!(e.message, "discrete_log(): base not invertible mod p");
}

#[test]
fn crt_gives_the_least_non_negative_solution() {
    // x == 1 (mod 4), x == 3 (mod 6): the solutions are 9 + 12k.
    let r = vec![b(1), b(3)];
    let m = vec![b(4), b(6)];
    assert_eq!(crt(&r, &m).unwrap(), b(9));
    // Negative remainders and moduli describe the same system.
    let r = vec![b(-3), b(-3)];
    let m = vec![b(-4), b(6)];
    assert_eq!(crt(&r, &m).unwrap(), b(9));
    // x == 0 (mod 5), x == 0 (mod 7): the least non-negative solution is 0.
    assert_eq!(crt(&[b(0), b(0)], &[b(5), b(7)]).unwrap(), b(0));
}

#[test]
fn discrete_log_gives_the_least_exponent() {
    // 3 has order 3 modulo 13, so the baby steps 3^0 and 3^3 share a residue
    assert_eq!(discrete_log(&b(3), &b(1), &b(13)).unwrap(), b(0));
    assert_eq!(discrete_log(&b(3), &b(3), &b(13)).unwrap(), b(1));
    assert_eq!(discrete_log(&b(3), &b(9), &b(13)).unwrap(), b(2));
    // 2 has order 3 modulo 7
    assert_eq!(discrete_log(&b(2), &b(4), &b(7)).unwrap(), b(2));
    assert_eq!(discrete_log(&b(2), &b(8), &b(11)).unwrap(), b(3));
}

#[test]
fn discrete_log_from_a_poor_estimate() {
    assert_eq!(discrete_log_from_estimate(&b(2), &b(8), &b(11), 1).unwrap(), b(3));
    assert_eq!(discrete_log_from_estimate(&b(2), &b(8), &b(11), 1_000_000).unwrap(), b(3));
    // 5 generates the units modulo 10^9 + 7
    let p = b(1_000_000_007);
    let h = mod_pow(&b(5), &b(12345), &p).unwrap();
    assert_eq!(discrete_log_from_estimate(&b(5), &h, &p, 1).unwrap(), b(12345));
}

#[test]
fn discrete_log_modulus_beyond_the_table_is_an_overflow() {
    let two = b(2);
    let mut p = b(1);
    for _ in 0..521 {
        p = p.times(&two);
    }
    let p = p.minus(&b(1));
    let e = discrete_log(&b(3), &b(5), &p).unwrap_err();
    assert_eq!(e.kind, ErrorKind::Overflow);
}

#[test]
fn integers_compare_by_value() {
    assert_eq!(b(3).minus(&b(3)), b(0));
    assert_eq!(b(-2).times(&b(0)), b(0));
    assert_eq!(b(-7).plus(&b(7)), BigInt::from_u64(0));
    assert_ne!(b(-1), b(1));
}
