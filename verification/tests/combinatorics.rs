use calnexus::bigint::BigInt;
use calnexus::combinatorics::{catalan, comb, perm, stirling_second};
use calnexus::error::ErrorKind;

fn b(v: i64) -> BigInt {
    BigInt::from_i64(v)
}

#[test]
fn test_perm_basic() {
    assert_eq!(perm(&b(5), &b(2)).unwrap(), b(20));
}

#[test]
fn test_perm_k_zero() {
    assert_eq!(perm(&b(5), &b(0)).unwrap(), b(1));
}

#[test]
fn test_perm_k_greater_than_n() {
    assert_eq!(perm(&b(3), &b(5)).unwrap(), b(0));
}

#[test]
fn test_perm_n_equals_k() {
    assert_eq!(perm(&b(5), &b(5)).unwrap(), b(120));
}

#[test]
fn test_comb_basic() {
    assert_eq!(comb(&b(10), &b(3)).unwrap(), b(120));
}

#[test]
fn test_comb_k_zero() {
    assert_eq!(comb(&b(5), &b(0)).unwrap(), b(1));
}

#[test]
fn test_comb_k_equals_n() {
    assert_eq!(comb(&b(5), &b(5)).unwrap(), b(1));
}

#[test]
fn test_comb_k_greater_than_n() {
    assert_eq!(comb(&b(3), &b(5)).unwrap(), b(0));
}

#[test]
fn test_comb_symmetry() {
    assert_eq!(comb(&b(10), &b(3)).unwrap(), comb(&b(10), &b(7)).unwrap());
}

#[test]
fn test_catalan_zero() {
    assert_eq!(catalan(&b(0)).unwrap(), b(1));
}

#[test]
fn test_catalan_one() {
    assert_eq!(catalan(&b(1)).unwrap(), b(1));
}

#[test]
fn test_catalan_five() {
    assert_eq!(catalan(&b(5)).unwrap(), b(42));
}

#[test]
fn test_catalan_sequence() {
    let expected = [1, 1, 2, 5, 14, 42, 132, 429];
    for (i, &e) in expected.iter().enumerate() {
        assert_eq!(catalan(&BigInt::from_u64(i as u64)).unwrap(), b(e));
    }
}

#[test]
fn test_stirling_zero_zero() {
    assert_eq!(stirling_second(&b(0), &b(0)).unwrap(), b(1));
}

#[test]
fn test_stirling_n_zero_k_positive() {
    assert_eq!(stirling_second(&b(0), &b(5)).unwrap(), b(0));
}

#[test]
fn test_stirling_k_zero_n_positive() {
    assert_eq!(stirling_second(&b(5), &b(0)).unwrap(), b(0));
}

#[test]
fn test_stirling_k_greater_than_n() {
    assert_eq!(stirling_second(&b(2), &b(5)).unwrap(), b(0));
}

#[test]
fn test_stirling_known_values() {
    assert_eq!(stirling_second(&b(3), &b(2)).unwrap(), b(3));
    assert_eq!(stirling_second(&b(4), &b(2)).unwrap(), b(7));
    assert_eq!(stirling_second(&b(5), &b(2)).unwrap(), b(15));
    assert_eq!(stirling_second(&b(4), &b(3)).unwrap(), b(6));
}

// ----- further cases -----

#[test]
fn perm_of_negative_n_is_zero_and_large_k_overflows() {
    assert_eq!(perm(&b(-3), &b(2)).unwrap(), b(0));
    assert_eq!(perm(&b(20000), &b(10001)).unwrap_err().kind, ErrorKind::Overflow);
    assert_eq!(perm(&b(20000), &b(-1)).unwrap_err().kind, ErrorKind::Overflow);
    assert_eq!(perm(&b(10), &b(3)).unwrap(), b(720));
}

#[test]
fn comb_rows_of_pascal_and_limits() {
    let row: Vec<BigInt> = (0..=6).map(|k| comb(&b(6), &b(k)).unwrap()).collect();
    assert_eq!(row, vec![b(1), b(6), b(15), b(20), b(15), b(6), b(1)]);
    assert_eq!(comb(&b(30000), &b(29999)).unwrap(), b(30000));
    assert_eq!(comb(&b(30000), &b(15000)).unwrap_err().kind, ErrorKind::Overflow);
    assert_eq!(comb(&b(52), &b(5)).unwrap(), b(2_598_960));
}

#[test]
fn catalan_limits() {
    assert_eq!(catalan(&b(5001)).unwrap_err().kind, ErrorKind::Overflow);
    assert_eq!(catalan(&b(-1)).unwrap_err().kind, ErrorKind::Overflow);
    assert_eq!(catalan(&b(10)).unwrap(), b(16796));
}

#[test]
fn stirling_recurrence_values_and_limits() {
    assert_eq!(stirling_second(&b(10), &b(4)).unwrap(), b(34105));
    assert_eq!(stirling_second(&b(6), &b(6)).unwrap(), b(1));
    assert_eq!(stirling_second(&b(5001), &b(2)).unwrap_err().kind, ErrorKind::Overflow);
    assert_eq!(stirling_second(&b(-2), &b(-5)).unwrap_err().kind, ErrorKind::Overflow);
    assert_eq!(stirling_second(&b(-5), &b(3)).unwrap(), b(0));
}


#[test]
fn combinations_times_orderings_are_permutations() {
    let fact = |n: i64| (1..=n).product::<i64>();
    for n in 0..=12i64 {
        for k in 0..=n {
            let c = comb(&b(n), &b(k)).unwrap();
            let p = perm(&b(n), &b(k)).unwrap();
            assert_eq!(c.times(&b(fact(k))), p);
            assert_eq!(p.times(&b(fact(n - k))), b(fact(n)));
        }
    }
}
