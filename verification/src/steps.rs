//! Pieces of the step-by-step evaluation display that do not compute.

use vstd::prelude::*;
use crate::ast::BinaryOp;
use crate::text::chars_of;
use crate::number_theory::{spec_gcd, spec_lcm, abs_int, lemma_gcd_positive};

verus! {

/// The symbol of a binary operator as it appears in a step.
pub open spec fn spec_binary_op_str(op: BinaryOp) -> Seq<char> {
    match op {
        BinaryOp::Add => "+"@,
        BinaryOp::Sub => "-"@,
        BinaryOp::Mul => "*"@,
        BinaryOp::Div => "/"@,
        BinaryOp::Pow => "^"@,
        BinaryOp::Mod => "%"@,
    }
}

/// The symbol of a binary operator as it appears in a step (`2+3=5`).
pub fn binary_op_str(op: BinaryOp) -> (s: &'static str)
    ensures
        s@ == spec_binary_op_str(op),
{
    match op {
        BinaryOp::Add => "+",
        BinaryOp::Sub => "-",
        BinaryOp::Mul => "*",
        BinaryOp::Div => "/",
        BinaryOp::Pow => "^",
        BinaryOp::Mod => "%",
    }
}

/// The seven characters of `s` from position `i` are all `c`.
pub open spec fn run_from(s: Seq<char>, i: int, c: char) -> bool {
    0 <= i && i + 7 <= s.len() && forall|k: int| 0 <= k < 7 ==> #[trigger] s[i + k] == c
}

/// `s` holds seven consecutive copies of `c`.
pub open spec fn has_run_of_seven(s: Seq<char>, c: char) -> bool {
    exists|i: int| #[trigger] run_from(s, i, c)
}

fn run_at(cs: &Vec<char>, i: usize, c: char) -> (r: bool)
    requires
        i + 7 <= cs@.len(),
    ensures
        r == forall|k: int| 0 <= k < 7 ==> #[trigger] cs@[i + k] == c,
{
    let n = cs.len();
    let mut k: usize = 0;
    while k < 7
        invariant
            n == cs@.len(),
            i + 7 <= cs@.len(),
            k <= 7,
            forall|j: int| 0 <= j < k ==> #[trigger] cs@[i + j] == c,
        decreases 7 - k,
    {
        if cs[i + k] != c {
            return false;
        }
        k = k + 1;
    }
    true
}

/// Whether a printed decimal shows floating-point noise: seven consecutive
/// `0`s or seven consecutive `9`s (as in `0.30000000000000004`).
pub fn has_floating_point_noise(s: &str) -> (r: bool)
    ensures
        r == (has_run_of_seven(s@, '0') || has_run_of_seven(s@, '9')),
{
    let cs = chars_of(s);
    if cs.len() < 7 {
        proof {
            assert forall|j: int| !#[trigger] run_from(s@, j, '0') by {}
            assert forall|j: int| !#[trigger] run_from(s@, j, '9') by {}
        }
        return false;
    }
    let last = cs.len() - 6;
    let mut i: usize = 0;
    while i < last
        invariant
            cs@ == s@,
            last == cs@.len() - 6,
            i <= last,
            forall|j: int| 0 <= j < i ==> !#[trigger] run_from(s@, j, '0'),
            forall|j: int| 0 <= j < i ==> !#[trigger] run_from(s@, j, '9'),
        decreases cs@.len() - i,
    {
        if run_at(&cs, i, '0') || run_at(&cs, i, '9') {
            assert(run_from(s@, i as int, '0') || run_from(s@, i as int, '9'));
            return true;
        }
        i = i + 1;
    }
    proof {
        assert forall|j: int| !#[trigger] run_from(s@, j, '0') by {
            if 0 <= j && j < i {
            }
        }
        assert forall|j: int| !#[trigger] run_from(s@, j, '9') by {
            if 0 <= j && j < i {
            }
        }
    }
    false
}

/// The greatest common divisor of the magnitudes of two machine integers,
/// by Euclid's algorithm; `gcd(0, 0) == 0`. (The magnitude of `i64::MIN` is
/// not an `i64`.)
pub fn gcd_i64(a: i64, b: i64) -> (r: i64)
    requires
        a != i64::MIN,
        b != i64::MIN,
    ensures
        r >= 0,
        r == spec_gcd(abs_int(a as int), abs_int(b as int)),
{
    let mut x: i64 = if a < 0 { -a } else { a };
    let mut y: i64 = if b < 0 { -b } else { b };
    while y != 0
        invariant
            x >= 0,
            y >= 0,
            spec_gcd(x as nat, y as nat) == spec_gcd(abs_int(a as int), abs_int(b as int)),
        decreases y,
    {
        let t = y;
        y = x % y;
        x = t;
    }
    x
}

/// The least common multiple of the magnitudes of two machine integers: zero
/// when either is zero, else `|a| / gcd(a, b) * |b|`, which must fit in an `i64`.
pub fn lcm_i64(a: i64, b: i64) -> (r: i64)
    requires
        a != i64::MIN,
        b != i64::MIN,
        spec_lcm(abs_int(a as int), abs_int(b as int)) <= i64::MAX,
    ensures
        r == spec_lcm(abs_int(a as int), abs_int(b as int)),
{
    if a == 0 || b == 0 {
        return 0;
    }
    let g = gcd_i64(a, b);
    let x: i64 = if a < 0 { -a } else { a };
    let y: i64 = if b < 0 { -b } else { b };
    proof {
        lemma_gcd_positive(x as nat, y as nat);
    }
    let q = x / g;
    proof {
        assert(q * y == spec_lcm(x as nat, y as nat));
    }
    q * y
}

} // verus!
