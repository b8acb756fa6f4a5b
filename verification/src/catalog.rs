//! The function catalogue: every function name, grouped by the domain that
//! evaluates it. Command-line completion and function listing use it.

use vstd::prelude::*;
use crate::text::str_eq;

verus! {

/// The number of domains in the catalogue.
pub const DOMAIN_COUNT: usize = 15;

/// Domain `i` of the catalogue: its name and its function names.
pub open spec fn domain_at(i: int) -> (Seq<char>, Seq<Seq<char>>) {
    if i == 0 {
        ("arithmetic"@, seq!["abs"@, "mod"@, "factorial"@])
    } else if i == 1 {
        ("scientific"@, seq!["sin"@, "cos"@, "tan"@, "asin"@, "acos"@, "atan"@, "ln"@, "log"@, "exp"@, "sinh"@, "cosh"@, "tanh"@, "gamma"@, "erf"@])
    } else if i == 2 {
        ("statistics"@, seq!["mean"@, "median"@, "variance"@, "stddev"@, "sum"@, "min"@, "max"@])
    } else if i == 3 {
        ("precision"@, seq!["precision"@])
    } else if i == 4 {
        ("number_theory"@, seq!["gcd"@, "lcm"@, "is_prime"@, "prime_sieve"@, "mod_inverse"@, "mod_pow"@, "euler_phi"@])
    } else if i == 5 {
        ("combinatorics"@, seq!["P"@, "C"@, "catalan"@, "stirling"@])
    } else if i == 6 {
        ("polynomial"@, seq!["poly_add"@, "poly_sub"@, "poly_mul"@, "poly_div"@, "poly_eval"@, "poly_diff"@, "poly_integrate"@, "roots"@, "factor"@])
    } else if i == 7 {
        ("complex"@, seq!["complex"@, "re"@, "im"@, "conj"@, "magnitude"@, "phase"@])
    } else if i == 8 {
        ("matrix"@, seq!["det"@, "transpose"@, "inverse"@, "trace"@])
    } else if i == 9 {
        ("vector"@, seq!["dot"@, "cross"@, "norm"@, "angle"@, "normalize"@, "scalar_triple"@])
    } else if i == 10 {
        ("symbolic"@, seq!["diff"@, "integrate"@, "simplify"@, "limit"@, "taylor"@])
    } else if i == 11 {
        ("time"@, seq!["now"@, "today"@, "date_diff"@])
    } else if i == 12 {
        ("unit"@, seq!["convert"@])
    } else if i == 13 {
        ("fx"@, seq!["fx"@, "fx_rate"@])
    } else if i == 14 {
        ("numerical"@, seq!["lu"@, "qr"@, "eig"@, "svd"@, "solve"@, "matrix_exp"@])
    } else {
        (Seq::empty(), Seq::empty())
    }
}

/// The catalogue: each domain with its function names, in order.
pub open spec fn spec_domain_functions() -> Seq<(Seq<char>, Seq<Seq<char>>)> {
    Seq::new(DOMAIN_COUNT as nat, |i: int| domain_at(i))
}

/// The character sequences of a sequence of string slices.
pub open spec fn names_view(v: Seq<&'static str>) -> Seq<Seq<char>> {
    v.map_values(|s: &'static str| s@)
}

proof fn lemma_names_view_push(v: Seq<&'static str>, x: &'static str)
    ensures
        names_view(v.push(x)) == names_view(v).push(x@),
{
    assert(names_view(v.push(x)) =~= names_view(v).push(x@));
}

/// Domain `i` of the catalogue: its name and its function names.
pub fn domain_entry(i: usize) -> (r: (&'static str, Vec<&'static str>))
    requires
        i < DOMAIN_COUNT,
    ensures
        (r.0@, names_view(r.1@)) == domain_at(i as int),
{
    let mut v: Vec<&'static str> = Vec::new();
    let name = match i {
        0 => {
            v.push("abs");
            v.push("mod");
            v.push("factorial");
            "arithmetic"
        }
        1 => {
            v.push("sin");
            v.push("cos");
            v.push("tan");
            v.push("asin");
            v.push("acos");
            v.push("atan");
            v.push("ln");
            v.push("log");
            v.push("exp");
            v.push("sinh");
            v.push("cosh");
            v.push("tanh");
            v.push("gamma");
            v.push("erf");
            "scientific"
        }
        2 => {
            v.push("mean");
            v.push("median");
            v.push("variance");
            v.push("stddev");
            v.push("sum");
            v.push("min");
            v.push("max");
            "statistics"
        }
        3 => {
            v.push("precision");
            "precision"
        }
        4 => {
            v.push("gcd");
            v.push("lcm");
            v.push("is_prime");
            v.push("prime_sieve");
            v.push("mod_inverse");
            v.push("mod_pow");
            v.push("euler_phi");
            "number_theory"
        }
        5 => {
            v.push("P");
            v.push("C");
            v.push("catalan");
            v.push("stirling");
            "combinatorics"
        }
        6 => {
            v.push("poly_add");
            v.push("poly_sub");
            v.push("poly_mul");
            v.push("poly_div");
            v.push("poly_eval");
            v.push("poly_diff");
            v.push("poly_integrate");
            v.push("roots");
            v.push("factor");
            "polynomial"
        }
        7 => {
            v.push("complex");
            v.push("re");
            v.push("im");
            v.push("conj");
            v.push("magnitude");
            v.push("phase");
            "complex"
        }
        8 => {
            v.push("det");
            v.push("transpose");
            v.push("inverse");
            v.push("trace");
            "matrix"
        }
        9 => {
            v.push("dot");
            v.push("cross");
            v.push("norm");
            v.push("angle");
            v.push("normalize");
            v.push("scalar_triple");
            "vector"
        }
        10 => {
            v.push("diff");
            v.push("integrate");
            v.push("simplify");
            v.push("limit");
            v.push("taylor");
            "symbolic"
        }
        11 => {
            v.push("now");
            v.push("today");
            v.push("date_diff");
            "time"
        }
        12 => {
            v.push("convert");
            "unit"
        }
        13 => {
            v.push("fx");
            v.push("fx_rate");
            "fx"
        }
        14 => {
            v.push("lu");
            v.push("qr");
            v.push("eig");
            v.push("svd");
            v.push("solve");
            v.push("matrix_exp");
            "numerical"
        }
        _ => "",
    };
    assert(names_view(v@) =~= domain_at(i as int).1);
    (name, v)
}

/// The catalogue: each domain with its function names, in order.
pub fn domain_functions() -> (r: Vec<(&'static str, Vec<&'static str>)>)
    ensures
        r@.len() == DOMAIN_COUNT,
        forall|i: int| 0 <= i < DOMAIN_COUNT ==> ((#[trigger] r@[i]).0@, names_view(r@[i].1@)) == domain_at(i),
{
    let mut r: Vec<(&'static str, Vec<&'static str>)> = Vec::new();
    let mut i: usize = 0;
    while i < DOMAIN_COUNT
        invariant
            i <= DOMAIN_COUNT,
            r@.len() == i,
            forall|k: int| 0 <= k < i ==> ((#[trigger] r@[k]).0@, names_view(r@[k].1@)) == domain_at(k),
        decreases DOMAIN_COUNT - i,
    {
        r.push(domain_entry(i));
        i = i + 1;
    }
    r
}

/// The function names of the catalogue, domain by domain, in order.
pub open spec fn flat_names(n: int) -> Seq<Seq<char>>
    decreases n,
{
    if n <= 0 {
        Seq::empty()
    } else {
        flat_names(n - 1) + domain_at(n - 1).1
    }
}

/// `s` with every element after its first occurrence removed.
pub open spec fn dedup(s: Seq<Seq<char>>) -> Seq<Seq<char>>
    decreases s.len(),
{
    if s.len() == 0 {
        s
    } else {
        let r = dedup(s.drop_last());
        if r.contains(s.last()) { r } else { r.push(s.last()) }
    }
}

/// `dedup` keeps exactly the elements of its argument, each once.
pub proof fn lemma_dedup(s: Seq<Seq<char>>)
    ensures
        forall|x: Seq<char>| dedup(s).contains(x) <==> s.contains(x),
        forall|a: int, b: int| 0 <= a < b < dedup(s).len() ==> dedup(s)[a] != dedup(s)[b],
    decreases s.len(),
{
    if s.len() > 0 {
        lemma_dedup(s.drop_last());
        assert(s =~= s.drop_last().push(s.last()));
        let r = dedup(s.drop_last());
        let y = s.last();
        assert forall|x: Seq<char>| dedup(s).contains(x) <==> s.contains(x) by {
            if s.contains(x) {
                let k = choose|k: int| 0 <= k < s.len() && s[k] == x;
                if k == s.len() - 1 {
                    if !r.contains(y) {
                        assert(dedup(s)[r.len() as int] == y);
                    }
                } else {
                    assert(s.drop_last()[k] == x);
                    assert(s.drop_last().contains(x));
                    assert(r.contains(x));
                    let j = choose|j: int| 0 <= j < r.len() && r[j] == x;
                    assert(dedup(s)[j] == x);
                }
            }
            if dedup(s).contains(x) {
                let j = choose|j: int| 0 <= j < dedup(s).len() && dedup(s)[j] == x;
                if j < r.len() {
                    assert(r[j] == x);
                    assert(r.contains(x));
                    assert(s.drop_last().contains(x));
                    let k = choose|k: int| 0 <= k < s.drop_last().len() && s.drop_last()[k] == x;
                    assert(s[k] == x);
                } else {
                    assert(x == y);
                    assert(s[s.len() - 1] == x);
                }
            }
        }
    }
}

fn contains_name(names: &Vec<&'static str>, f: &'static str) -> (r: bool)
    ensures
        r == names_view(names@).contains(f@),
{
    let mut i: usize = 0;
    while i < names.len()
        invariant
            i <= names@.len(),
            forall|k: int| 0 <= k < i ==> names@[k]@ != f@,
        decreases names@.len() - i,
    {
        if str_eq(names[i], f) {
            assert(names_view(names@)[i as int] == f@);
            return true;
        }
        i = i + 1;
    }
    proof {
        if names_view(names@).contains(f@) {
            let k = choose|k: int| 0 <= k < names_view(names@).len() && names_view(names@)[k] == f@;
            assert(names@[k]@ == f@);
        }
    }
    false
}

/// All function names, domain by domain, each kept at its first occurrence.
pub fn all_function_names() -> (names: Vec<&'static str>)
    ensures
        names_view(names@) == dedup(flat_names(DOMAIN_COUNT as int)),
{
    let mut names: Vec<&'static str> = Vec::new();
    let mut d: usize = 0;
    while d < DOMAIN_COUNT
        invariant
            d <= DOMAIN_COUNT,
            names_view(names@) == dedup(flat_names(d as int)),
        decreases DOMAIN_COUNT - d,
    {
        let (_, funcs) = domain_entry(d);
        let ghost base = flat_names(d as int);
        let mut k: usize = 0;
        while k < funcs.len()
            invariant
                d < DOMAIN_COUNT,
                base == flat_names(d as int),
                names_view(funcs@) == domain_at(d as int).1,
                k <= funcs@.len(),
                names_view(names@) == dedup(base + names_view(funcs@).take(k as int)),
            decreases funcs@.len() - k,
        {
            let f = funcs[k];
            proof {
                let s = base + names_view(funcs@).take(k + 1);
                assert(s.drop_last() =~= base + names_view(funcs@).take(k as int));
                assert(s.last() == f@);
            }
            if !contains_name(&names, f) {
                proof { lemma_names_view_push(names@, f); }
                names.push(f);
            }
            k = k + 1;
        }
        assert(base + names_view(funcs@).take(funcs@.len() as int) =~= flat_names(d + 1));
        d = d + 1;
    }
    names
}

} // verus!
