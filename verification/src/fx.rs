//! Exchange-rate tables and the choice of rates for a conversion through the
//! base currency. Rates are binary64 values held as their bit patterns; the
//! arithmetic on them is floating point and is done by the caller.

use vstd::prelude::*;
use crate::error::{args_view, CalcError, ErrorKind};
use crate::text::{nat_decimal, owned, push_str, push_u128, str_eq};

verus! {

/// The bit pattern of the binary64 value `1.0`, the rate of the base currency.
pub const ONE_BITS: u64 = 0x3FF0_0000_0000_0000;

/// An exchange-rate table: the base currency, the date of the rates and each
/// other currency's rate against the base (as binary64 bits). A currency
/// code occurs at most once.
#[derive(Debug)]
pub struct RateTable {
    base: String,
    date: String,
    rates: Vec<(String, u64)>,
}

/// The codes of a list of rates are pairwise distinct.
pub open spec fn distinct_codes(s: Seq<(Seq<char>, u64)>) -> bool {
    forall|i: int, j: int| 0 <= i < j < s.len() ==> s[i].0 != s[j].0
}

/// The rate of a code in a list of rates, if the code occurs.
pub open spec fn rate_of(s: Seq<(Seq<char>, u64)>, code: Seq<char>) -> Option<u64>
    decreases s.len(),
{
    if s.len() == 0 {
        None
    } else if s[0].0 == code {
        Some(s[0].1)
    } else {
        rate_of(s.drop_first(), code)
    }
}

/// The rates with a code replaced, or appended when it is new (what
/// `HashMap::insert` does to the table's contents).
pub open spec fn rates_insert(s: Seq<(Seq<char>, u64)>, code: Seq<char>, rate: u64) -> Seq<(Seq<char>, u64)> {
    if exists|i: int| 0 <= i < s.len() && #[trigger] s[i].0 == code {
        let i = choose|i: int| 0 <= i < s.len() && #[trigger] s[i].0 == code;
        s.update(i, (code, rate))
    } else {
        s.push((code, rate))
    }
}

/// With distinct codes, the rate of a code is that of its entry, and a code
/// without an entry has none.
proof fn lemma_rate_of_distinct(s: Seq<(Seq<char>, u64)>, code: Seq<char>)
    requires
        distinct_codes(s),
    ensures
        forall|i: int| 0 <= i < s.len() && #[trigger] s[i].0 == code ==> rate_of(s, code) == Some(s[i].1),
        (forall|i: int| 0 <= i < s.len() ==> #[trigger] s[i].0 != code) ==> rate_of(s, code).is_none(),
    decreases s.len(),
{
    if s.len() > 0 {
        let t = s.drop_first();
        assert(distinct_codes(t)) by {
            assert forall|i: int, j: int| 0 <= i < j < t.len() implies t[i].0 != t[j].0 by {
                assert(t[i] == s[i + 1] && t[j] == s[j + 1]);
            }
        }
        lemma_rate_of_distinct(t, code);
        assert forall|i: int| 0 <= i < s.len() && #[trigger] s[i].0 == code implies rate_of(s, code) == Some(s[i].1) by {
            if i > 0 {
                assert(s[0].0 != s[i].0);
                assert(t[i - 1] == s[i]);
            }
        }
        if forall|i: int| 0 <= i < s.len() ==> #[trigger] s[i].0 != code {
            assert forall|i: int| 0 <= i < t.len() implies #[trigger] t[i].0 != code by {
                assert(t[i] == s[i + 1]);
            }
        }
    }
}

/// A read gives back the last write: after setting the rate of `code`, the
/// table gives that rate for `code`, the rates of other codes are unchanged,
/// and codes stay distinct.
pub proof fn lemma_insert_then_lookup(s: Seq<(Seq<char>, u64)>, code: Seq<char>, rate: u64, other: Seq<char>)
    requires
        distinct_codes(s),
    ensures
        distinct_codes(rates_insert(s, code, rate)),
        rate_of(rates_insert(s, code, rate), code) == Some(rate),
        other != code ==> rate_of(rates_insert(s, code, rate), other) == rate_of(s, other),
{
    let s2 = rates_insert(s, code, rate);
    if exists|i: int| 0 <= i < s.len() && #[trigger] s[i].0 == code {
        let i = choose|i: int| 0 <= i < s.len() && #[trigger] s[i].0 == code;
        assert(s2 == s.update(i, (code, rate)));
        assert(distinct_codes(s2)) by {
            assert forall|a: int, b: int| 0 <= a < b < s2.len() implies s2[a].0 != s2[b].0 by {
                assert(s2[a].0 == s[a].0 && s2[b].0 == s[b].0);
            }
        }
        lemma_rate_of_distinct(s2, code);
        assert(s2[i].0 == code);
        if other != code {
            lemma_rate_of_distinct(s, other);
            lemma_rate_of_distinct(s2, other);
            if exists|j: int| 0 <= j < s.len() && #[trigger] s[j].0 == other {
                let j = choose|j: int| 0 <= j < s.len() && #[trigger] s[j].0 == other;
                assert(s2[j] == s[j]);
            } else {
                assert forall|j: int| 0 <= j < s2.len() implies #[trigger] s2[j].0 != other by {
                    if j != i {
                        assert(s2[j] == s[j]);
                    }
                }
            }
        }
    } else {
        assert(s2 == s.push((code, rate)));
        assert(distinct_codes(s2)) by {
            assert forall|a: int, b: int| 0 <= a < b < s2.len() implies s2[a].0 != s2[b].0 by {
                if b < s.len() {
                    assert(s2[a] == s[a] && s2[b] == s[b]);
                } else {
                    assert(s2[a] == s[a]);
                }
            }
        }
        lemma_rate_of_distinct(s2, code);
        assert(s2[s.len() as int].0 == code);
        if other != code {
            lemma_rate_of_distinct(s, other);
            lemma_rate_of_distinct(s2, other);
            if exists|j: int| 0 <= j < s.len() && #[trigger] s[j].0 == other {
                let j = choose|j: int| 0 <= j < s.len() && #[trigger] s[j].0 == other;
                assert(s2[j] == s[j]);
            } else {
                assert forall|j: int| 0 <= j < s2.len() implies #[trigger] s2[j].0 != other by {
                    if j < s.len() {
                        assert(s2[j] == s[j]);
                    }
                }
            }
        }
    }
}

impl RateTable {
    /// The base currency.
    pub closed spec fn base_code(&self) -> Seq<char> {
        self.base@
    }

    /// The date of the rates.
    pub closed spec fn date_text(&self) -> Seq<char> {
        self.date@
    }

    /// The base currency.
    pub fn base(&self) -> (r: &String)
        ensures
            r@ == self.base_code(),
    {
        &self.base
    }

    /// The date of the rates.
    pub fn date(&self) -> (r: &String)
        ensures
            r@ == self.date_text(),
    {
        &self.date
    }

    /// The rates, as pairs of code and bits.
    pub closed spec fn entries(&self) -> Seq<(Seq<char>, u64)> {
        self.rates@.map_values(|p: (String, u64)| (p.0@, p.1))
    }

    #[verifier::type_invariant]
    spec fn well_formed(self) -> bool {
        distinct_codes(self.entries())
    }

    /// An empty table for a base currency and a date.
    pub fn new(base: String, date: String) -> (t: RateTable)
        ensures
            t.base_code() == base@,
            t.date_text() == date@,
            t.entries().len() == 0,
    {
        let t = RateTable { base, date, rates: Vec::new() };
        assert(t.entries() =~= Seq::<(Seq<char>, u64)>::empty());
        t
    }

    /// Sets the rate of a currency, replacing an earlier rate of the same code.
    pub fn insert(&mut self, code: String, rate: u64)
        ensures
            final(self).base_code() == old(self).base_code(),
            final(self).date_text() == old(self).date_text(),
            final(self).entries() == rates_insert(old(self).entries(), code@, rate),
            rate_of(final(self).entries(), code@) == Some(rate),
            forall|other: Seq<char>| other != code@ ==>
                #[trigger] rate_of(final(self).entries(), other) == rate_of(old(self).entries(), other),
    {
        proof {
            use_type_invariant(&*self);
            assert forall|other: Seq<char>| other != code@ implies
                #[trigger] rate_of(rates_insert(self.entries(), code@, rate), other) == rate_of(self.entries(), other) by {
                lemma_insert_then_lookup(self.entries(), code@, rate, other);
            }
            lemma_insert_then_lookup(self.entries(), code@, rate, code@);
        }
        let ghost e = self.entries();
        let mut i: usize = 0;
        while i < self.rates.len()
            invariant
                i <= self.rates@.len(),
                e == self.entries(),
                e == old(self).entries(),
                distinct_codes(e),
                self.base_code() == old(self).base_code(),
                self.date_text() == old(self).date_text(),
                self.entries().len() == self.rates@.len(),
                forall|k: int| 0 <= k < i ==> e[k].0 != code@,
                rate_of(rates_insert(e, code@, rate), code@) == Some(rate),
                forall|other: Seq<char>| other != code@ ==>
                    #[trigger] rate_of(rates_insert(e, code@, rate), other) == rate_of(e, other),
            decreases self.rates@.len() - i,
        {
            if str_eq(self.rates[i].0.as_str(), code.as_str()) {
                let ghost idx = i as int;
                proof {
                    assert(e[idx].0 == code@);
                    assert(rates_insert(e, code@, rate) == e.update(idx, (code@, rate))) by {
                        let c = choose|j: int| 0 <= j < e.len() && #[trigger] e[j].0 == code@;
                        if c != idx {
                            assert(distinct_codes(e));
                        }
                    }
                }
                proof {
                    assert(e.update(idx, (code@, rate)) =~= self.rates@.update(idx, (code, rate)).map_values(|p: (String, u64)| (p.0@, p.1)));
                    assert(distinct_codes(e.update(idx, (code@, rate))));
                }
                let mut rates: Vec<(String, u64)> = Vec::new();
                std::mem::swap(&mut rates, &mut self.rates);
                rates.set(i, (code, rate));
                self.rates = rates;
                assert(self.entries() =~= e.update(idx, (code@, rate)));
                return;
            }
            i = i + 1;
        }
        proof {
            assert(e.push((code@, rate)) =~= self.rates@.push((code, rate)).map_values(|p: (String, u64)| (p.0@, p.1)));
            assert(distinct_codes(e.push((code@, rate))));
        }
        let mut rates: Vec<(String, u64)> = Vec::new();
        std::mem::swap(&mut rates, &mut self.rates);
        rates.push((code, rate));
        self.rates = rates;
        assert(self.entries() =~= e.push((code@, rate)));
    }

    /// The number of currencies with a rate (the base not counted).
    pub fn rate_count(&self) -> (n: usize)
        ensures
            n == self.entries().len(),
    {
        self.rates.len()
    }

    /// The rate of a currency, if the table has one.
    pub fn lookup(&self, code: &str) -> (r: Option<u64>)
        ensures
            r == rate_of(self.entries(), code@),
    {
        let ghost e = self.entries();
        let mut i: usize = 0;
        assert(e.skip(0) =~= e);
        while i < self.rates.len()
            invariant
                i <= self.rates@.len(),
                e == self.entries(),
                e.len() == self.rates@.len(),
                rate_of(e, code@) == rate_of(e.skip(i as int), code@),
            decreases self.rates@.len() - i,
        {
            assert(e.skip(i as int).drop_first() =~= e.skip(i + 1));
            if str_eq(self.rates[i].0.as_str(), code) {
                return Some(self.rates[i].1);
            }
            i = i + 1;
        }
        None
    }
}

impl Clone for RateTable {
    fn clone(&self) -> (r: Self)
        ensures
            r.base_code() == self.base_code(),
            r.date_text() == self.date_text(),
            r.entries() == self.entries(),
    {
        proof {
            use_type_invariant(self);
        }
        let mut rates: Vec<(String, u64)> = Vec::new();
        let mut i: usize = 0;
        while i < self.rates.len()
            invariant
                i <= self.rates@.len(),
                rates@.len() == i,
                forall|k: int| 0 <= k < i ==> (#[trigger] rates@[k]).0@ == self.rates@[k].0@ && rates@[k].1 == self.rates@[k].1,
            decreases self.rates@.len() - i,
        {
            rates.push((self.rates[i].0.clone(), self.rates[i].1));
            i = i + 1;
        }
        assert(rates@.map_values(|p: (String, u64)| (p.0@, p.1)) =~= self.entries());
        let r = RateTable { base: self.base.clone(), date: self.date.clone(), rates };
        assert(r.entries() =~= self.entries());
        r
    }
}

/// The message of the "unknown currency" error: the code, the number of
/// currencies the table supports (the base included) and the base.
pub open spec fn unknown_currency_message(code: Seq<char>, count: nat, base: Seq<char>) -> Seq<char> {
    "unknown currency: "@ + code + ", "@ + nat_decimal(count) + " currencies supported (base: "@ + base + ")"@
}

/// The error for a currency the table does not know.
pub fn unknown_currency_error(code: &str, table: &RateTable) -> (e: CalcError)
    ensures
        e.kind == ErrorKind::Domain,
        e.message@ == unknown_currency_message(code@, table.entries().len() + 1, table.base_code()),
        e.i18n_key == Some("msg.fx.unknown_currency"),
        args_view(e.i18n_args@) == seq![("code"@, code@)],
{
    let n = table.rate_count();
    let mut msg = owned("unknown currency: ");
    push_str(&mut msg, code);
    push_str(&mut msg, ", ");
    push_u128(&mut msg, (n as u128) + 1);
    push_str(&mut msg, " currencies supported (base: ");
    push_str(&mut msg, table.base.as_str());
    push_str(&mut msg, ")");
    let mut args: Vec<(String, String)> = Vec::new();
    args.push((owned("code"), owned(code)));
    assert(args_view(args@) =~= seq![("code"@, code@)]);
    CalcError::domain(msg).with_i18n("msg.fx.unknown_currency", args)
}

/// The rate of a currency against the base: one (as bits) for the base
/// itself, the table's rate otherwise, an error for an unknown code.
pub fn get_rate(code: &str, table: &RateTable) -> (r: Result<u64, CalcError>)
    ensures
        code@ == table.base_code() ==> r == Ok::<u64, CalcError>(ONE_BITS),
        code@ != table.base_code() ==> match r {
            Ok(v) => rate_of(table.entries(), code@) == Some(v),
            Err(e) => rate_of(table.entries(), code@).is_none() && e.kind == ErrorKind::Domain
                && e.message@ == unknown_currency_message(code@, table.entries().len() + 1, table.base_code())
                && e.i18n_key == Some("msg.fx.unknown_currency"),
        },
{
    if str_eq(code, table.base.as_str()) {
        return Ok(ONE_BITS);
    }
    match table.lookup(code) {
        Some(v) => Ok(v),
        None => Err(unknown_currency_error(code, table)),
    }
}

/// The rates of a conversion through the base currency: nothing for a
/// conversion to the same currency (the value stays as it is), otherwise the
/// rates of the source and of the target, the source looked up first. The
/// converted value is `value / rate_from * rate_to` in binary64.
pub fn conversion_rates(from: &str, to: &str, table: &RateTable) -> (r: Result<Option<(u64, u64)>, CalcError>)
    ensures
        from@ == to@ ==> r == Ok::<Option<(u64, u64)>, CalcError>(None),
        from@ != to@ ==> match r {
            Ok(Some((a, b))) => (if from@ == table.base_code() { a == ONE_BITS } else { rate_of(table.entries(), from@) == Some(a) })
                && (if to@ == table.base_code() { b == ONE_BITS } else { rate_of(table.entries(), to@) == Some(b) }),
            Ok(None) => false,
            Err(e) => e.kind == ErrorKind::Domain && e.i18n_key == Some("msg.fx.unknown_currency") && (
                (from@ != table.base_code() && rate_of(table.entries(), from@).is_none()
                    && e.message@ == unknown_currency_message(from@, table.entries().len() + 1, table.base_code()))
                || ((from@ == table.base_code() || rate_of(table.entries(), from@).is_some())
                    && to@ != table.base_code() && rate_of(table.entries(), to@).is_none()
                    && e.message@ == unknown_currency_message(to@, table.entries().len() + 1, table.base_code()))),
        },
{
    if str_eq(from, to) {
        return Ok(None);
    }
    let rate_from = match get_rate(from, table) {
        Ok(v) => v,
        Err(e) => {
            return Err(e);
        },
    };
    let rate_to = match get_rate(to, table) {
        Ok(v) => v,
        Err(e) => {
            return Err(e);
        },
    };
    Ok(Some((rate_from, rate_to)))
}

} // verus!
