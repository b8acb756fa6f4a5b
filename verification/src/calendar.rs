//! Calendar rules and the errors of date handling.

use vstd::prelude::*;
use crate::error::{CalcError, ErrorKind, args_view};
use crate::text::{owned, push_str, str_eq};

verus! {

/// The Gregorian leap-year rule: divisible by 4 and not by 100, or by 400.
pub open spec fn spec_is_leap_year(year: int) -> bool {
    (year % 4 == 0 && year % 100 != 0) || year % 400 == 0
}

/// Whether `year` is a leap year of the proleptic Gregorian calendar.
pub fn is_leap_year(year: i64) -> (r: bool)
    ensures
        r == spec_is_leap_year(year as int),
{
    (year % 4 == 0 && year % 100 != 0) || (year % 400 == 0)
}

/// The leap-year rule repeats every 400 years.
pub proof fn lemma_leap_year_period(year: int)
    ensures
        spec_is_leap_year(year) == spec_is_leap_year(year + 400),
{
    vstd::arithmetic::div_mod::lemma_mod_multiples_vanish(100, year, 4);
    vstd::arithmetic::div_mod::lemma_mod_multiples_vanish(4, year, 100);
    vstd::arithmetic::div_mod::lemma_mod_multiples_vanish(1, year, 400);
    assert(4 * 100 + year == year + 400);
    assert(100 * 4 + year == year + 400);
    assert(400 * 1 + year == year + 400);
}

/// Every fourth year is a leap year unless it ends a century not divisible by 400.
pub proof fn lemma_leap_year_century(year: int)
    requires
        year % 100 == 0,
    ensures
        spec_is_leap_year(year) == (year % 400 == 0),
{
}

/// The message of an invalid-date error.
pub open spec fn invalid_date_message(value: Seq<char>) -> Seq<char> {
    "invalid date: "@ + value
}

/// Builds the "invalid date" error for an input that names no date.
pub fn invalid_date_error(value: &str) -> (e: CalcError)
    ensures
        e.kind == ErrorKind::Domain,
        e.message@ == invalid_date_message(value@),
        e.i18n_key == Some("msg.time.invalid_date"),
        args_view(e.i18n_args@) == seq![("value"@, value@)],
{
    let mut msg = owned("invalid date: ");
    push_str(&mut msg, value);
    let mut args: Vec<(String, String)> = Vec::new();
    args.push((owned("value"), owned(value)));
    assert(args_view(args@) =~= seq![("value"@, value@)]);
    CalcError::domain(msg).with_i18n("msg.time.invalid_date", args)
}

/// The message of a format-mismatch error.
pub open spec fn format_mismatch_message(fmt: Seq<char>) -> Seq<char> {
    "format mismatch: "@ + fmt
}

/// Builds the "format mismatch" error for an input that does not follow `fmt`.
pub fn format_mismatch_error(fmt: &str) -> (e: CalcError)
    ensures
        e.kind == ErrorKind::Domain,
        e.message@ == format_mismatch_message(fmt@),
        e.i18n_key == Some("msg.time.format_mismatch"),
        args_view(e.i18n_args@) == seq![("fmt"@, fmt@)],
{
    let mut msg = owned("format mismatch: ");
    push_str(&mut msg, fmt);
    let mut args: Vec<(String, String)> = Vec::new();
    args.push((owned("fmt"), owned(fmt)));
    assert(args_view(args@) =~= seq![("fmt"@, fmt@)]);
    CalcError::domain(msg).with_i18n("msg.time.format_mismatch", args)
}

/// Builds the "ambiguous format" error for all-numeric dates such as `01/02/2026`.
pub fn ambiguous_format_error() -> (e: CalcError)
    ensures
        e.kind == ErrorKind::Domain,
        e.message@ == "ambiguous date format, use parse_date() with explicit format"@,
        e.i18n_key == Some("msg.time.ambiguous_format"),
        e.i18n_args@.len() == 0,
{
    let msg = owned("ambiguous date format, use parse_date() with explicit format");
    CalcError::domain(msg).with_i18n("msg.time.ambiguous_format", Vec::new())
}

/// What the `regex` crate answers when `pattern` is compiled and matched
/// against `haystack`: `None` when the pattern does not compile.
pub uninterp spec fn regex_match(pattern: Seq<char>, haystack: Seq<char>) -> Option<bool>;

/// Compiles `pattern` with `regex::Regex::new` and tests it with
/// `Regex::is_match` on `haystack`.
///
/// Trusted: the result is the crate's answer for these two strings, named
/// `regex_match`; nothing else is claimed of it.
#[verifier::external_body]
fn regex_is_match(pattern: &str, haystack: &str) -> (r: Option<bool>)
    ensures
        r == regex_match(pattern@, haystack@),
{
    match regex::Regex::new(pattern) {
        Ok(re) => Some(re.is_match(haystack)),
        Err(_) => None,
    }
}

/// The pattern of an all-numeric day/month/year date: one or two digits, a
/// separator (`/`, `-` or `.`), one or two digits, a separator, four digits.
pub open spec fn ambiguous_date_pattern() -> Seq<char> {
    "^\\d{1,2}[/\\-.]\\d{1,2}[/\\-.]\\d{4}$"@
}

/// Whether the input is an all-numeric date such as `01/02/2026`, whose day and
/// month order cannot be told apart.
pub fn is_ambiguous_numeric_date(input: &str) -> (r: bool)
    ensures
        r == (regex_match(ambiguous_date_pattern(), input@) == Some(true)),
{
    match regex_is_match("^\\d{1,2}[/\\-.]\\d{1,2}[/\\-.]\\d{4}$", input) {
        Some(b) => b,
        None => false,
    }
}

/// A unit of time span accepted by date arithmetic.
#[derive(Debug, Clone, Copy, PartialEq, Eq, Structural)]
pub enum TimeUnit {
    Second,
    Minute,
    Hour,
    Day,
    Week,
    Month,
    Year,
}

/// The time unit named by `s` (singular, plural or abbreviation).
pub open spec fn spec_time_unit(s: Seq<char>) -> Option<TimeUnit> {
    if s == "s"@ || s == "second"@ || s == "seconds"@ {
        Some(TimeUnit::Second)
    } else if s == "min"@ || s == "minute"@ || s == "minutes"@ {
        Some(TimeUnit::Minute)
    } else if s == "h"@ || s == "hour"@ || s == "hours"@ {
        Some(TimeUnit::Hour)
    } else if s == "day"@ || s == "days"@ {
        Some(TimeUnit::Day)
    } else if s == "week"@ || s == "weeks"@ {
        Some(TimeUnit::Week)
    } else if s == "month"@ || s == "months"@ {
        Some(TimeUnit::Month)
    } else if s == "year"@ || s == "years"@ {
        Some(TimeUnit::Year)
    } else {
        None
    }
}

/// Parses a time unit name; an unknown name is a domain error.
pub fn parse_time_unit(s: &str) -> (r: Result<TimeUnit, CalcError>)
    ensures
        match r {
            Ok(u) => spec_time_unit(s@) == Some(u),
            Err(e) => spec_time_unit(s@).is_none() && e.kind == ErrorKind::Domain
                && e.message@ == "invalid time unit: "@ + s@
                && e.i18n_key == Some("msg.time.invalid_unit")
                && args_view(e.i18n_args@) == seq![("unit"@, s@)],
        },
{
    if str_eq(s, "s") || str_eq(s, "second") || str_eq(s, "seconds") {
        Ok(TimeUnit::Second)
    } else if str_eq(s, "min") || str_eq(s, "minute") || str_eq(s, "minutes") {
        Ok(TimeUnit::Minute)
    } else if str_eq(s, "h") || str_eq(s, "hour") || str_eq(s, "hours") {
        Ok(TimeUnit::Hour)
    } else if str_eq(s, "day") || str_eq(s, "days") {
        Ok(TimeUnit::Day)
    } else if str_eq(s, "week") || str_eq(s, "weeks") {
        Ok(TimeUnit::Week)
    } else if str_eq(s, "month") || str_eq(s, "months") {
        Ok(TimeUnit::Month)
    } else if str_eq(s, "year") || str_eq(s, "years") {
        Ok(TimeUnit::Year)
    } else {
        let mut msg = owned("invalid time unit: ");
        push_str(&mut msg, s);
        let mut args: Vec<(String, String)> = Vec::new();
        args.push((owned("unit"), owned(s)));
        assert(args_view(args@) =~= seq![("unit"@, s@)]);
        Err(CalcError::domain(msg).with_i18n("msg.time.invalid_unit", args))
    }
}

} // verus!
