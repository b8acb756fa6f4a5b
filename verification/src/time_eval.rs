//! The time domain: the fourteen date and time functions (`date`, `datetime`,
//! `timestamp`, `from_timestamp`, `date_diff`, `date_add`, `parse_date`,
//! `format_date`, `reformat_date`, `weekday`, `day_of_year`, `is_leap_year`,
//! `now`, `today`) and the nodes around them.
//!
//! The evaluation is a conversation with the caller. `time_node_step` says
//! what a node is; for a call, `eval_time_call` checks the name and the
//! arguments, reads strings, dates and integers, and either answers or asks
//! for one more thing: the value of an argument (evaluated by the caller,
//! which may involve binary64 arithmetic), or a piece of work that needs the
//! clock, the time-zone database or calendar spans.

use vstd::prelude::*;
use crate::ast::{
    f64_as_i64, f64_beyond_i64, f64_integral_to_i64, f64_integral_value, f64_is_beyond_i64,
    f64_is_integral, f64_to_i64_as, saturate_i64, AstNode, BinaryOp, UnaryOp,
};
use crate::calendar::{
    invalid_date_error, invalid_date_message, parse_time_unit, spec_is_leap_year, spec_time_unit,
    TimeUnit,
};
use crate::datetime::{
    jiff_date_strptime, days_in_month, first_timestamp_format_match, is_ambiguous, is_ambiguous_format_error,
    is_invalid_date_error, jiff_date_from_str, midnight, parse_date_multi_format,
    parse_datetime_multi_format, parse_timestamp_strptime, spec_parse_date, spec_parse_datetime,
    valid_date, valid_datetime, CivilDate, CivilDateTime, Instant,
};
use crate::domains::{name_in, name_set, spec_time_functions, time_functions};
use crate::error::{args_view, CalcError, ErrorKind};
use crate::text::{chars_of, int_decimal, nat_decimal, owned, push_i64, push_str, push_u64, str_eq};
use crate::zoned::{
    datetime_in_utc, is_format_mismatch_error, is_zoned_reading, jiff_strtime_format,
    parse_date_with_format, parse_str_to_zoned, reformat_date, spec_rfc3339, strtime_format,
    zoned_to_rfc3339, ZonedParts,
};
use crate::calendar::format_mismatch_error;

verus! {

/// A value of the time domain: a binary64 number (its bit pattern), an exact
/// integer (a Unix second, a weekday, ...), an RFC 3339 date-time, or text.
#[derive(Debug, Clone, PartialEq)]
pub enum TimeValue {
    Number(u64),
    Integer(i64),
    DateTime(String),
    Symbolic(String),
}

/// An argument value computed by the caller, with the decimal text of the
/// number when it is one (binary64 values are written by the caller).
#[derive(Debug, Clone, PartialEq)]
pub struct EvaluatedArg {
    pub value: TimeValue,
    pub text: String,
}

/// A time zone argument: UTC (in any letter case), or a name to look up.
#[derive(Debug, Clone, PartialEq)]
pub enum ZoneChoice {
    Utc,
    Named(String),
}

/// What a node of the time domain is.
#[derive(Debug, Clone, PartialEq)]
pub enum TimeStep {
    /// A value: a number literal, a bound variable or a constant.
    Value(TimeValue),
    /// A number written too long for an exact literal, to be read as binary64.
    ParseNumber(String),
    /// Binary64 arithmetic on the two operands, which the caller evaluates.
    Binary(BinaryOp),
    /// Negation or absolute value of the operand, which the caller evaluates.
    Unary(UnaryOp),
    /// Factorial: once its operand has been evaluated, it is refused
    /// (`time_factorial_error`).
    Factorial,
    /// A function call, answered by `eval_time_call`.
    Call,
}

/// The answer to a call, or what the caller must do next.
#[derive(Debug)]
pub enum TimeCall {
    /// The value of the call.
    Done(TimeValue),
    /// Evaluate argument `i` and call again with its value supplied.
    Evaluate(usize),
    /// `datetime(input, zone)`: look the zone up (`unknown_timezone_error`
    /// when it does not exist), then read `input` with
    /// `parse_datetime_multi_format` and place it in the zone.
    DateTimeInZone { input: String, zone_name: String },
    /// `from_timestamp(second, zone)`: look the zone up, then place the
    /// instant there (`timestamp_range_error` when it is out of range).
    InstantInZone { second: i64, second_text: String, zone_name: String },
    /// `date_diff`: the span from `from` to `to` in the unit.
    DateDiff { from: ZonedParts, to: ZonedParts, unit: TimeUnit },
    /// `date_add`: `start` moved by `count` units.
    DateAdd { start: ZonedParts, count: i64, unit: TimeUnit },
    /// `format_date` with a zone: `zoned` shown in the zone, then written
    /// with the format (or the error the format argument gave).
    FormatInZone { zoned: ZonedParts, in_zone: ZoneChoice, fmt: Result<String, CalcError> },
    /// `now`: the current instant in the zone.
    Now(ZoneChoice),
    /// `today`: midnight of the current day in the zone.
    Today(ZoneChoice),
}

// ---------------------------------------------------------------------------
// What the outside crate answers
// ---------------------------------------------------------------------------

/// The civil date-time in UTC of a Unix second, as `jiff::Timestamp`
/// gives it; `None` outside jiff's range of instants.
pub uninterp spec fn jiff_utc_of_second(second: int) -> Option<CivilDateTime>;

/// The Unix second of a civil date-time at a fixed UTC offset (in seconds),
/// as `jiff::tz::Offset::to_timestamp` gives it; `None` outside the range.
pub uninterp spec fn jiff_second_of(datetime: CivilDateTime, offset_seconds: int) -> Option<int>;

/// The instant that `str::parse::<jiff::Timestamp>` reads from `s`.
pub uninterp spec fn jiff_timestamp_from_str(s: Seq<char>) -> Option<Instant>;

/// Trusted: `jiff::Timestamp::from_second(second)` placed in UTC
/// (`to_zoned(TimeZone::UTC)`); the answer is named `jiff_utc_of_second`,
/// and a `jiff` date-time is always valid.
#[verifier::external_body]
fn utc_of_second(second: i64) -> (r: Option<CivilDateTime>)
    ensures
        r == jiff_utc_of_second(second as int),
        r matches Some(t) ==> valid_datetime(t),
{
    let z = jiff::Timestamp::from_second(second).ok()?.to_zoned(jiff::tz::TimeZone::UTC);
    Some(CivilDateTime {
        date: CivilDate { year: z.year(), month: z.month(), day: z.day() },
        hour: z.hour(), minute: z.minute(), second: z.second(), subsec_nanosecond: z.subsec_nanosecond(),
    })
}

/// Trusted: `jiff::tz::Offset::to_timestamp` of the parts' civil date-time
/// at their offset, then `Timestamp::as_second`. The instant depends on the
/// date-time and the offset alone (the zone is not consulted); it is named
/// `jiff_second_of`.
#[verifier::external_body]
fn zoned_second(z: &ZonedParts) -> (r: Option<i64>)
    ensures
        match r {
            Some(s) => jiff_second_of(z.datetime, z.offset_seconds as int) == Some(s as int),
            None => jiff_second_of(z.datetime, z.offset_seconds as int) is None,
        },
{
    let t = z.datetime;
    let dt = jiff::civil::DateTime::new(t.date.year, t.date.month, t.date.day, t.hour, t.minute, t.second, t.subsec_nanosecond).ok()?;
    let off = jiff::tz::Offset::from_seconds(z.offset_seconds).ok()?;
    Some(off.to_timestamp(dt).ok()?.as_second())
}

/// Trusted: `str::parse::<jiff::Timestamp>` (RFC 3339 / ISO 8601 with an
/// offset); the answer is named `jiff_timestamp_from_str`.
#[verifier::external_body]
fn timestamp_from_str(s: &str) -> (r: Option<Instant>)
    ensures
        r == jiff_timestamp_from_str(s@),
{
    match s.parse::<jiff::Timestamp>() {
        Ok(t) => Some(Instant { second: t.as_second(), nanosecond: t.subsec_nanosecond() }),
        Err(_) => None,
    }
}

/// The `Debug` text of a node (std's `{:?}` of the derived `Debug`; number
/// literals show their bit patterns). Nothing is stated of it.
#[verifier::external_body]
pub(crate) fn node_debug(n: &AstNode) -> (r: String) {
    format!("{:?}", n)
}

/// The `Debug` text of a string (std's `{:?}`, quoted and escaped). Nothing
/// is stated of it.
#[verifier::external_body]
fn str_debug(s: &str) -> (r: String) {
    format!("{:?}", s)
}

// ---------------------------------------------------------------------------
// Calendar arithmetic of a civil date
// ---------------------------------------------------------------------------

/// The days of the months before `month` in `year`.
pub open spec fn days_before_month(year: int, month: int) -> int
    decreases month,
{
    if month <= 1 { 0 } else { days_before_month(year, month - 1) + days_in_month(year, month - 1) }
}

/// The ordinal day of a date: 1 for 1 January, up to 366.
pub open spec fn spec_day_of_year(d: CivilDate) -> int {
    days_before_month(d.year as int, d.month as int) + d.day
}

/// The number of leap years before `year`, counted from a fixed origin:
/// `leap_years_before(y + 1) - leap_years_before(y)` is one exactly when `y`
/// is a leap year.
pub open spec fn leap_years_before(year: int) -> int {
    (year - 1) / 4 - (year - 1) / 100 + (year - 1) / 400
}

/// Days from 1970-01-01 to the date (negative before it).
pub open spec fn days_since_epoch(d: CivilDate) -> int {
    365 * (d.year - 1970) + leap_years_before(d.year as int) - leap_years_before(1970) + spec_day_of_year(d) - 1
}

/// The ISO weekday of a date: Monday is 1 and Sunday 7 (1970-01-01 was a
/// Thursday).
pub open spec fn spec_weekday(d: CivilDate) -> int {
    (days_since_epoch(d) + 3) % 7 + 1
}

fn month_length(year: i16, month: i8) -> (r: i64)
    requires
        1 <= month <= 12,
    ensures
        r == days_in_month(year as int, month as int),
        28 <= r <= 31,
{
    if month == 2 {
        if crate::calendar::is_leap_year(year as i64) { 29 } else { 28 }
    } else if month == 4 || month == 6 || month == 9 || month == 11 {
        30
    } else {
        31
    }
}

/// The ordinal day of a valid date (`jiff::civil::Date::day_of_year`).
pub fn day_of_year(d: CivilDate) -> (r: i64)
    requires
        valid_date(d),
    ensures
        r == spec_day_of_year(d),
        1 <= r <= 366,
{
    let mut total: i64 = 0;
    let mut m: i8 = 1;
    while m < d.month
        invariant
            1 <= m <= d.month <= 12,
            total == days_before_month(d.year as int, m as int),
            0 <= total <= 31 * (m - 1),
        decreases d.month - m,
    {
        let len = month_length(d.year, m);
        total = total + len;
        m = m + 1;
    }
    proof {
        if d.month == 12 || d.month < 12 {
            // the days before the month plus the day stay within the year
            lemma_days_before_month_bound(d.year as int, d.month as int);
        }
    }
    total + d.day as i64
}

/// The days before a month never exceed a year, less the month's own days.
proof fn lemma_days_before_month_bound(year: int, month: int)
    requires
        1 <= month <= 12,
    ensures
        days_before_month(year, month) + days_in_month(year, month) <= 366,
        days_before_month(year, month) >= 0,
    decreases month,
{
    if month > 1 {
        lemma_days_before_month_bound(year, month - 1);
        reveal_with_fuel(days_before_month, 13);
        assert(days_before_month(year, 12) + days_in_month(year, 12) <= 366);
        if month < 12 {
            assert(days_before_month(year, month) + days_in_month(year, month) <= days_before_month(year, 12) + days_in_month(year, 12)) by {
                lemma_days_before_month_mono(year, month + 1, 12);
            }
        }
    }
}

/// `days_before_month` grows with the month.
proof fn lemma_days_before_month_mono(year: int, a: int, b: int)
    requires
        1 <= a <= b,
    ensures
        days_before_month(year, a) <= days_before_month(year, b),
    decreases b - a,
{
    if a < b {
        lemma_days_before_month_mono(year, a, b - 1);
    }
}

/// Floor division by a positive divisor survives a shift by a multiple.
proof fn lemma_shifted_div(a: int, d: int, k: int)
    requires
        d > 0,
    ensures
        (a + d * k) / d == a / d + k,
{
    vstd::arithmetic::div_mod::lemma_fundamental_div_mod(a, d);
    vstd::arithmetic::div_mod::lemma_mod_bound(a, d);
    assert(a + d * k == d * (a / d + k) + a % d) by (nonlinear_arith)
        requires a == d * (a / d) + a % d;
    vstd::arithmetic::div_mod::lemma_div_multiples_vanish_fancy(a / d + k, a % d, d);
}

/// The ISO weekday of a valid date (`jiff::civil::Date::weekday`, Monday 1).
pub fn weekday(d: CivilDate) -> (r: i64)
    requires
        valid_date(d),
    ensures
        r == spec_weekday(d),
        1 <= r <= 7,
{
    let doy = day_of_year(d);
    // years from -9999 on: shift by 10000 so that every quotient is of a
    // non-negative number
    let y: i64 = d.year as i64;
    let a: i64 = y - 1 + 10000;
    let q4: i64 = a / 4 - 2500;
    let q100: i64 = a / 100 - 100;
    let q400: i64 = a / 400 - 25;
    proof {
        lemma_shifted_div(y - 1, 4, 2500);
        lemma_shifted_div(y - 1, 100, 100);
        lemma_shifted_div(y - 1, 400, 25);
        assert(leap_years_before(1970) == 477);
    }
    let days: i64 = 365 * (y - 1970) + q4 - q100 + q400 - 477 + doy - 1;
    // shift by a multiple of 7 to reduce a non-negative number
    let shifted: i64 = days + 3 + 7 * 1_000_000;
    proof {
        lemma_shifted_div(days + 3, 7, 1_000_000);
        vstd::arithmetic::div_mod::lemma_fundamental_div_mod(days + 3, 7);
        vstd::arithmetic::div_mod::lemma_fundamental_div_mod(shifted as int, 7);
        vstd::arithmetic::div_mod::lemma_mod_bound(days + 3, 7);
        vstd::arithmetic::div_mod::lemma_mod_bound(shifted as int, 7);
    }
    shifted % 7 + 1
}

// ---------------------------------------------------------------------------
// The errors of the time domain
// ---------------------------------------------------------------------------

/// The argument counts a time function accepts and how its messages state
/// them: (least, most, the phrase of the message, the expected count).
pub open spec fn time_arity(name: Seq<char>) -> (int, int, Seq<char>, Seq<char>) {
    if name == "date"@ || name == "timestamp"@ || name == "weekday"@ || name == "day_of_year"@
        || name == "is_leap_year"@ {
        (1, 1, "exactly 1 argument"@, "1"@)
    } else if name == "datetime"@ || name == "from_timestamp"@ {
        (1, 2, "1 or 2 arguments"@, "1 or 2"@)
    } else if name == "date_diff"@ || name == "format_date"@ {
        (2, 3, "2 or 3 arguments"@, "2 or 3"@)
    } else if name == "parse_date"@ {
        (2, 2, "exactly 2 arguments"@, "2"@)
    } else if name == "now"@ || name == "today"@ {
        (0, 1, "0 or 1 argument"@, "0 or 1"@)
    } else {
        (3, 3, "exactly 3 arguments"@, "3"@)
    }
}

fn arity(name: &str) -> (r: (usize, usize, &'static str, &'static str))
    ensures
        r.0 == time_arity(name@).0,
        r.1 == time_arity(name@).1,
        r.2@ == time_arity(name@).2,
        r.3@ == time_arity(name@).3,
{
    if str_eq(name, "date") || str_eq(name, "timestamp") || str_eq(name, "weekday") || str_eq(name, "day_of_year")
        || str_eq(name, "is_leap_year") {
        (1, 1, "exactly 1 argument", "1")
    } else if str_eq(name, "datetime") || str_eq(name, "from_timestamp") {
        (1, 2, "1 or 2 arguments", "1 or 2")
    } else if str_eq(name, "date_diff") || str_eq(name, "format_date") {
        (2, 3, "2 or 3 arguments", "2 or 3")
    } else if str_eq(name, "parse_date") {
        (2, 2, "exactly 2 arguments", "2")
    } else if str_eq(name, "now") || str_eq(name, "today") {
        (0, 1, "0 or 1 argument", "0 or 1")
    } else {
        (3, 3, "exactly 3 arguments", "3")
    }
}

/// `e` is the error for a call of `name` with `n` arguments, a count it
/// does not accept.
pub open spec fn is_arg_count_error(e: CalcError, name: Seq<char>, n: nat) -> bool {
    &&& e.kind == ErrorKind::Domain
    &&& e.message@ == name + "() requires "@ + time_arity(name).2 + ", got "@ + nat_decimal(n)
    &&& e.i18n_key == Some("msg.function_arg_count")
    &&& args_view(e.i18n_args@) == seq![("name"@, name), ("expected"@, time_arity(name).3), ("actual"@, nat_decimal(n))]
}

fn arg_count_error(name: &str, n: usize) -> (e: CalcError)
    ensures
        is_arg_count_error(e, name@, n as nat),
{
    let (_lo, _hi, phrase, expected) = arity(name);
    let mut msg = owned(name);
    push_str(&mut msg, "() requires ");
    push_str(&mut msg, phrase);
    push_str(&mut msg, ", got ");
    push_u64(&mut msg, n as u64);
    let mut actual = String::new();
    push_u64(&mut actual, n as u64);
    let ghost actual_view = actual@;
    let mut args: Vec<(String, String)> = Vec::new();
    args.push((owned("name"), owned(name)));
    args.push((owned("expected"), owned(expected)));
    args.push((owned("actual"), actual));
    proof {
        assert(actual_view =~= nat_decimal(n as nat));
        assert(args_view(args@) =~= seq![("name"@, name@), ("expected"@, time_arity(name@).3), ("actual"@, nat_decimal(n as nat))]);
    }
    CalcError::domain(msg).with_i18n("msg.function_arg_count", args)
}

/// `e` is the error for a name outside the time domain's functions.
pub open spec fn is_unknown_time_function_error(e: CalcError, name: Seq<char>) -> bool {
    &&& e.kind == ErrorKind::Domain
    &&& e.message@ == "unsupported function in time domain: "@ + name
    &&& e.i18n_key == Some("msg.unknown_function")
    &&& args_view(e.i18n_args@) == seq![("name"@, name)]
}

fn unknown_function_error(name: &str) -> (e: CalcError)
    ensures
        is_unknown_time_function_error(e, name@),
{
    let mut msg = owned("unsupported function in time domain: ");
    push_str(&mut msg, name);
    let mut args: Vec<(String, String)> = Vec::new();
    args.push((owned("name"), owned(name)));
    assert(args_view(args@) =~= seq![("name"@, name@)]);
    CalcError::domain(msg).with_i18n("msg.unknown_function", args)
}

/// The error for an argument that must be a string literal.
fn requires_string_arg_error(n: &AstNode) -> (e: CalcError)
    ensures
        e.kind == ErrorKind::Domain,
        e.i18n_key == Some("msg.time.requires_string_arg"),
{
    let shown = node_debug(n);
    let mut msg = owned("expected string argument, got ");
    push_str(&mut msg, shown.as_str());
    let mut args: Vec<(String, String)> = Vec::new();
    args.push((owned("node"), shown));
    CalcError::domain(msg).with_i18n("msg.time.requires_string_arg", args)
}

/// `e` is the error for a number that is not an integer; `text` is the
/// number as the caller writes it.
pub open spec fn is_requires_integer_error(e: CalcError, text: Seq<char>) -> bool {
    &&& e.kind == ErrorKind::Domain
    &&& e.message@ == "expected integer argument, got "@ + text
    &&& e.i18n_key == Some("msg.time.requires_integer_arg")
    &&& args_view(e.i18n_args@) == seq![("value"@, text)]
}

fn requires_integer_error(text: &str) -> (e: CalcError)
    ensures
        is_requires_integer_error(e, text@),
{
    let mut msg = owned("expected integer argument, got ");
    push_str(&mut msg, text);
    let mut args: Vec<(String, String)> = Vec::new();
    args.push((owned("value"), owned(text)));
    assert(args_view(args@) =~= seq![("value"@, text@)]);
    CalcError::domain(msg).with_i18n("msg.time.requires_integer_arg", args)
}

/// `e` is the error for a Unix second outside the range of instants;
/// `text` is the second as the caller writes it.
pub open spec fn is_timestamp_range_error(e: CalcError, text: Seq<char>) -> bool {
    &&& e.kind == ErrorKind::Domain
    &&& e.message@ == "timestamp out of range: "@ + text
    &&& e.i18n_key == Some("msg.time.invalid_date")
    &&& args_view(e.i18n_args@) == seq![("value"@, text)]
}

/// The error for a Unix second outside the range of instants.
pub fn timestamp_range_error(text: &str) -> (e: CalcError)
    ensures
        is_timestamp_range_error(e, text@),
{
    let mut msg = owned("timestamp out of range: ");
    push_str(&mut msg, text);
    let mut args: Vec<(String, String)> = Vec::new();
    args.push((owned("value"), owned(text)));
    assert(args_view(args@) =~= seq![("value"@, text@)]);
    CalcError::domain(msg).with_i18n("msg.time.invalid_date", args)
}

/// `e` is the error for a time zone name that the database does not know.
pub open spec fn is_unknown_timezone_error(e: CalcError, name: Seq<char>) -> bool {
    &&& e.kind == ErrorKind::Domain
    &&& e.message@ == "unknown timezone: "@ + name
    &&& e.i18n_key == Some("msg.time.unknown_timezone")
    &&& args_view(e.i18n_args@) == seq![("tz"@, name)]
}

/// The error for a time zone name that the database does not know.
pub fn unknown_timezone_error(name: &str) -> (e: CalcError)
    ensures
        is_unknown_timezone_error(e, name@),
{
    let mut msg = owned("unknown timezone: ");
    push_str(&mut msg, name);
    let mut args: Vec<(String, String)> = Vec::new();
    args.push((owned("tz"), owned(name)));
    assert(args_view(args@) =~= seq![("tz"@, name@)]);
    CalcError::domain(msg).with_i18n("msg.time.unknown_timezone", args)
}

/// The refusal of a factorial in the time domain.
pub fn time_factorial_error() -> (e: CalcError)
    ensures
        e.kind == ErrorKind::Domain,
        e.message@ == "factorial not supported in time domain"@,
        e.i18n_key == Some("msg.time.factorial_not_supported"),
        e.i18n_args@.len() == 0,
{
    CalcError::domain(owned("factorial not supported in time domain"))
        .with_i18n("msg.time.factorial_not_supported", Vec::new())
}

/// The error for a long number literal that does not read as binary64.
pub fn time_bignumber_error(s: &str) -> (e: CalcError)
    ensures
        e.kind == ErrorKind::Domain,
        e.message@ == "invalid big number: "@ + s@,
        e.i18n_key == Some("msg.time.invalid_bignumber"),
        args_view(e.i18n_args@) == seq![("value"@, s@)],
{
    let mut msg = owned("invalid big number: ");
    push_str(&mut msg, s);
    let mut args: Vec<(String, String)> = Vec::new();
    args.push((owned("value"), owned(s)));
    assert(args_view(args@) =~= seq![("value"@, s@)]);
    CalcError::domain(msg).with_i18n("msg.time.invalid_bignumber", args)
}

/// The error for a value that is neither a number nor a date-time where one
/// is needed as a number (`expected scalar or datetime`), for text `shown`.
fn expected_scalar_error(s: &str) -> (e: CalcError)
    ensures
        e.kind == ErrorKind::Domain,
        e.i18n_key == Some("msg.time.expected_scalar_or_datetime"),
{
    let mut shown = owned("Symbolic(");
    let quoted = str_debug(s);
    push_str(&mut shown, quoted.as_str());
    push_str(&mut shown, ")");
    let mut msg = owned("time domain expected scalar or datetime, got ");
    push_str(&mut msg, shown.as_str());
    let mut args: Vec<(String, String)> = Vec::new();
    args.push((owned("got"), shown));
    CalcError::domain(msg).with_i18n("msg.time.expected_scalar_or_datetime", args)
}

/// The error for a value that is neither a number nor a date-time where an
/// instant is needed.
fn expected_datetime_error(s: &str) -> (e: CalcError)
    ensures
        e.kind == ErrorKind::Domain,
        e.i18n_key.is_none(),
{
    let mut msg = owned("expected datetime or scalar, got Symbolic(");
    let quoted = str_debug(s);
    push_str(&mut msg, quoted.as_str());
    push_str(&mut msg, ")");
    CalcError::domain(msg)
}

/// Whether a zone name is `UTC` in any letter case.
pub open spec fn is_utc_name(s: Seq<char>) -> bool {
    s.len() == 3 && (s[0] == 'u' || s[0] == 'U') && (s[1] == 't' || s[1] == 'T') && (s[2] == 'c' || s[2] == 'C')
}

fn utc_name(s: &str) -> (r: bool)
    ensures
        r == is_utc_name(s@),
{
    let cs = chars_of(s);
    cs.len() == 3 && (cs[0] == 'u' || cs[0] == 'U') && (cs[1] == 't' || cs[1] == 'T') && (cs[2] == 'c' || cs[2] == 'C')
}

// ---------------------------------------------------------------------------
// Reading argument values
// ---------------------------------------------------------------------------

/// The Unix second a number names: the integer itself, or Rust's `as i64`
/// of a binary64 value.
pub open spec fn value_second(v: TimeValue) -> Option<int> {
    match v {
        TimeValue::Integer(n) => Some(n as int),
        TimeValue::Number(b) => Some(f64_as_i64(b)),
        _ => None,
    }
}

/// Midnight-free UTC parts of a civil date-time.
pub open spec fn utc_parts(z: ZonedParts, t: CivilDateTime) -> bool {
    z.datetime == t && z.offset_seconds == 0 && z.time_zone is None
}

/// The zoned date-time an argument value names: a number is a Unix second
/// placed in UTC, a date-time text is read back; text is refused.
fn zoned_of_value(arg: &EvaluatedArg) -> (r: Result<ZonedParts, CalcError>)
    ensures
        value_second(arg.value) matches Some(sec) ==> match jiff_utc_of_second(sec) {
            Some(t) => r matches Ok(z) && utc_parts(z, t),
            None => r matches Err(e) && is_timestamp_range_error(e, arg.text@),
        },
        arg.value is Symbolic ==> (r matches Err(e) && e.kind == ErrorKind::Domain),
        r matches Ok(z) ==> valid_datetime(z.datetime),
        arg.value matches TimeValue::DateTime(s) ==> (r matches Ok(z) ==> is_zoned_reading(s@, z)),
        arg.value matches TimeValue::DateTime(s) ==> (spec_parse_datetime(s@) matches Some(t)
            && -9998 <= t.date.year <= 9998 ==> r is Ok),
{
    let second: i64 = match &arg.value {
        TimeValue::Integer(n) => *n,
        TimeValue::Number(b) => f64_to_i64_as(*b),
        TimeValue::DateTime(s) => return parse_str_to_zoned(s.as_str()),
        TimeValue::Symbolic(s) => return Err(expected_datetime_error(s.as_str())),
    };
    match utc_of_second(second) {
        Some(t) => Ok(ZonedParts { datetime: t, offset_seconds: 0, time_zone: None }),
        None => Err(timestamp_range_error(arg.text.as_str())),
    }
}

/// The civil date an argument value names (in UTC for a number).
fn date_of_value(arg: &EvaluatedArg) -> (r: Result<CivilDate, CalcError>)
    ensures
        value_second(arg.value) matches Some(sec) ==> match jiff_utc_of_second(sec) {
            Some(t) => r == Ok::<CivilDate, CalcError>(t.date),
            None => r matches Err(e) && is_timestamp_range_error(e, arg.text@),
        },
        r matches Ok(d) ==> valid_date(d),
{
    match zoned_of_value(arg) {
        Ok(z) => Ok(z.datetime.date),
        Err(e) => Err(e),
    }
}

/// The integer a number names: itself, or an integral binary64 value within
/// the `i64` range (`None` for other values, whose integer the call reads
/// otherwise or refuses).
pub open spec fn integer_value(v: TimeValue) -> Option<int> {
    match v {
        TimeValue::Integer(n) => Some(n as int),
        TimeValue::Number(b) => if f64_is_integral(b) && !f64_beyond_i64(b) {
            Some(saturate_i64(f64_integral_value(b)))
        } else {
            None
        },
        _ => None,
    }
}

/// The integer an argument value names: an integral binary64 value within
/// the `i64` range, an integer, or the Unix second of a date-time.
fn integer_of_value(arg: &EvaluatedArg) -> (r: Result<i64, CalcError>)
    ensures
        arg.value matches TimeValue::Integer(n) ==> r == Ok::<i64, CalcError>(n),
        arg.value matches TimeValue::Number(b) ==> if !f64_is_integral(b) {
            r matches Err(e) && is_requires_integer_error(e, arg.text@)
        } else if f64_beyond_i64(b) {
            r matches Err(e) && e.kind == ErrorKind::Overflow
        } else {
            r matches Ok(v) && v as int == saturate_i64(f64_integral_value(b))
        },
        arg.value is Symbolic ==> (r matches Err(e) && e.kind == ErrorKind::Domain),
        integer_value(arg.value) matches Some(n) ==> (r matches Ok(v) && v as int == n),
{
    match &arg.value {
        TimeValue::Integer(n) => Ok(*n),
        TimeValue::Number(b) => match f64_integral_to_i64(*b) {
            None => Err(requires_integer_error(arg.text.as_str())),
            Some(v) => if f64_is_beyond_i64(*b) { Err(CalcError::overflow()) } else { Ok(v) },
        },
        TimeValue::DateTime(s) => {
            let z = match parse_str_to_zoned(s.as_str()) {
                Ok(z) => z,
                Err(e) => return Err(e),
            };
            match zoned_second(&z) {
                Some(sec) => Ok(sec),
                None => Err(invalid_date_error(s.as_str())),
            }
        },
        TimeValue::Symbolic(s) => Err(expected_scalar_error(s.as_str())),
    }
}

// ---------------------------------------------------------------------------
// Nodes
// ---------------------------------------------------------------------------

/// The value of the first binding of `name`.
pub open spec fn first_binding(vars: Seq<(String, u64)>, name: Seq<char>) -> Option<u64>
    decreases vars.len(),
{
    if vars.len() == 0 {
        None
    } else if vars[0].0@ == name {
        Some(vars[0].1)
    } else {
        first_binding(vars.drop_first(), name)
    }
}

fn lookup_binding(vars: &Vec<(String, u64)>, name: &str) -> (r: Option<u64>)
    ensures
        r == first_binding(vars@, name@),
{
    let mut i: usize = 0;
    assert(vars@.skip(0) =~= vars@);
    while i < vars.len()
        invariant
            i <= vars@.len(),
            first_binding(vars@, name@) == first_binding(vars@.skip(i as int), name@),
        decreases vars@.len() - i,
    {
        proof {
            assert(vars@.skip(i as int).drop_first() =~= vars@.skip(i + 1));
            assert(vars@.skip(i as int)[0] == vars@[i as int]);
        }
        if str_eq(vars[i].0.as_str(), name) {
            return Some(vars[i].1);
        }
        i = i + 1;
    }
    assert(vars@.skip(i as int).len() == 0);
    None
}

/// The binary64 bit pattern of π.
pub open spec fn pi_bits() -> u64 {
    0x400921FB54442D18
}

/// The binary64 bit pattern of Euler's number e.
pub open spec fn e_bits() -> u64 {
    0x4005BF0A8B145769
}

/// What a node of the time domain is. A variable is its first binding in
/// `vars` (binary64 bit patterns), else the constant `pi` or `e`, else an
/// unbound-variable error; a string outside a function's arguments, a
/// complex number, a matrix and a list are refused.
pub fn time_node_step(ast: &AstNode, vars: &Vec<(String, u64)>) -> (r: Result<TimeStep, CalcError>)
    ensures
        match *ast {
            AstNode::FunctionCall(_, _) => r == Ok::<TimeStep, CalcError>(TimeStep::Call),
            AstNode::Number(b) => r == Ok::<TimeStep, CalcError>(TimeStep::Value(TimeValue::Number(b))),
            AstNode::BigNumber(s) => r matches Ok(TimeStep::ParseNumber(t)) && t@ == s@,
            AstNode::Variable(name) => match first_binding(vars@, name@) {
                Some(b) => r == Ok::<TimeStep, CalcError>(TimeStep::Value(TimeValue::Number(b))),
                None => if name@ == "pi"@ {
                    r == Ok::<TimeStep, CalcError>(TimeStep::Value(TimeValue::Number(pi_bits())))
                } else if name@ == "e"@ {
                    r == Ok::<TimeStep, CalcError>(TimeStep::Value(TimeValue::Number(e_bits())))
                } else {
                    r matches Err(e) && e.kind == ErrorKind::Eval && e.message@ == "unbound variable: "@ + name@
                        && e.i18n_key == Some("msg.unbound_variable")
                        && args_view(e.i18n_args@) == seq![("name"@, name@)]
                },
            },
            AstNode::BinaryOp(op, _, _) => r == Ok::<TimeStep, CalcError>(TimeStep::Binary(op)),
            AstNode::UnaryOp(op, _) => if op == UnaryOp::Factorial {
                r == Ok::<TimeStep, CalcError>(TimeStep::Factorial)
            } else {
                r == Ok::<TimeStep, CalcError>(TimeStep::Unary(op))
            },
            AstNode::Str(_) => r matches Err(e) && e.kind == ErrorKind::Domain
                && e.message@ == "string operand not supported in time domain binary/unary operations"@
                && e.i18n_key == Some("msg.time.string_operand_not_supported") && e.i18n_args@.len() == 0,
            _ => r matches Err(e) && e.kind == ErrorKind::Domain && e.i18n_key == Some("msg.time.unsupported_node"),
        },
{
    match ast {
        AstNode::FunctionCall(_, _) => Ok(TimeStep::Call),
        AstNode::Number(b) => Ok(TimeStep::Value(TimeValue::Number(*b))),
        AstNode::BigNumber(s) => Ok(TimeStep::ParseNumber(owned(s.as_str()))),
        AstNode::Variable(name) => {
            if let Some(b) = lookup_binding(vars, name.as_str()) {
                return Ok(TimeStep::Value(TimeValue::Number(b)));
            }
            if str_eq(name.as_str(), "pi") {
                Ok(TimeStep::Value(TimeValue::Number(0x400921FB54442D18)))
            } else if str_eq(name.as_str(), "e") {
                Ok(TimeStep::Value(TimeValue::Number(0x4005BF0A8B145769)))
            } else {
                let mut msg = owned("unbound variable: ");
                push_str(&mut msg, name.as_str());
                let mut args: Vec<(String, String)> = Vec::new();
                args.push((owned("name"), owned(name.as_str())));
                assert(args_view(args@) =~= seq![("name"@, name@)]);
                Err(CalcError::eval(msg).with_i18n("msg.unbound_variable", args))
            }
        },
        AstNode::BinaryOp(op, _, _) => Ok(TimeStep::Binary(*op)),
        AstNode::UnaryOp(op, _) => match op {
            UnaryOp::Factorial => Ok(TimeStep::Factorial),
            _ => Ok(TimeStep::Unary(*op)),
        },
        AstNode::Str(_) => Err(CalcError::domain(owned("string operand not supported in time domain binary/unary operations"))
            .with_i18n("msg.time.string_operand_not_supported", Vec::new())),
        _ => {
            let shown = node_debug(ast);
            let mut msg = owned("time domain does not support this node type: ");
            push_str(&mut msg, shown.as_str());
            let mut args: Vec<(String, String)> = Vec::new();
            args.push((owned("node"), shown));
            Err(CalcError::domain(msg).with_i18n("msg.time.unsupported_node", args))
        },
    }
}

// ---------------------------------------------------------------------------
// Calls
// ---------------------------------------------------------------------------

/// The text of a string-literal argument.
fn str_arg(n: &AstNode) -> (r: Result<String, CalcError>)
    ensures
        match *n {
            AstNode::Str(s) => r matches Ok(t) && t@ == s@,
            _ => r matches Err(e) && e.kind == ErrorKind::Domain && e.i18n_key == Some("msg.time.requires_string_arg"),
        },
{
    match n {
        AstNode::Str(s) => Ok(owned(s.as_str())),
        _ => Err(requires_string_arg_error(n)),
    }
}

/// A zone argument: UTC in any letter case, or a name to look up.
fn zone_arg(n: &AstNode) -> (r: Result<ZoneChoice, CalcError>)
    ensures
        match *n {
            AstNode::Str(s) => if is_utc_name(s@) {
                r == Ok::<ZoneChoice, CalcError>(ZoneChoice::Utc)
            } else {
                r matches Ok(ZoneChoice::Named(t)) && t@ == s@
            },
            _ => r matches Err(e) && e.kind == ErrorKind::Domain && e.i18n_key == Some("msg.time.requires_string_arg"),
        },
{
    match n {
        AstNode::Str(s) => if utc_name(s.as_str()) { Ok(ZoneChoice::Utc) } else { Ok(ZoneChoice::Named(owned(s.as_str()))) },
        _ => Err(requires_string_arg_error(n)),
    }
}

/// `z` is the zoned date-time the call reads from an argument: a string is
/// read as a zoned date-time; a value the caller supplied is a Unix second in
/// UTC, or a date-time text read back.
pub open spec fn zoned_arg_result(a: AstNode, sup: Option<EvaluatedArg>, z: ZonedParts) -> bool {
    match a {
        AstNode::Str(s) => is_zoned_reading(s@, z),
        _ => match sup {
            Some(arg) => match value_second(arg.value) {
                Some(sec) => jiff_utc_of_second(sec) matches Some(t) && utc_parts(z, t),
                None => arg.value matches TimeValue::DateTime(s) && is_zoned_reading(s@, z),
            },
            None => false,
        },
    }
}

/// The reading of an argument as a zoned date-time cannot fail: a date-time
/// text the calculator reads with a year in `-9998..=9998`, or a Unix second
/// within jiff's range (or a value still to be evaluated).
pub open spec fn zoned_arg_owed(a: AstNode, sup: Option<EvaluatedArg>) -> bool {
    match a {
        AstNode::Str(s) => spec_parse_datetime(s@) matches Some(t) && -9998 <= t.date.year <= 9998,
        _ => match sup {
            Some(arg) => match value_second(arg.value) {
                Some(sec) => jiff_utc_of_second(sec) is Some,
                None => arg.value matches TimeValue::DateTime(s)
                    && spec_parse_datetime(s@) matches Some(t) && -9998 <= t.date.year <= 9998,
            },
            None => true,
        },
    }
}

/// The zoned date-time of argument `i`: a string is read as a zoned
/// date-time; anything else is the value the caller supplied (`None` when
/// it still has to be evaluated).
fn zoned_arg(args: &Vec<AstNode>, supplied: &Vec<Option<EvaluatedArg>>, i: usize) -> (r: Option<Result<ZonedParts, CalcError>>)
    requires
        i < args.len(),
        supplied.len() == args.len(),
    ensures
        r is None <==> (!(args@[i as int] is Str) && supplied@[i as int] is None),
        r matches Some(Ok(z)) ==> zoned_arg_result(args@[i as int], supplied@[i as int], z),
        zoned_arg_owed(args@[i as int], supplied@[i as int]) ==> !(r matches Some(Err(_))),
{
    match &args[i] {
        AstNode::Str(s) => Some(parse_str_to_zoned(s.as_str())),
        _ => match &supplied[i] {
            Some(a) => Some(zoned_of_value(a)),
            None => None,
        },
    }
}

/// `r` answers `date(a)`: midnight UTC of the date the text holds, in
/// RFC 3339 form.
pub open spec fn date_call_result(a: AstNode, r: Result<TimeCall, CalcError>) -> bool {
    match a {
        AstNode::Str(s) => match spec_parse_date(s@) {
            Some(d) => if -9998 <= d.year <= 9998 {
                r matches Ok(TimeCall::Done(TimeValue::DateTime(t))) && t@ == spec_rfc3339(midnight(d), 0)
            } else {
                (r matches Ok(TimeCall::Done(TimeValue::DateTime(t))) && t@ == spec_rfc3339(midnight(d), 0))
                    || (r matches Err(e) && is_invalid_date_error(e, s@))
            },
            None => r matches Err(e) && if jiff_date_from_str(s@).is_none() && is_ambiguous(s@) {
                is_ambiguous_format_error(e)
            } else {
                is_invalid_date_error(e, s@)
            },
        },
        _ => r matches Err(e) && e.kind == ErrorKind::Domain && e.i18n_key == Some("msg.time.requires_string_arg"),
    }
}

fn call_date(args: &Vec<AstNode>) -> (r: Result<TimeCall, CalcError>)
    requires
        args.len() == 1,
    ensures
        !(r matches Ok(TimeCall::Evaluate(_))),
        date_call_result(args@[0], r),
{
    let s = match &args[0] {
        AstNode::Str(s) => s,
        other => return Err(requires_string_arg_error(other)),
    };
    let d = match parse_date_multi_format(s.as_str()) {
        Ok(d) => d,
        Err(e) => return Err(e),
    };
    match datetime_in_utc(CivilDateTime { date: d, hour: 0, minute: 0, second: 0, subsec_nanosecond: 0 }) {
        Some(z) => Ok(TimeCall::Done(TimeValue::DateTime(zoned_to_rfc3339(&z)))),
        None => Err(invalid_date_error(s.as_str())),
    }
}

/// `r` answers `datetime(a)` (no zone): the date-time the text holds, in
/// UTC, in RFC 3339 form.
pub open spec fn datetime_call_result(a: AstNode, r: Result<TimeCall, CalcError>) -> bool {
    match a {
        AstNode::Str(s) => match spec_parse_datetime(s@) {
            Some(t) => -9998 <= t.date.year <= 9998 ==>
                (r matches Ok(TimeCall::Done(TimeValue::DateTime(x))) && x@ == spec_rfc3339(t, 0)),
            None => r is Err,
        },
        _ => r matches Err(e) && e.kind == ErrorKind::Domain && e.i18n_key == Some("msg.time.requires_string_arg"),
    }
}

fn call_datetime(args: &Vec<AstNode>) -> (r: Result<TimeCall, CalcError>)
    requires
        1 <= args.len() <= 2,
    ensures
        !(r matches Ok(TimeCall::Evaluate(_))),
        r matches Ok(c) ==> (c is Done || c is DateTimeInZone),
        args.len() == 1 ==> datetime_call_result(args@[0], r),
{
    let s = match &args[0] {
        AstNode::Str(s) => s,
        other => return Err(requires_string_arg_error(other)),
    };
    if args.len() == 2 {
        match zone_arg(&args[1]) {
            Ok(ZoneChoice::Named(zone)) => {
                return Ok(TimeCall::DateTimeInZone { input: owned(s.as_str()), zone_name: zone });
            },
            Ok(ZoneChoice::Utc) => {},
            Err(e) => return Err(e),
        }
    }
    let t = match parse_datetime_multi_format(s.as_str()) {
        Ok(t) => t,
        Err(e) => return Err(e),
    };
    match datetime_in_utc(t) {
        Some(z) => Ok(TimeCall::Done(TimeValue::DateTime(zoned_to_rfc3339(&z)))),
        None => Err(invalid_date_error(s.as_str())),
    }
}

/// `r` answers `timestamp(a)`: the Unix second of the instant the text
/// holds, read as RFC 3339 first and then in the timestamp layouts.
pub open spec fn timestamp_call_result(a: AstNode, r: Result<TimeCall, CalcError>) -> bool {
    match a {
        AstNode::Str(s) => match jiff_timestamp_from_str(s@) {
            Some(t) => r matches Ok(TimeCall::Done(TimeValue::Integer(k))) && k == t.second,
            None => match first_timestamp_format_match(s@, 0) {
                Some(t) => r matches Ok(TimeCall::Done(TimeValue::Integer(k))) && k == t.second,
                None => r matches Err(e) && is_invalid_date_error(e, s@),
            },
        },
        _ => r matches Err(e) && e.kind == ErrorKind::Domain && e.i18n_key == Some("msg.time.requires_string_arg"),
    }
}

fn call_timestamp(args: &Vec<AstNode>) -> (r: Result<TimeCall, CalcError>)
    requires
        args.len() == 1,
    ensures
        !(r matches Ok(TimeCall::Evaluate(_))),
        timestamp_call_result(args@[0], r),
{
    let s = match &args[0] {
        AstNode::Str(s) => s,
        other => return Err(requires_string_arg_error(other)),
    };
    match timestamp_from_str(s.as_str()) {
        Some(t) => Ok(TimeCall::Done(TimeValue::Integer(t.second))),
        None => match parse_timestamp_strptime(s.as_str()) {
            Ok(t) => Ok(TimeCall::Done(TimeValue::Integer(t.second))),
            Err(_) => Err(invalid_date_error(s.as_str())),
        },
    }
}

/// `r` answers `from_timestamp(a)` (no zone): the instant of the Unix
/// second in UTC, in RFC 3339 form.
pub open spec fn from_timestamp_call_result(sup: Option<EvaluatedArg>, r: Result<TimeCall, CalcError>) -> bool {
    match sup {
        None => r matches Ok(TimeCall::Evaluate(i)) && i == 0,
        Some(arg) => match arg.value {
            TimeValue::Integer(n) => match jiff_utc_of_second(n as int) {
                Some(t) => r matches Ok(TimeCall::Done(TimeValue::DateTime(x))) && x@ == spec_rfc3339(t, 0),
                None => r matches Err(e) && is_timestamp_range_error(e, int_decimal(n as int)),
            },
            _ => true,
        },
    }
}

fn call_from_timestamp(args: &Vec<AstNode>, supplied: &Vec<Option<EvaluatedArg>>) -> (r: Result<TimeCall, CalcError>)
    requires
        1 <= args.len() <= 2,
        supplied.len() == args.len(),
    ensures
        args.len() == 1 ==> from_timestamp_call_result(supplied@[0], r),
        r matches Ok(TimeCall::Evaluate(i)) ==> i == 0 && supplied@[0] is None,
        r matches Ok(c) ==> (c is Evaluate || c is Done || c is InstantInZone),
{
    let a = match &supplied[0] {
        Some(a) => a,
        None => return Ok(TimeCall::Evaluate(0)),
    };
    let second = match integer_of_value(a) {
        Ok(v) => v,
        Err(e) => return Err(e),
    };
    let mut text = String::new();
    push_i64(&mut text, second);
    if args.len() == 2 {
        match zone_arg(&args[1]) {
            Ok(ZoneChoice::Named(zone)) => {
                return Ok(TimeCall::InstantInZone { second, second_text: text, zone_name: zone });
            },
            Ok(ZoneChoice::Utc) => {},
            Err(e) => return Err(e),
        }
    }
    match utc_of_second(second) {
        Some(t) => {
            let z = ZonedParts { datetime: t, offset_seconds: 0, time_zone: None };
            Ok(TimeCall::Done(TimeValue::DateTime(zoned_to_rfc3339(&z))))
        },
        None => Err(timestamp_range_error(text.as_str())),
    }
}

/// The unit argument of `date_diff`: the unit the third argument names, or
/// days when there is none.
pub open spec fn diff_unit(args: Seq<AstNode>) -> Option<TimeUnit> {
    if args.len() == 3 { named_unit(args[2]) } else { Some(TimeUnit::Day) }
}

/// `r` answers `date_diff(a, b[, unit])`: the span from the reading of the
/// first argument to that of the second, in the unit; owed when both
/// readings cannot fail and the unit is known.
pub open spec fn date_diff_result(args: Seq<AstNode>, supplied: Seq<Option<EvaluatedArg>>, r: Result<TimeCall, CalcError>) -> bool {
    &&& r matches Ok(c) ==> (c is Evaluate || c is DateDiff)
    &&& r matches Ok(TimeCall::DateDiff { from, to, unit }) ==> zoned_arg_result(args[0], supplied[0], from)
        && zoned_arg_result(args[1], supplied[1], to) && diff_unit(args) == Some(unit)
    &&& zoned_arg_owed(args[0], supplied[0]) && zoned_arg_owed(args[1], supplied[1]) && diff_unit(args) is Some
        ==> r is Ok
}

fn call_date_diff(args: &Vec<AstNode>, supplied: &Vec<Option<EvaluatedArg>>) -> (r: Result<TimeCall, CalcError>)
    requires
        2 <= args.len() <= 3,
        supplied.len() == args.len(),
    ensures
        r matches Ok(TimeCall::Evaluate(i)) ==> i < args.len() && supplied@[i as int] is None,
        date_diff_result(args@, supplied@, r),
{
    let from = match zoned_arg(args, supplied, 0) {
        None => return Ok(TimeCall::Evaluate(0)),
        Some(Err(e)) => return Err(e),
        Some(Ok(z)) => z,
    };
    let to = match zoned_arg(args, supplied, 1) {
        None => return Ok(TimeCall::Evaluate(1)),
        Some(Err(e)) => return Err(e),
        Some(Ok(z)) => z,
    };
    let unit = if args.len() == 3 {
        let u = match str_arg(&args[2]) {
            Ok(u) => u,
            Err(e) => return Err(e),
        };
        match parse_time_unit(u.as_str()) {
            Ok(unit) => unit,
            Err(e) => return Err(e),
        }
    } else {
        TimeUnit::Day
    };
    Ok(TimeCall::DateDiff { from, to, unit })
}

/// `r` answers `date_add(d, n, unit)`: the reading of the first argument,
/// the integer of the second and the unit the third names; owed when the
/// reading cannot fail, the count is an integer and the unit is known.
pub open spec fn date_add_result(args: Seq<AstNode>, supplied: Seq<Option<EvaluatedArg>>, r: Result<TimeCall, CalcError>) -> bool {
    &&& r matches Ok(c) ==> (c is Evaluate || c is DateAdd)
    &&& r matches Ok(TimeCall::DateAdd { start, count, unit }) ==> {
        &&& zoned_arg_result(args[0], supplied[0], start)
        &&& count_read(supplied[1], count as int)
        &&& named_unit(args[2]) == Some(unit)
    }
    &&& zoned_arg_owed(args[0], supplied[0]) && count_owed(supplied[1]) && named_unit(args[2]) is Some
        ==> r is Ok
}

/// The unit a string argument names.
pub open spec fn named_unit(a: AstNode) -> Option<TimeUnit> {
    match a {
        AstNode::Str(u) => spec_time_unit(u@),
        _ => None,
    }
}

/// `count` is the integer of the supplied value, when it names one.
pub open spec fn count_read(sup: Option<EvaluatedArg>, count: int) -> bool {
    match sup {
        Some(arg) => integer_value(arg.value) is Some ==> integer_value(arg.value) == Some(count),
        None => false,
    }
}

/// The count is still to be evaluated, or names an integer.
pub open spec fn count_owed(sup: Option<EvaluatedArg>) -> bool {
    match sup {
        Some(arg) => integer_value(arg.value) is Some,
        None => true,
    }
}

fn call_date_add(args: &Vec<AstNode>, supplied: &Vec<Option<EvaluatedArg>>) -> (r: Result<TimeCall, CalcError>)
    requires
        args.len() == 3,
        supplied.len() == args.len(),
    ensures
        r matches Ok(TimeCall::Evaluate(i)) ==> i < args.len() && supplied@[i as int] is None,
        date_add_result(args@, supplied@, r),
{
    let start = match zoned_arg(args, supplied, 0) {
        None => return Ok(TimeCall::Evaluate(0)),
        Some(Err(e)) => return Err(e),
        Some(Ok(z)) => z,
    };
    let count = match &supplied[1] {
        None => return Ok(TimeCall::Evaluate(1)),
        Some(a) => match integer_of_value(a) {
            Ok(v) => v,
            Err(e) => return Err(e),
        },
    };
    let u = match str_arg(&args[2]) {
        Ok(u) => u,
        Err(e) => return Err(e),
    };
    match parse_time_unit(u.as_str()) {
        Ok(unit) => Ok(TimeCall::DateAdd { start, count, unit }),
        Err(e) => Err(e),
    }
}

/// `zone` is what a zone argument names.
pub open spec fn zone_read(a: AstNode, zone: ZoneChoice) -> bool {
    match a {
        AstNode::Str(s) => if is_utc_name(s@) {
            zone == ZoneChoice::Utc
        } else {
            zone matches ZoneChoice::Named(t) && t@ == s@
        },
        _ => false,
    }
}

/// `fmt` is the reading of a format argument: its text, or the error for an
/// argument that is not a string.
pub open spec fn fmt_read(a: AstNode, fmt: Result<String, CalcError>) -> bool {
    match a {
        AstNode::Str(f) => fmt matches Ok(t) && t@ == f@,
        _ => fmt matches Err(e) && e.kind == ErrorKind::Domain && e.i18n_key == Some("msg.time.requires_string_arg"),
    }
}

/// `t` is the text of a reading of the argument written with the format
/// (stated for a reading at a fixed offset).
pub open spec fn formatted_reading(a: AstNode, sup: Option<EvaluatedArg>, f: Seq<char>, t: Seq<char>) -> bool {
    exists|z: ZonedParts| #[trigger] zoned_arg_result(a, sup, z)
        && (z.time_zone is None ==> jiff_strtime_format(f, z.datetime, z.offset_seconds as int) == Some(t))
}

/// `r` answers `format_date(d, fmt[, zone])`: with a zone, the reading of the
/// first argument, the zone and the format are handed over; without one, the
/// reading written with the format. Owed with a zone when the reading cannot
/// fail and the zone is a string; without one, for a Unix second that jiff
/// places and a format it writes.
pub open spec fn format_date_result(args: Seq<AstNode>, supplied: Seq<Option<EvaluatedArg>>, r: Result<TimeCall, CalcError>) -> bool {
    &&& r matches Ok(c) ==> (c is Evaluate || c is Done || c is FormatInZone)
    &&& r matches Ok(TimeCall::FormatInZone { zoned, in_zone, fmt }) ==> {
        &&& args.len() == 3
        &&& zoned_arg_result(args[0], supplied[0], zoned)
        &&& zone_read(args[2], in_zone)
        &&& fmt_read(args[1], fmt)
    }
    &&& r matches Ok(TimeCall::Done(v)) ==> {
        &&& args.len() == 2
        &&& args[1] matches AstNode::Str(f)
        &&& v matches TimeValue::Symbolic(t)
        &&& formatted_reading(args[0], supplied[0], f@, t@)
    }
    &&& args.len() == 3 && zoned_arg_owed(args[0], supplied[0]) && args[2] is Str ==> r is Ok
    &&& args.len() == 2 && !(args[0] is Str) ==> (format_owed(args[1], supplied[0]) ==> r is Ok)
}

/// Without a zone, formatting a Unix second cannot fail: jiff places the
/// second and writes the format.
pub open spec fn format_owed(fa: AstNode, sup: Option<EvaluatedArg>) -> bool {
    match fa {
        AstNode::Str(f) => match sup {
            Some(arg) => match value_second(arg.value) {
                Some(sec) => match jiff_utc_of_second(sec) {
                    Some(t) => jiff_strtime_format(f@, t, 0) is Some,
                    None => false,
                },
                None => false,
            },
            None => true,
        },
        _ => false,
    }
}

/// `r` answers `parse_date(input, fmt)` as `parse_date_with_format` does.
pub open spec fn parse_date_result(args: Seq<AstNode>, r: Result<TimeCall, CalcError>) -> bool {
    &&& r matches Ok(c) ==> c is Done
    &&& match (args[0], args[1]) {
        (AstNode::Str(s), AstNode::Str(f)) => match jiff_date_strptime(f@, s@) {
            Some(d) => match r {
                Ok(TimeCall::Done(TimeValue::DateTime(t))) => t@ == spec_rfc3339(midnight(d), 0),
                Ok(_) => false,
                Err(e) => is_invalid_date_error(e, s@) && !(-9998 <= d.year <= 9998),
            },
            None => match r {
                Ok(TimeCall::Done(TimeValue::DateTime(_))) => true,
                Ok(_) => false,
                Err(e) => is_format_mismatch_error(e, f@),
            },
        },
        _ => r matches Err(e) && e.kind == ErrorKind::Domain && e.i18n_key == Some("msg.time.requires_string_arg"),
    }
}

/// `r` answers `reformat_date(input, from, to)` as `reformat_date` does.
pub open spec fn reformat_date_result(args: Seq<AstNode>, r: Result<TimeCall, CalcError>) -> bool {
    &&& r matches Ok(c) ==> c is Done
    &&& match (args[0], args[1], args[2]) {
        (AstNode::Str(s), AstNode::Str(from), AstNode::Str(to)) => match jiff_date_strptime(from@, s@) {
            Some(d) => match r {
                Ok(TimeCall::Done(TimeValue::Symbolic(t))) => jiff_strtime_format(to@, midnight(d), 0) == Some(t@),
                Ok(_) => false,
                Err(e) => (is_invalid_date_error(e, s@) && !(-9998 <= d.year <= 9998))
                    || (jiff_strtime_format(to@, midnight(d), 0) is None && is_format_mismatch_error(e, to@)),
            },
            None => match r {
                Ok(TimeCall::Done(TimeValue::Symbolic(_))) => true,
                Ok(_) => false,
                Err(e) => is_format_mismatch_error(e, from@) || is_format_mismatch_error(e, to@),
            },
        },
        _ => r matches Err(e) && e.kind == ErrorKind::Domain && e.i18n_key == Some("msg.time.requires_string_arg"),
    }
}

fn call_parse_date(args: &Vec<AstNode>) -> (r: Result<TimeCall, CalcError>)
    requires
        args.len() == 2,
    ensures
        parse_date_result(args@, r),
{
    let input = match str_arg(&args[0]) {
        Ok(s) => s,
        Err(e) => return Err(e),
    };
    let fmt = match str_arg(&args[1]) {
        Ok(s) => s,
        Err(e) => return Err(e),
    };
    match parse_date_with_format(input.as_str(), fmt.as_str()) {
        Ok(t) => Ok(TimeCall::Done(TimeValue::DateTime(t))),
        Err(e) => Err(e),
    }
}

fn call_reformat_date(args: &Vec<AstNode>) -> (r: Result<TimeCall, CalcError>)
    requires
        args.len() == 3,
    ensures
        reformat_date_result(args@, r),
{
    let input = match str_arg(&args[0]) {
        Ok(s) => s,
        Err(e) => return Err(e),
    };
    let from_fmt = match str_arg(&args[1]) {
        Ok(s) => s,
        Err(e) => return Err(e),
    };
    let to_fmt = match str_arg(&args[2]) {
        Ok(s) => s,
        Err(e) => return Err(e),
    };
    match reformat_date(input.as_str(), from_fmt.as_str(), to_fmt.as_str()) {
        Ok(t) => Ok(TimeCall::Done(TimeValue::Symbolic(t))),
        Err(e) => Err(e),
    }
}

fn call_format_date(args: &Vec<AstNode>, supplied: &Vec<Option<EvaluatedArg>>) -> (r: Result<TimeCall, CalcError>)
    requires
        2 <= args.len() <= 3,
        supplied.len() == args.len(),
    ensures
        r matches Ok(TimeCall::Evaluate(i)) ==> i < args.len() && supplied@[i as int] is None,
        format_date_result(args@, supplied@, r),
{
    let zoned = match zoned_arg(args, supplied, 0) {
        None => return Ok(TimeCall::Evaluate(0)),
        Some(Err(e)) => return Err(e),
        Some(Ok(z)) => z,
    };
    if args.len() == 3 {
        let in_zone = match zone_arg(&args[2]) {
            Ok(c) => c,
            Err(e) => return Err(e),
        };
        let fmt = str_arg(&args[1]);
        return Ok(TimeCall::FormatInZone { zoned, in_zone, fmt });
    }
    let fmt = match str_arg(&args[1]) {
        Ok(s) => s,
        Err(e) => return Err(e),
    };
    match strtime_format(fmt.as_str(), &zoned) {
        Some(t) => {
            proof {
                assert(zoned_arg_result(args@[0], supplied@[0], zoned));
            }
            Ok(TimeCall::Done(TimeValue::Symbolic(t)))
        },
        None => Err(format_mismatch_error(fmt.as_str())),
    }
}

/// `r` answers a calendar query `f` (`weekday` or `day_of_year`) of one
/// argument: a date text is read as a date; a number is a Unix second taken
/// in UTC.
/// The day of the year (`ordinal`) or the weekday of a date.
pub open spec fn calendar_value(d: CivilDate, ordinal: bool) -> int {
    if ordinal { spec_day_of_year(d) } else { spec_weekday(d) }
}

pub open spec fn calendar_call_result(a: AstNode, sup: Option<EvaluatedArg>, ordinal: bool, r: Result<TimeCall, CalcError>) -> bool {
    match a {
        AstNode::Str(s) => match spec_parse_date(s@) {
            Some(d) => r matches Ok(TimeCall::Done(TimeValue::Integer(k))) && k == calendar_value(d, ordinal),
            None => r is Err,
        },
        _ => match sup {
            None => r matches Ok(TimeCall::Evaluate(i)) && i == 0,
            Some(arg) => match value_second(arg.value) {
                Some(sec) => match jiff_utc_of_second(sec) {
                    Some(t) => r matches Ok(TimeCall::Done(TimeValue::Integer(k))) && k == calendar_value(t.date, ordinal),
                    None => r matches Err(e) && is_timestamp_range_error(e, arg.text@),
                },
                None => !(r is Ok && r->Ok_0 is Evaluate),
            },
        },
    }
}

fn call_calendar(args: &Vec<AstNode>, supplied: &Vec<Option<EvaluatedArg>>, ordinal: bool) -> (r: Result<TimeCall, CalcError>)
    requires
        args.len() == 1,
        supplied.len() == args.len(),
    ensures
        calendar_call_result(args@[0], supplied@[0], ordinal, r),
        r matches Ok(TimeCall::Evaluate(i)) ==> i == 0 && supplied@[0] is None,
{
    let d = match &args[0] {
        AstNode::Str(s) => match parse_date_multi_format(s.as_str()) {
            Ok(d) => d,
            Err(e) => return Err(e),
        },
        _ => match &supplied[0] {
            None => return Ok(TimeCall::Evaluate(0)),
            Some(a) => match date_of_value(a) {
                Ok(d) => d,
                Err(e) => return Err(e),
            },
        },
    };
    if ordinal {
        Ok(TimeCall::Done(TimeValue::Integer(day_of_year(d))))
    } else {
        Ok(TimeCall::Done(TimeValue::Integer(weekday(d))))
    }
}

/// `r` answers `is_leap_year(a)`: one for a leap year of the Gregorian
/// calendar, zero otherwise.
pub open spec fn leap_call_result(sup: Option<EvaluatedArg>, r: Result<TimeCall, CalcError>) -> bool {
    match sup {
        None => r matches Ok(TimeCall::Evaluate(i)) && i == 0,
        Some(arg) => match arg.value {
            TimeValue::Integer(n) => r matches Ok(TimeCall::Done(TimeValue::Integer(k)))
                && k == (if spec_is_leap_year(n as int) { 1int } else { 0int }),
            TimeValue::Number(b) => if !f64_is_integral(b) {
                r matches Err(e) && is_requires_integer_error(e, arg.text@)
            } else if f64_beyond_i64(b) {
                r matches Err(e) && e.kind == ErrorKind::Overflow
            } else {
                r matches Ok(TimeCall::Done(TimeValue::Integer(k)))
                    && k == (if spec_is_leap_year(saturate_i64(f64_integral_value(b))) { 1int } else { 0int })
            },
            _ => !(r is Ok && r->Ok_0 is Evaluate),
        },
    }
}

fn call_is_leap_year(supplied: &Vec<Option<EvaluatedArg>>) -> (r: Result<TimeCall, CalcError>)
    requires
        supplied.len() == 1,
    ensures
        leap_call_result(supplied@[0], r),
        r matches Ok(TimeCall::Evaluate(i)) ==> i == 0 && supplied@[0] is None,
{
    let a = match &supplied[0] {
        Some(a) => a,
        None => return Ok(TimeCall::Evaluate(0)),
    };
    let year = match integer_of_value(a) {
        Ok(v) => v,
        Err(e) => return Err(e),
    };
    let leap = crate::calendar::is_leap_year(year);
    Ok(TimeCall::Done(TimeValue::Integer(if leap { 1 } else { 0 })))
}

fn call_clock(args: &Vec<AstNode>, day: bool) -> (r: Result<TimeCall, CalcError>)
    requires
        args.len() <= 1,
    ensures
        r matches Ok(c) ==> (if day { c is Today } else { c is Now }),
        args.len() == 0 ==> (r matches Ok(c) && c == (if day { TimeCall::Today(ZoneChoice::Utc) } else { TimeCall::Now(ZoneChoice::Utc) })),
{
    let zone = if args.len() == 1 {
        match zone_arg(&args[0]) {
            Ok(c) => c,
            Err(e) => return Err(e),
        }
    } else {
        ZoneChoice::Utc
    };
    if day { Ok(TimeCall::Today(zone)) } else { Ok(TimeCall::Now(zone)) }
}

/// What a call of an accepted time function with an accepted number of
/// arguments answers, function by function.
pub open spec fn time_call_result(name: Seq<char>, args: Seq<AstNode>, supplied: Seq<Option<EvaluatedArg>>, r: Result<TimeCall, CalcError>) -> bool {
    if name == "date"@ {
        args.len() == 1 ==> date_call_result(args[0], r)
    } else if name == "datetime"@ {
        &&& args.len() == 1 ==> datetime_call_result(args[0], r)
        &&& r matches Ok(c) ==> (c is Done || c is DateTimeInZone)
    } else if name == "timestamp"@ {
        args.len() == 1 ==> timestamp_call_result(args[0], r)
    } else if name == "from_timestamp"@ {
        &&& args.len() == 1 ==> from_timestamp_call_result(supplied[0], r)
        &&& r matches Ok(c) ==> (c is Evaluate || c is Done || c is InstantInZone)
    } else if name == "date_diff"@ {
        date_diff_result(args, supplied, r)
    } else if name == "date_add"@ {
        date_add_result(args, supplied, r)
    } else if name == "parse_date"@ {
        parse_date_result(args, r)
    } else if name == "reformat_date"@ {
        reformat_date_result(args, r)
    } else if name == "format_date"@ {
        format_date_result(args, supplied, r)
    } else if name == "weekday"@ {
        args.len() == 1 ==> calendar_call_result(args[0], supplied[0], false, r)
    } else if name == "day_of_year"@ {
        args.len() == 1 ==> calendar_call_result(args[0], supplied[0], true, r)
    } else if name == "is_leap_year"@ {
        args.len() == 1 ==> leap_call_result(supplied[0], r)
    } else if name == "now"@ {
        &&& args.len() == 0 ==> (r matches Ok(c) && c == TimeCall::Now(ZoneChoice::Utc))
        &&& r matches Ok(c) ==> c is Now
    } else {
        &&& args.len() == 0 ==> (r matches Ok(c) && c == TimeCall::Today(ZoneChoice::Utc))
        &&& r matches Ok(c) ==> c is Today
    }
}

/// A call of a time function. A name outside the fourteen is an
/// unknown-function error and an argument count the function does not
/// accept an argument-count error; otherwise the arguments are read in the
/// order the function takes them. A string argument is read as it is
/// written; any other argument is evaluated by the caller, which is asked
/// for it with `Evaluate(i)` and supplies it in `supplied[i]` on the next
/// call. Work that needs the clock, the time-zone database or calendar spans
/// is handed back with the values already read.
pub fn eval_time_call(name: &str, args: &Vec<AstNode>, supplied: &Vec<Option<EvaluatedArg>>) -> (r: Result<TimeCall, CalcError>)
    requires
        supplied.len() == args.len(),
    ensures
        !(name_set(spec_time_functions()))(name@) ==> (r matches Err(e) && is_unknown_time_function_error(e, name@)),
        (name_set(spec_time_functions()))(name@) && !(time_arity(name@).0 <= args.len() <= time_arity(name@).1)
            ==> (r matches Err(e) && is_arg_count_error(e, name@, args.len() as nat)),
        r matches Ok(TimeCall::Evaluate(i)) ==> i < args.len() && supplied@[i as int] is None,
        (name_set(spec_time_functions()))(name@) && time_arity(name@).0 <= args.len() <= time_arity(name@).1
            ==> time_call_result(name@, args@, supplied@, r),
{
    let names = time_functions();
    if !name_in(&names, name) {
        return Err(unknown_function_error(name));
    }
    let (lo, hi, _phrase, _expected) = arity(name);
    if args.len() < lo || args.len() > hi {
        return Err(arg_count_error(name, args.len()));
    }
    proof {
        reveal_strlit("date");
        reveal_strlit("datetime");
        reveal_strlit("timestamp");
        reveal_strlit("from_timestamp");
        reveal_strlit("date_diff");
        reveal_strlit("date_add");
        reveal_strlit("parse_date");
        reveal_strlit("format_date");
        reveal_strlit("reformat_date");
        reveal_strlit("weekday");
        reveal_strlit("day_of_year");
        reveal_strlit("is_leap_year");
        reveal_strlit("now");
        reveal_strlit("today");
        assert("date"@.len() == 4);
        assert("datetime"@.len() == 8);
        assert("timestamp"@.len() == 9);
        assert("from_timestamp"@.len() == 14);
        assert("date_diff"@.len() == 9);
        assert("date_add"@.len() == 8);
        assert("parse_date"@.len() == 10);
        assert("format_date"@.len() == 11);
        assert("reformat_date"@.len() == 13);
        assert("weekday"@.len() == 7);
        assert("day_of_year"@.len() == 11);
        assert("is_leap_year"@.len() == 12);
        assert("now"@.len() == 3);
        assert("today"@.len() == 5);
        assert("timestamp"@[0] != "date_diff"@[0]);
        assert("datetime"@[4] != "date_add"@[4]);
        assert("format_date"@[0] != "day_of_year"@[0]);
    }
    if str_eq(name, "date") {
        call_date(args)
    } else if str_eq(name, "datetime") {
        call_datetime(args)
    } else if str_eq(name, "timestamp") {
        call_timestamp(args)
    } else if str_eq(name, "from_timestamp") {
        call_from_timestamp(args, supplied)
    } else if str_eq(name, "date_diff") {
        call_date_diff(args, supplied)
    } else if str_eq(name, "date_add") {
        call_date_add(args, supplied)
    } else if str_eq(name, "parse_date") {
        call_parse_date(args)
    } else if str_eq(name, "reformat_date") {
        call_reformat_date(args)
    } else if str_eq(name, "format_date") {
        call_format_date(args, supplied)
    } else if str_eq(name, "weekday") {
        call_calendar(args, supplied, false)
    } else if str_eq(name, "day_of_year") {
        call_calendar(args, supplied, true)
    } else if str_eq(name, "is_leap_year") {
        call_is_leap_year(supplied)
    } else if str_eq(name, "now") {
        call_clock(args, false)
    } else {
        call_clock(args, true)
    }
}

} // verus!
