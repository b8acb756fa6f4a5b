//! Reading dates, date-times and timestamps in the formats the calculator
//! accepts. `jiff` reads each single format (and `regex` finds the parts of
//! Chinese dates); this module decides which formats are tried and in which
//! order, rejects all-numeric dates whose day and month cannot be told apart,
//! and turns a failure into the error the user sees.

use vstd::prelude::*;
use crate::calendar::{
    ambiguous_date_pattern, ambiguous_format_error, invalid_date_error, invalid_date_message,
    is_ambiguous_numeric_date, is_leap_year, regex_match, spec_is_leap_year,
};
use crate::error::{args_view, CalcError, ErrorKind};
use crate::text::chars_of;

verus! {

/// A civil date of the proleptic Gregorian calendar.
#[derive(Debug, Clone, Copy, PartialEq, Eq, Structural)]
pub struct CivilDate {
    pub year: i16,
    pub month: i8,
    pub day: i8,
}

/// A civil date with a time of day.
#[derive(Debug, Clone, Copy, PartialEq, Eq, Structural)]
pub struct CivilDateTime {
    pub date: CivilDate,
    pub hour: i8,
    pub minute: i8,
    pub second: i8,
    pub subsec_nanosecond: i32,
}

/// An instant: seconds and nanoseconds since the Unix epoch.
#[derive(Debug, Clone, Copy, PartialEq, Eq, Structural)]
pub struct Instant {
    pub second: i64,
    pub nanosecond: i32,
}

/// The number of days of a month.
pub open spec fn days_in_month(year: int, month: int) -> int {
    if month == 2 {
        if spec_is_leap_year(year) { 29 } else { 28 }
    } else if month == 4 || month == 6 || month == 9 || month == 11 {
        30
    } else {
        31
    }
}

/// A date in the range `jiff` supports: years `-9999..=9999`, months
/// `1..=12`, days within the month.
pub open spec fn valid_date(d: CivilDate) -> bool {
    &&& -9999 <= d.year <= 9999
    &&& 1 <= d.month <= 12
    &&& 1 <= d.day <= days_in_month(d.year as int, d.month as int)
}

/// A valid date with a time of day within `00:00:00` to `23:59:59.999999999`.
pub open spec fn valid_datetime(t: CivilDateTime) -> bool {
    &&& valid_date(t.date)
    &&& 0 <= t.hour <= 23
    &&& 0 <= t.minute <= 59
    &&& 0 <= t.second <= 59
    &&& 0 <= t.subsec_nanosecond <= 999_999_999
}

// ---------------------------------------------------------------------------
// What the outside parsers answer
// ---------------------------------------------------------------------------

/// The date that `jiff` reads from `s` as ISO 8601 (`str::parse` into
/// `jiff::civil::Date`), if any.
pub uninterp spec fn jiff_date_from_str(s: Seq<char>) -> Option<CivilDate>;

/// The date that `jiff::civil::Date::strptime` reads from `s` with the format.
pub uninterp spec fn jiff_date_strptime(fmt: Seq<char>, s: Seq<char>) -> Option<CivilDate>;

/// The date-time that `jiff` reads from `s` as ISO 8601 (`str::parse` into
/// `jiff::civil::DateTime`), if any.
pub uninterp spec fn jiff_datetime_from_str(s: Seq<char>) -> Option<CivilDateTime>;

/// The date-time that `jiff::civil::DateTime::strptime` reads from `s` with
/// the format.
pub uninterp spec fn jiff_datetime_strptime(fmt: Seq<char>, s: Seq<char>) -> Option<CivilDateTime>;

/// The instant that `jiff::Timestamp::strptime` reads from `s` with the format.
pub uninterp spec fn jiff_timestamp_strptime(fmt: Seq<char>, s: Seq<char>) -> Option<Instant>;

/// The capture groups (group 0 first) of the first match of `pattern` in `s`
/// by the `regex` crate; `None` when nothing matches.
pub uninterp spec fn regex_captures(pattern: Seq<char>, s: Seq<char>) -> Option<Seq<Option<Seq<char>>>>;

/// Trusted: `str::parse::<jiff::civil::Date>`. The result is `jiff`'s reading
/// of the string, named `jiff_date_from_str`; a `jiff` date is always valid.
#[verifier::external_body]
fn date_from_str(s: &str) -> (r: Option<CivilDate>)
    ensures
        r == jiff_date_from_str(s@),
        r matches Some(d) ==> valid_date(d),
{
    match s.parse::<jiff::civil::Date>() {
        Ok(d) => Some(CivilDate { year: d.year(), month: d.month(), day: d.day() }),
        Err(_) => None,
    }
}

/// Trusted: `jiff::civil::Date::strptime(fmt, s)`. The result is `jiff`'s
/// reading, named `jiff_date_strptime`; a `jiff` date is always valid.
#[verifier::external_body]
pub(crate) fn date_strptime(fmt: &str, s: &str) -> (r: Option<CivilDate>)
    ensures
        r == jiff_date_strptime(fmt@, s@),
        r matches Some(d) ==> valid_date(d),
{
    match jiff::civil::Date::strptime(fmt, s) {
        Ok(d) => Some(CivilDate { year: d.year(), month: d.month(), day: d.day() }),
        Err(_) => None,
    }
}

/// Trusted: `str::parse::<jiff::civil::DateTime>`. The result is `jiff`'s
/// reading, named `jiff_datetime_from_str`; a `jiff` date-time is always valid.
#[verifier::external_body]
fn datetime_from_str(s: &str) -> (r: Option<CivilDateTime>)
    ensures
        r == jiff_datetime_from_str(s@),
        r matches Some(t) ==> valid_datetime(t),
{
    match s.parse::<jiff::civil::DateTime>() {
        Ok(t) => Some(CivilDateTime {
            date: CivilDate { year: t.year(), month: t.month(), day: t.day() },
            hour: t.hour(),
            minute: t.minute(),
            second: t.second(),
            subsec_nanosecond: t.subsec_nanosecond(),
        }),
        Err(_) => None,
    }
}

/// Trusted: `jiff::civil::DateTime::strptime(fmt, s)`. The result is `jiff`'s
/// reading, named `jiff_datetime_strptime`; a `jiff` date-time is always valid.
#[verifier::external_body]
fn datetime_strptime(fmt: &str, s: &str) -> (r: Option<CivilDateTime>)
    ensures
        r == jiff_datetime_strptime(fmt@, s@),
        r matches Some(t) ==> valid_datetime(t),
{
    match jiff::civil::DateTime::strptime(fmt, s) {
        Ok(t) => Some(CivilDateTime {
            date: CivilDate { year: t.year(), month: t.month(), day: t.day() },
            hour: t.hour(),
            minute: t.minute(),
            second: t.second(),
            subsec_nanosecond: t.subsec_nanosecond(),
        }),
        Err(_) => None,
    }
}

/// Trusted: `jiff::Timestamp::strptime(fmt, s)`. The result is `jiff`'s
/// reading, named `jiff_timestamp_strptime`.
#[verifier::external_body]
fn timestamp_strptime(fmt: &str, s: &str) -> (r: Option<Instant>)
    ensures
        r == jiff_timestamp_strptime(fmt@, s@),
{
    match jiff::Timestamp::strptime(fmt, s) {
        Ok(t) => Some(Instant { second: t.as_second(), nanosecond: t.subsec_nanosecond() }),
        Err(_) => None,
    }
}

/// The view of a list of optional capture groups.
pub open spec fn groups_view(v: Seq<Option<String>>) -> Seq<Option<Seq<char>>> {
    v.map_values(|o: Option<String>| match o {
        Some(x) => Some(x@),
        None => None,
    })
}

/// Trusted: `regex::Regex::new(pattern)` and `Regex::captures(s)`. The groups
/// are the crate's answer, named `regex_captures`; a pattern that does not
/// compile gives `None` (the patterns used here are fixed and compile).
#[verifier::external_body]
fn captures(pattern: &str, s: &str) -> (r: Option<Vec<Option<String>>>)
    ensures
        match r {
            Some(v) => regex_captures(pattern@, s@) == Some(groups_view(v@)),
            None => regex_captures(pattern@, s@).is_none(),
        },
{
    match regex::Regex::new(pattern) {
        Ok(re) => re.captures(s).map(|c| c.iter().map(|g| g.map(|m| m.as_str().to_string())).collect()),
        Err(_) => None,
    }
}

/// The value of a decimal integer text as Rust's `str::parse` reads it: an
/// optional `+` or `-`, then one or more ASCII digits.
pub open spec fn decimal_text_value(s: Seq<char>) -> Option<int> {
    if s.len() > 0 && (s[0] == '+' || s[0] == '-') {
        let rest = s.drop_first();
        if rest.len() > 0 && all_ascii_digits(rest) {
            Some(if s[0] == '-' { -digits_value(rest) } else { digits_value(rest) })
        } else {
            None
        }
    } else if s.len() > 0 && all_ascii_digits(s) {
        Some(digits_value(s))
    } else {
        None
    }
}

/// Every character is an ASCII digit.
pub open spec fn all_ascii_digits(s: Seq<char>) -> bool {
    forall|i: int| 0 <= i < s.len() ==> '0' <= #[trigger] s[i] <= '9'
}

/// The value of a string of ASCII digits.
pub open spec fn digits_value(s: Seq<char>) -> int
    decreases s.len(),
{
    if s.len() == 0 {
        0
    } else {
        digits_value(s.drop_last()) * 10 + (s.last() as int - '0' as int)
    }
}

/// A longer run of digits is worth at least as much as its prefix.
proof fn lemma_digits_prefix(s: Seq<char>, k: int)
    requires
        all_ascii_digits(s),
        0 <= k <= s.len(),
    ensures
        digits_value(s.take(k)) <= digits_value(s),
        digits_value(s) >= 0,
    decreases s.len(),
{
    if s.len() > 0 {
        let t = s.drop_last();
        assert(all_ascii_digits(t)) by {
            assert forall|i: int| 0 <= i < t.len() implies '0' <= #[trigger] t[i] <= '9' by {
                assert(t[i] == s[i]);
            }
        }
        assert('0' <= s[s.len() - 1] <= '9');
        if k < s.len() {
            lemma_digits_prefix(t, k);
            assert(t.take(k) =~= s.take(k));
        } else {
            lemma_digits_prefix(t, 0);
            assert(s.take(k) =~= s);
        }
    }
}

/// The value of a decimal text (an optional sign, then ASCII digits) when it
/// lies in `lo..=hi`, as `str::parse` of a small integer type reads it.
fn parse_decimal_within(s: &str, lo: i64, hi: i64) -> (r: Option<i64>)
    requires
        -40000 <= lo <= 0 <= hi <= 40000,
    ensures
        r == (match decimal_text_value(s@) {
            Some(v) => if lo <= v <= hi { Some(v as i64) } else { None::<i64> },
            None => None::<i64>,
        }),
{
    let cs = chars_of(s);
    let n = cs.len();
    let signed = n > 0 && (cs[0] == '+' || cs[0] == '-');
    let neg = n > 0 && cs[0] == '-';
    let start: usize = if signed { 1 } else { 0 };
    if start >= n {
        return None;
    }
    let ghost digits = cs@.subrange(start as int, n as int);
    proof {
        if signed {
            assert(s@.drop_first() =~= digits);
        } else {
            assert(s@ =~= digits);
        }
    }
    let limit: i64 = if neg { -lo } else { hi };
    let mut v: i64 = 0;
    let mut i: usize = start;
    while i < n
        invariant
            cs@ == s@,
            n == cs@.len(),
            start <= i <= n,
            digits == cs@.subrange(start as int, n as int),
            digits.len() > 0,
            signed == (s@.len() > 0 && (s@[0] == '+' || s@[0] == '-')),
            neg == (s@.len() > 0 && s@[0] == '-'),
            signed ==> s@.drop_first() == digits,
            !signed ==> s@ == digits,
            -40000 <= lo <= 0 <= hi <= 40000,
            limit == (if neg { -lo } else { hi as int }),
            0 <= limit <= 40000,
            0 <= v <= limit,
            all_ascii_digits(cs@.subrange(start as int, i as int)),
            v == digits_value(cs@.subrange(start as int, i as int)),
        decreases n - i,
    {
        let c = cs[i];
        if c < '0' || c > '9' {
            proof {
                assert(digits[i - start] == c);
                assert(!all_ascii_digits(digits));
            }
            return None;
        }
        let d = (c as u32 - '0' as u32) as i64;
        let ghost prev = cs@.subrange(start as int, i as int);
        let ghost next = cs@.subrange(start as int, i + 1);
        proof {
            assert(next.drop_last() =~= prev);
            assert(next.last() == c);
            assert(all_ascii_digits(next)) by {
                assert forall|k: int| 0 <= k < next.len() implies '0' <= #[trigger] next[k] <= '9' by {
                    if k < prev.len() {
                        assert(next[k] == prev[k]);
                    }
                }
            }
        }
        let nv = v * 10 + d;
        if nv > limit {
            proof {
                if all_ascii_digits(digits) {
                    assert(digits.take(i + 1 - start) =~= next);
                    lemma_digits_prefix(digits, i + 1 - start);
                }
            }
            return None;
        }
        v = nv;
        i = i + 1;
    }
    proof {
        assert(cs@.subrange(start as int, n as int) =~= digits);
    }
    if neg {
        Some(-v)
    } else {
        Some(v)
    }
}

/// `str::parse::<i16>`: an optional sign and ASCII digits whose value fits
/// in an `i16`.
fn parse_i16(s: &str) -> (r: Option<i16>)
    ensures
        r == (match decimal_text_value(s@) {
            Some(v) => if i16::MIN <= v <= i16::MAX { Some(v as i16) } else { None::<i16> },
            None => None::<i16>,
        }),
{
    match parse_decimal_within(s, -32768, 32767) {
        Some(v) => Some(v as i16),
        None => None,
    }
}

/// `str::parse::<i8>`: an optional sign and ASCII digits whose value fits
/// in an `i8`.
fn parse_i8(s: &str) -> (r: Option<i8>)
    ensures
        r == (match decimal_text_value(s@) {
            Some(v) => if i8::MIN <= v <= i8::MAX { Some(v as i8) } else { None::<i8> },
            None => None::<i8>,
        }),
{
    match parse_decimal_within(s, -128, 127) {
        Some(v) => Some(v as i8),
        None => None,
    }
}

/// The `i16` a text names, as `parse_i16` reads it.
pub open spec fn text_i16(s: Seq<char>) -> Option<i16> {
    match decimal_text_value(s) {
        Some(v) => if i16::MIN <= v <= i16::MAX { Some(v as i16) } else { None },
        None => None,
    }
}

/// The `i8` a text names, as `parse_i8` reads it.
pub open spec fn text_i8(s: Seq<char>) -> Option<i8> {
    match decimal_text_value(s) {
        Some(v) => if i8::MIN <= v <= i8::MAX { Some(v as i8) } else { None },
        None => None,
    }
}

// ---------------------------------------------------------------------------
// The formats
// ---------------------------------------------------------------------------

/// The number of `date()` formats.
pub const DATE_FORMAT_COUNT: usize = 7;

/// The `date()` formats in the order they are tried: ISO 8601, slashes, dots,
/// eight digits, then English month names.
pub open spec fn spec_date_format(i: int) -> Seq<char> {
    if i == 0 { "%Y-%m-%d"@ }
    else if i == 1 { "%Y/%m/%d"@ }
    else if i == 2 { "%Y.%m.%d"@ }
    else if i == 3 { "%Y%m%d"@ }
    else if i == 4 { "%d %b %Y"@ }
    else if i == 5 { "%b %d, %Y"@ }
    else { "%B %d, %Y"@ }
}

fn date_format(i: usize) -> (f: &'static str)
    requires
        i < DATE_FORMAT_COUNT,
    ensures
        f@ == spec_date_format(i as int),
{
    match i {
        0 => "%Y-%m-%d",
        1 => "%Y/%m/%d",
        2 => "%Y.%m.%d",
        3 => "%Y%m%d",
        4 => "%d %b %Y",
        5 => "%b %d, %Y",
        _ => "%B %d, %Y",
    }
}

/// `s` with every `from` replaced by `to`: the same format with another
/// separator.
pub open spec fn with_separator(s: Seq<char>, from: char, to: char) -> Seq<char> {
    Seq::new(s.len(), |i: int| if s[i] == from { to } else { s[i] })
}

/// The format reads the conversion `%c` at position `k`.
pub open spec fn field_at(f: Seq<char>, k: int, c: char) -> bool {
    0 <= k && k + 1 < f.len() && f[k] == '%' && f[k + 1] == c
}

/// The format reads a numeric year, month and day, in that order.
pub open spec fn reads_year_month_day(f: Seq<char>) -> bool {
    exists|a: int, b: int, c: int| a < b < c && field_at(f, a, 'Y') && field_at(f, b, 'm') && field_at(f, c, 'd')
}

/// The format reads the month by its name (`%b` or `%B`).
pub open spec fn reads_month_name(f: Seq<char>) -> bool {
    exists|k: int| field_at(f, k, 'b') || field_at(f, k, 'B')
}

/// Every `date()` format either names the month or reads year, month and day
/// in that order; and the slashed and dotted forms are the ISO form
/// `%Y-%m-%d` with another separator, so `2026.03.05` and `2026/03/05` read
/// as the same day as `2026-03-05`.
pub proof fn lemma_date_formats_read_year_month_day()
    ensures
        forall|i: int| 0 <= i < DATE_FORMAT_COUNT ==>
            reads_year_month_day(#[trigger] spec_date_format(i)) || reads_month_name(spec_date_format(i)),
        spec_date_format(1) == with_separator(spec_date_format(0), '-', '/'),
        spec_date_format(2) == with_separator(spec_date_format(0), '-', '.'),
{
    reveal_strlit("%Y-%m-%d");
    reveal_strlit("%Y/%m/%d");
    reveal_strlit("%Y.%m.%d");
    reveal_strlit("%Y%m%d");
    reveal_strlit("%d %b %Y");
    reveal_strlit("%b %d, %Y");
    reveal_strlit("%B %d, %Y");
    assert forall|i: int| 0 <= i < DATE_FORMAT_COUNT implies
        reads_year_month_day(#[trigger] spec_date_format(i)) || reads_month_name(spec_date_format(i)) by {
        let f = spec_date_format(i);
        if i <= 2 {
            assert(field_at(f, 0, 'Y') && field_at(f, 3, 'm') && field_at(f, 6, 'd'));
        } else if i == 3 {
            assert(field_at(f, 0, 'Y') && field_at(f, 2, 'm') && field_at(f, 4, 'd'));
        } else if i == 4 {
            assert(field_at(f, 3, 'b'));
        } else if i == 5 {
            assert(field_at(f, 0, 'b'));
        } else {
            assert(field_at(f, 0, 'B'));
        }
    }
    assert(spec_date_format(1) =~= with_separator(spec_date_format(0), '-', '/'));
    assert(spec_date_format(2) =~= with_separator(spec_date_format(0), '-', '.'));
}

/// The number of `datetime()` formats.
pub const DATETIME_FORMAT_COUNT: usize = 11;

/// The `datetime()` formats in the order they are tried.
pub open spec fn spec_datetime_format(i: int) -> Seq<char> {
    if i == 0 { "%Y-%m-%dT%H:%M:%S"@ }
    else if i == 1 { "%Y-%m-%dT%H:%M"@ }
    else if i == 2 { "%Y-%m-%d %H:%M:%S"@ }
    else if i == 3 { "%Y-%m-%d %H:%M"@ }
    else if i == 4 { "%Y/%m/%d %H:%M:%S"@ }
    else if i == 5 { "%Y/%m/%d %H:%M"@ }
    else if i == 6 { "%Y%m%dT%H%M%S"@ }
    else if i == 7 { "%Y.%m.%d %H:%M:%S"@ }
    else if i == 8 { "%d %b %Y %H:%M:%S"@ }
    else if i == 9 { "%b %d, %Y %H:%M:%S"@ }
    else { "%B %d, %Y %H:%M:%S"@ }
}

fn datetime_format(i: usize) -> (f: &'static str)
    requires
        i < DATETIME_FORMAT_COUNT,
    ensures
        f@ == spec_datetime_format(i as int),
{
    match i {
        0 => "%Y-%m-%dT%H:%M:%S",
        1 => "%Y-%m-%dT%H:%M",
        2 => "%Y-%m-%d %H:%M:%S",
        3 => "%Y-%m-%d %H:%M",
        4 => "%Y/%m/%d %H:%M:%S",
        5 => "%Y/%m/%d %H:%M",
        6 => "%Y%m%dT%H%M%S",
        7 => "%Y.%m.%d %H:%M:%S",
        8 => "%d %b %Y %H:%M:%S",
        9 => "%b %d, %Y %H:%M:%S",
        _ => "%B %d, %Y %H:%M:%S",
    }
}

/// Every `datetime()` format either names the month or reads year, month
/// and day in that order; the slashed and dotted forms are the ISO form with
/// another separator; and the date part of each numeric form is the
/// matching `date()` format, so `2026.03.05 12:30:00` is 5 March 2026 as
/// `2026-03-05 12:30:00` is.
pub proof fn lemma_datetime_formats_read_year_month_day()
    ensures
        forall|i: int| 0 <= i < DATETIME_FORMAT_COUNT ==>
            reads_year_month_day(#[trigger] spec_datetime_format(i)) || reads_month_name(spec_datetime_format(i)),
        spec_datetime_format(4) == with_separator(spec_datetime_format(2), '-', '/'),
        spec_datetime_format(5) == with_separator(spec_datetime_format(3), '-', '/'),
        spec_datetime_format(7) == with_separator(spec_datetime_format(2), '-', '.'),
        spec_datetime_format(2) == spec_date_format(0) + " %H:%M:%S"@,
        spec_datetime_format(4) == spec_date_format(1) + " %H:%M:%S"@,
        spec_datetime_format(7) == spec_date_format(2) + " %H:%M:%S"@,
{
    reveal_strlit("%Y-%m-%dT%H:%M:%S");
    reveal_strlit("%Y-%m-%dT%H:%M");
    reveal_strlit("%Y-%m-%d %H:%M:%S");
    reveal_strlit("%Y-%m-%d %H:%M");
    reveal_strlit("%Y/%m/%d %H:%M:%S");
    reveal_strlit("%Y/%m/%d %H:%M");
    reveal_strlit("%Y%m%dT%H%M%S");
    reveal_strlit("%Y.%m.%d %H:%M:%S");
    reveal_strlit("%d %b %Y %H:%M:%S");
    reveal_strlit("%b %d, %Y %H:%M:%S");
    reveal_strlit("%B %d, %Y %H:%M:%S");
    reveal_strlit("%Y-%m-%d");
    reveal_strlit("%Y/%m/%d");
    reveal_strlit("%Y.%m.%d");
    reveal_strlit(" %H:%M:%S");
    assert forall|i: int| 0 <= i < DATETIME_FORMAT_COUNT implies
        reads_year_month_day(#[trigger] spec_datetime_format(i)) || reads_month_name(spec_datetime_format(i)) by {
        let f = spec_datetime_format(i);
        if i <= 5 || i == 7 {
            assert(field_at(f, 0, 'Y') && field_at(f, 3, 'm') && field_at(f, 6, 'd'));
        } else if i == 6 {
            assert(field_at(f, 0, 'Y') && field_at(f, 2, 'm') && field_at(f, 4, 'd'));
        } else if i == 8 {
            assert(field_at(f, 3, 'b'));
        } else if i == 9 {
            assert(field_at(f, 0, 'b'));
        } else {
            assert(field_at(f, 0, 'B'));
        }
    }
    assert(spec_datetime_format(4) =~= with_separator(spec_datetime_format(2), '-', '/'));
    assert(spec_datetime_format(5) =~= with_separator(spec_datetime_format(3), '-', '/'));
    assert(spec_datetime_format(7) =~= with_separator(spec_datetime_format(2), '-', '.'));
    assert(spec_datetime_format(2) =~= spec_date_format(0) + " %H:%M:%S"@);
    assert(spec_datetime_format(4) =~= spec_date_format(1) + " %H:%M:%S"@);
    assert(spec_datetime_format(7) =~= spec_date_format(2) + " %H:%M:%S"@);
}

/// The number of timestamp formats.
pub const TIMESTAMP_FORMAT_COUNT: usize = 5;

/// The timestamp formats in the order they are tried.
pub open spec fn spec_timestamp_format(i: int) -> Seq<char> {
    if i == 0 { "%Y-%m-%dT%H:%M:%S%:z"@ }
    else if i == 1 { "%Y-%m-%dT%H:%M:%SZ"@ }
    else if i == 2 { "%Y-%m-%dT%H:%M:%S"@ }
    else if i == 3 { "%Y-%m-%d %H:%M:%S%:z"@ }
    else { "%Y-%m-%d %H:%M:%S"@ }
}

/// Every timestamp format reads year, month and day in that order, starting
/// with the ISO date `%Y-%m-%d`; the forms without an offset are the ISO
/// `datetime()` forms.
pub proof fn lemma_timestamp_formats_read_year_month_day()
    ensures
        forall|i: int| 0 <= i < TIMESTAMP_FORMAT_COUNT ==>
            reads_year_month_day(#[trigger] spec_timestamp_format(i))
            && spec_timestamp_format(i).take(8) == spec_date_format(0),
        spec_timestamp_format(2) == spec_datetime_format(0),
        spec_timestamp_format(4) == spec_datetime_format(2),
{
    reveal_strlit("%Y-%m-%dT%H:%M:%S%:z");
    reveal_strlit("%Y-%m-%dT%H:%M:%SZ");
    reveal_strlit("%Y-%m-%dT%H:%M:%S");
    reveal_strlit("%Y-%m-%d %H:%M:%S%:z");
    reveal_strlit("%Y-%m-%d %H:%M:%S");
    reveal_strlit("%Y-%m-%d");
    assert forall|i: int| 0 <= i < TIMESTAMP_FORMAT_COUNT implies
        reads_year_month_day(#[trigger] spec_timestamp_format(i))
        && spec_timestamp_format(i).take(8) == spec_date_format(0) by {
        let f = spec_timestamp_format(i);
        assert(field_at(f, 0, 'Y') && field_at(f, 3, 'm') && field_at(f, 6, 'd'));
        assert(f.take(8) =~= spec_date_format(0));
    }
}

fn timestamp_format(i: usize) -> (f: &'static str)
    requires
        i < TIMESTAMP_FORMAT_COUNT,
    ensures
        f@ == spec_timestamp_format(i as int),
{
    match i {
        0 => "%Y-%m-%dT%H:%M:%S%:z",
        1 => "%Y-%m-%dT%H:%M:%SZ",
        2 => "%Y-%m-%dT%H:%M:%S",
        3 => "%Y-%m-%d %H:%M:%S%:z",
        _ => "%Y-%m-%d %H:%M:%S",
    }
}

/// The first of the `date()` formats from index `i` on that reads `s`.
pub open spec fn first_date_format_match(s: Seq<char>, i: int) -> Option<CivilDate>
    decreases DATE_FORMAT_COUNT - i,
{
    if i < 0 || i >= DATE_FORMAT_COUNT {
        None
    } else {
        match jiff_date_strptime(spec_date_format(i), s) {
            Some(d) => Some(d),
            None => first_date_format_match(s, i + 1),
        }
    }
}

/// The first of the `datetime()` formats from index `i` on that reads `s`.
pub open spec fn first_datetime_format_match(s: Seq<char>, i: int) -> Option<CivilDateTime>
    decreases DATETIME_FORMAT_COUNT - i,
{
    if i < 0 || i >= DATETIME_FORMAT_COUNT {
        None
    } else {
        match jiff_datetime_strptime(spec_datetime_format(i), s) {
            Some(t) => Some(t),
            None => first_datetime_format_match(s, i + 1),
        }
    }
}

/// The first of the timestamp formats from index `i` on that reads `s`.
pub open spec fn first_timestamp_format_match(s: Seq<char>, i: int) -> Option<Instant>
    decreases TIMESTAMP_FORMAT_COUNT - i,
{
    if i < 0 || i >= TIMESTAMP_FORMAT_COUNT {
        None
    } else {
        match jiff_timestamp_strptime(spec_timestamp_format(i), s) {
            Some(t) => Some(t),
            None => first_timestamp_format_match(s, i + 1),
        }
    }
}

// ---------------------------------------------------------------------------
// Chinese dates
// ---------------------------------------------------------------------------

/// A year, month and day written as `2026年7月25日`.
pub open spec fn chinese_date_pattern() -> Seq<char> {
    "(\\d{4})年(\\d{1,2})月(\\d{1,2})日"@
}

/// A time of day written as `12:30` or `12:30:45`.
pub open spec fn time_part_pattern() -> Seq<char> {
    "(\\d{1,2}):(\\d{2})(?::(\\d{2}))?"@
}

/// Group `i` of a list of capture groups, when it took part in the match.
pub open spec fn group(g: Seq<Option<Seq<char>>>, i: int) -> Option<Seq<char>> {
    if 0 <= i < g.len() { g[i] } else { None }
}

/// The date a Chinese date text names when `strptime` does not read it: the
/// year, month and day of the first match of the pattern, each parsed as
/// Rust parses integers, and valid as a date.
pub open spec fn chinese_date_from_groups(s: Seq<char>) -> Option<CivilDate> {
    match regex_captures(chinese_date_pattern(), s) {
        Some(g) => match (group(g, 1), group(g, 2), group(g, 3)) {
            (Some(y), Some(m), Some(d)) => match (text_i16(y), text_i8(m), text_i8(d)) {
                (Some(yv), Some(mv), Some(dv)) => {
                    let c = CivilDate { year: yv, month: mv, day: dv };
                    if valid_date(c) { Some(c) } else { None }
                },
                _ => None,
            },
            _ => None,
        },
        None => None,
    }
}

/// The date of a Chinese date text: `%Y年%m月%d日` by `strptime`, else the
/// parts found by the pattern.
pub open spec fn spec_chinese_date(s: Seq<char>) -> Option<CivilDate> {
    match jiff_date_strptime("%Y年%m月%d日"@, s) {
        Some(d) => Some(d),
        None => chinese_date_from_groups(s),
    }
}

/// The date with the given parts when they are valid, as
/// `jiff::civil::Date::new` builds it: years `-9999..=9999`, months
/// `1..=12`, days within the month.
fn date_new(year: i16, month: i8, day: i8) -> (r: Option<CivilDate>)
    ensures
        r == (if valid_date(CivilDate { year, month, day }) {
            Some(CivilDate { year, month, day })
        } else {
            None::<CivilDate>
        }),
{
    if year < -9999 || year > 9999 || month < 1 || month > 12 || day < 1 {
        return None;
    }
    let days: i8 = if month == 2 {
        if is_leap_year(year as i64) { 29 } else { 28 }
    } else if month == 4 || month == 6 || month == 9 || month == 11 {
        30
    } else {
        31
    };
    if day > days {
        None
    } else {
        Some(CivilDate { year, month, day })
    }
}

fn group_at(g: &Vec<Option<String>>, i: usize) -> (r: Option<&String>)
    ensures
        match r {
            Some(x) => group(groups_view(g@), i as int) == Some(x@),
            None => group(groups_view(g@), i as int).is_none(),
        },
{
    if i < g.len() {
        match &g[i] {
            Some(x) => Some(x),
            None => None,
        }
    } else {
        None
    }
}

/// Reads a Chinese date such as `2026年7月25日`.
fn parse_chinese_date(input: &str) -> (r: Option<CivilDate>)
    ensures
        r == spec_chinese_date(input@),
        r matches Some(d) ==> valid_date(d),
{
    if let Some(d) = date_strptime("%Y年%m月%d日", input) {
        return Some(d);
    }
    let caps = match captures("(\\d{4})年(\\d{1,2})月(\\d{1,2})日", input) {
        Some(c) => c,
        None => {
            return None;
        },
    };
    let (y, m, d) = match (group_at(&caps, 1), group_at(&caps, 2), group_at(&caps, 3)) {
        (Some(y), Some(m), Some(d)) => (y, m, d),
        _ => {
            return None;
        },
    };
    let year = match parse_i16(y.as_str()) {
        Some(v) => v,
        None => {
            return None;
        },
    };
    let month = match parse_i8(m.as_str()) {
        Some(v) => v,
        None => {
            return None;
        },
    };
    let day = match parse_i8(d.as_str()) {
        Some(v) => v,
        None => {
            return None;
        },
    };
    date_new(year, month, day)
}

/// Midnight of a date.
pub open spec fn midnight(d: CivilDate) -> CivilDateTime {
    CivilDateTime { date: d, hour: 0, minute: 0, second: 0, subsec_nanosecond: 0 }
}

/// The time of day found after a Chinese date: hour and minute, and the
/// second when present (zero when it is missing or unreadable).
pub open spec fn chinese_time_parts(s: Seq<char>) -> Option<(i8, i8, i8)> {
    match regex_captures(time_part_pattern(), s) {
        Some(g) => match (group(g, 1), group(g, 2)) {
            (Some(h), Some(m)) => match (text_i8(h), text_i8(m)) {
                (Some(hv), Some(mv)) => Some((hv, mv, match group(g, 3) {
                    Some(sec) => match text_i8(sec) {
                        Some(sv) => sv,
                        None => 0,
                    },
                    None => 0,
                })),
                _ => None,
            },
            _ => None,
        },
        None => None,
    }
}

/// The date-time of a Chinese text: three `strptime` formats, else the
/// Chinese date with the time of day found after it (midnight without one).
/// A time of day out of range gives nothing.
pub open spec fn spec_chinese_datetime(s: Seq<char>) -> Option<CivilDateTime> {
    match jiff_datetime_strptime("%Y年%m月%d日 %H:%M:%S"@, s) {
        Some(t) => Some(t),
        None => match jiff_datetime_strptime("%Y年%m月%d日%H:%M:%S"@, s) {
            Some(t) => Some(t),
            None => match jiff_datetime_strptime("%Y年%m月%d日 %H:%M"@, s) {
                Some(t) => Some(t),
                None => match spec_chinese_date(s) {
                    None => None,
                    Some(d) => match regex_captures(time_part_pattern(), s) {
                        None => Some(midnight(d)),
                        Some(_) => match chinese_time_parts(s) {
                            None => None,
                            Some((h, m, sec)) => {
                                let t = CivilDateTime { date: d, hour: h, minute: m, second: sec, subsec_nanosecond: 0 };
                                if valid_datetime(t) { Some(t) } else { None }
                            },
                        },
                    },
                },
            },
        },
    }
}

/// Reads a Chinese date-time such as `2026年7月25日 12:30:00`.
fn parse_chinese_datetime(input: &str) -> (r: Option<CivilDateTime>)
    ensures
        r == spec_chinese_datetime(input@),
        r matches Some(t) ==> valid_datetime(t),
{
    if let Some(t) = datetime_strptime("%Y年%m月%d日 %H:%M:%S", input) {
        return Some(t);
    }
    if let Some(t) = datetime_strptime("%Y年%m月%d日%H:%M:%S", input) {
        return Some(t);
    }
    if let Some(t) = datetime_strptime("%Y年%m月%d日 %H:%M", input) {
        return Some(t);
    }
    let date = match parse_chinese_date(input) {
        Some(d) => d,
        None => {
            return None;
        },
    };
    let caps = match captures("(\\d{1,2}):(\\d{2})(?::(\\d{2}))?", input) {
        Some(c) => c,
        None => {
            return Some(CivilDateTime { date, hour: 0, minute: 0, second: 0, subsec_nanosecond: 0 });
        },
    };
    let (h, m) = match (group_at(&caps, 1), group_at(&caps, 2)) {
        (Some(h), Some(m)) => (h, m),
        _ => {
            return None;
        },
    };
    let hour = match parse_i8(h.as_str()) {
        Some(v) => v,
        None => {
            return None;
        },
    };
    let minute = match parse_i8(m.as_str()) {
        Some(v) => v,
        None => {
            return None;
        },
    };
    let second = match group_at(&caps, 3) {
        Some(sec) => match parse_i8(sec.as_str()) {
            Some(v) => v,
            None => 0,
        },
        None => 0,
    };
    // a time of day out of range names no date-time
    if hour < 0 || hour > 23 || minute < 0 || minute > 59 || second < 0 || second > 59 {
        return None;
    }
    Some(CivilDateTime { date, hour, minute, second, subsec_nanosecond: 0 })
}

/// Whether the string holds the character.
fn contains_char(s: &str, c: char) -> (r: bool)
    ensures
        r == s@.contains(c),
{
    let v = chars_of(s);
    let mut i: usize = 0;
    while i < v.len()
        invariant
            v@ == s@,
            i <= v@.len(),
            forall|k: int| 0 <= k < i ==> v@[k] != c,
        decreases v@.len() - i,
    {
        if v[i] == c {
            assert(s@[i as int] == c);
            return true;
        }
        i = i + 1;
    }
    false
}

// ---------------------------------------------------------------------------
// The readers
// ---------------------------------------------------------------------------

/// Whether the input is an all-numeric day/month/year date.
pub open spec fn is_ambiguous(s: Seq<char>) -> bool {
    regex_match(ambiguous_date_pattern(), s) == Some(true)
}

/// `e` is the "invalid date" error for the input.
pub open spec fn is_invalid_date_error(e: CalcError, s: Seq<char>) -> bool {
    &&& e.kind == ErrorKind::Domain
    &&& e.message@ == invalid_date_message(s)
    &&& e.i18n_key == Some("msg.time.invalid_date")
    &&& args_view(e.i18n_args@) == seq![("value"@, s)]
}

/// `e` is the "ambiguous format" error.
pub open spec fn is_ambiguous_format_error(e: CalcError) -> bool {
    &&& e.kind == ErrorKind::Domain
    &&& e.message@ == "ambiguous date format, use parse_date() with explicit format"@
    &&& e.i18n_key == Some("msg.time.ambiguous_format")
    &&& e.i18n_args@.len() == 0
}

/// What `date()` reads from `s`: ISO 8601 first; an all-numeric day/month/year
/// date is ambiguous; a text with `年` is a Chinese date; otherwise the first
/// of the `date()` formats that reads it. `None` for an ambiguous input is
/// told apart by `is_ambiguous`.
pub open spec fn spec_parse_date(s: Seq<char>) -> Option<CivilDate> {
    match jiff_date_from_str(s) {
        Some(d) => Some(d),
        None => if is_ambiguous(s) {
            None
        } else if s.contains('年') {
            spec_chinese_date(s)
        } else {
            first_date_format_match(s, 0)
        },
    }
}

/// Reads a date in any of the accepted formats: ISO 8601, `YYYY/MM/DD`,
/// `YYYY.MM.DD`, `YYYYMMDD`, English month names and Chinese dates. An
/// all-numeric day/month/year date is rejected as ambiguous; anything else
/// that is not read is an invalid date.
pub fn parse_date_multi_format(input: &str) -> (r: Result<CivilDate, CalcError>)
    ensures
        match r {
            Ok(d) => spec_parse_date(input@) == Some(d) && valid_date(d),
            Err(e) => spec_parse_date(input@).is_none() && if jiff_date_from_str(input@).is_none() && is_ambiguous(input@) {
                is_ambiguous_format_error(e)
            } else {
                is_invalid_date_error(e, input@)
            },
        },
{
    if let Some(d) = date_from_str(input) {
        return Ok(d);
    }
    if is_ambiguous_numeric_date(input) {
        return Err(ambiguous_format_error());
    }
    if contains_char(input, '年') {
        return match parse_chinese_date(input) {
            Some(d) => Ok(d),
            None => Err(invalid_date_error(input)),
        };
    }
    let mut i: usize = 0;
    while i < DATE_FORMAT_COUNT
        invariant
            i <= DATE_FORMAT_COUNT,
            jiff_date_from_str(input@).is_none(),
            !is_ambiguous(input@),
            !input@.contains('年'),
            first_date_format_match(input@, 0) == first_date_format_match(input@, i as int),
        decreases DATE_FORMAT_COUNT - i,
    {
        if let Some(d) = date_strptime(date_format(i), input) {
            return Ok(d);
        }
        i = i + 1;
    }
    Err(invalid_date_error(input))
}

/// What `datetime()` reads from `s`: ISO 8601 first; an all-numeric
/// day/month/year date is ambiguous; a text with `年` is a Chinese date-time;
/// otherwise the first of the `datetime()` formats that reads it, and failing
/// those, midnight of the date that `date()` reads.
pub open spec fn spec_parse_datetime(s: Seq<char>) -> Option<CivilDateTime> {
    match jiff_datetime_from_str(s) {
        Some(t) => Some(t),
        None => if is_ambiguous(s) {
            None
        } else if s.contains('年') {
            spec_chinese_datetime(s)
        } else {
            match first_datetime_format_match(s, 0) {
                Some(t) => Some(t),
                None => match spec_parse_date(s) {
                    Some(d) => Some(midnight(d)),
                    None => None,
                },
            }
        },
    }
}

/// Reads a date-time in any of the accepted formats, falling back to a date
/// at midnight. An all-numeric day/month/year date is rejected as ambiguous;
/// anything else that is not read is an invalid date.
pub fn parse_datetime_multi_format(input: &str) -> (r: Result<CivilDateTime, CalcError>)
    ensures
        match r {
            Ok(t) => spec_parse_datetime(input@) == Some(t) && valid_datetime(t),
            Err(e) => spec_parse_datetime(input@).is_none() && if jiff_datetime_from_str(input@).is_none() && is_ambiguous(input@) {
                is_ambiguous_format_error(e)
            } else {
                is_invalid_date_error(e, input@)
            },
        },
{
    if let Some(t) = datetime_from_str(input) {
        return Ok(t);
    }
    if is_ambiguous_numeric_date(input) {
        return Err(ambiguous_format_error());
    }
    if contains_char(input, '年') {
        return match parse_chinese_datetime(input) {
            Some(t) => Ok(t),
            None => Err(invalid_date_error(input)),
        };
    }
    let mut i: usize = 0;
    while i < DATETIME_FORMAT_COUNT
        invariant
            i <= DATETIME_FORMAT_COUNT,
            jiff_datetime_from_str(input@).is_none(),
            !is_ambiguous(input@),
            !input@.contains('年'),
            first_datetime_format_match(input@, 0) == first_datetime_format_match(input@, i as int),
        decreases DATETIME_FORMAT_COUNT - i,
    {
        if let Some(t) = datetime_strptime(datetime_format(i), input) {
            return Ok(t);
        }
        i = i + 1;
    }
    if let Ok(d) = parse_date_multi_format(input) {
        return Ok(CivilDateTime { date: d, hour: 0, minute: 0, second: 0, subsec_nanosecond: 0 });
    }
    Err(invalid_date_error(input))
}

/// Reads a timestamp with an offset (or `Z`, or none) in one of five layouts;
/// an error when none reads it.
pub fn parse_timestamp_strptime(input: &str) -> (r: Result<Instant, ()>)
    ensures
        match r {
            Ok(t) => first_timestamp_format_match(input@, 0) == Some(t),
            Err(_) => first_timestamp_format_match(input@, 0).is_none(),
        },
{
    let mut i: usize = 0;
    while i < TIMESTAMP_FORMAT_COUNT
        invariant
            i <= TIMESTAMP_FORMAT_COUNT,
            first_timestamp_format_match(input@, 0) == first_timestamp_format_match(input@, i as int),
        decreases TIMESTAMP_FORMAT_COUNT - i,
    {
        if let Some(t) = timestamp_strptime(timestamp_format(i), input) {
            return Ok(t);
        }
        i = i + 1;
    }
    Err(())
}

} // verus!
