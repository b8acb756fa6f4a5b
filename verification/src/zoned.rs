//! Zoned date-times: reading them from text with a user's format or in the
//! layouts the calculator accepts, and writing them back. `jiff` reads and
//! writes each single format; this module decides what is tried in which
//! order and which error the user sees.

use vstd::prelude::*;
use crate::calendar::{format_mismatch_error, format_mismatch_message, invalid_date_error};
use crate::datetime::{
    date_strptime, is_ambiguous, is_ambiguous_format_error, is_invalid_date_error,
    jiff_date_strptime, jiff_datetime_from_str, midnight, parse_datetime_multi_format,
    spec_parse_datetime, valid_datetime, CivilDate, CivilDateTime,
};
use crate::error::{args_view, CalcError, ErrorKind};
use crate::text::{chars_of, push_str, string_from_chars};

verus! {

/// A zoned date-time as plain values: the civil date-time, its offset from
/// UTC in seconds, and the IANA name of its time zone, `None` for a zone of
/// one fixed offset (UTC among them).
#[derive(Debug, Clone, PartialEq)]
pub struct ZonedParts {
    pub datetime: CivilDateTime,
    pub offset_seconds: i32,
    pub time_zone: Option<String>,
}

// ---------------------------------------------------------------------------
// What the outside formatter answers
// ---------------------------------------------------------------------------

/// The text that `jiff::fmt::strtime::format` writes with the format for the
/// civil date-time at the fixed UTC offset (in seconds), if it succeeds.
pub uninterp spec fn jiff_strtime_format(fmt: Seq<char>, datetime: CivilDateTime, offset_seconds: int) -> Option<Seq<char>>;

/// The text of `jiff::Zoned`'s `Display` for the civil date-time at the fixed
/// UTC offset (in seconds); `None` when no such zoned date-time exists.
pub uninterp spec fn jiff_zoned_display(datetime: CivilDateTime, offset_seconds: int) -> Option<Seq<char>>;

/// Trusted: `jiff::fmt::strtime::format(fmt, &zoned)`, for the zoned
/// date-time rebuilt from the parts: at the fixed offset when no zone is
/// named, otherwise in the named zone as the machine's time-zone database
/// gives it. For a fixed offset the answer is named `jiff_strtime_format`;
/// for a named zone it depends on that database and nothing is stated.
#[verifier::external_body]
pub(crate) fn strtime_format(fmt: &str, z: &ZonedParts) -> (r: Option<String>)
    ensures
        z.time_zone is None ==> match r {
            Some(s) => jiff_strtime_format(fmt@, z.datetime, z.offset_seconds as int) == Some(s@),
            None => jiff_strtime_format(fmt@, z.datetime, z.offset_seconds as int) is None,
        },
{
    let t = z.datetime;
    let dt = jiff::civil::DateTime::new(t.date.year, t.date.month, t.date.day, t.hour, t.minute, t.second, t.subsec_nanosecond).ok()?;
    let off = jiff::tz::Offset::from_seconds(z.offset_seconds).ok()?;
    let tz = match &z.time_zone {
        Some(name) => jiff::tz::TimeZone::get(name).ok()?,
        None => jiff::tz::TimeZone::fixed(off),
    };
    let zoned = off.to_timestamp(dt).ok()?.to_zoned(tz);
    jiff::fmt::strtime::format(fmt, &zoned).ok()
}

/// Trusted: the `Display` text of the `jiff::Zoned` rebuilt from the parts
/// as in `strtime_format`. For a fixed offset the answer is named
/// `jiff_zoned_display`; for a named zone nothing is stated.
#[verifier::external_body]
fn zoned_display(z: &ZonedParts) -> (r: Option<String>)
    ensures
        z.time_zone is None ==> match r {
            Some(s) => jiff_zoned_display(z.datetime, z.offset_seconds as int) == Some(s@),
            None => jiff_zoned_display(z.datetime, z.offset_seconds as int) is None,
        },
{
    let t = z.datetime;
    let dt = jiff::civil::DateTime::new(t.date.year, t.date.month, t.date.day, t.hour, t.minute, t.second, t.subsec_nanosecond).ok()?;
    let off = jiff::tz::Offset::from_seconds(z.offset_seconds).ok()?;
    let tz = match &z.time_zone {
        Some(name) => jiff::tz::TimeZone::get(name).ok()?,
        None => jiff::tz::TimeZone::fixed(off),
    };
    Some(off.to_timestamp(dt).ok()?.to_zoned(tz).to_string())
}

// ---------------------------------------------------------------------------
// What the outside readers answer
// ---------------------------------------------------------------------------

/// The civil date-time and offset that `jiff::Zoned::strptime` reads from
/// `s` with the format, when the zone it gives has one fixed offset.
pub uninterp spec fn jiff_zoned_strptime_fixed(fmt: Seq<char>, s: Seq<char>) -> (CivilDateTime, int);

/// The civil date-time and offset that `str::parse::<jiff::Zoned>` reads
/// from `s`, when the zone it gives has one fixed offset.
pub uninterp spec fn jiff_zoned_from_str_fixed(s: Seq<char>) -> (CivilDateTime, int);

/// Trusted: `jiff::Zoned::strptime(fmt, s)`. A zone named in the text is
/// looked up in the machine's time-zone database, so whether a reading
/// succeeds is not a function of the arguments and is not named. A reading
/// at a fixed offset (given as `None`) is named `jiff_zoned_strptime_fixed`:
/// such a reading either consulted no database, or came from one of the
/// names the database maps to a fixed zone without looking anything up (UTC
/// in any letter case, `Etc/Unknown`), whose answer is the same everywhere.
/// A `jiff` date-time is always valid.
#[verifier::external_body]
fn zoned_strptime(fmt: &str, s: &str) -> (r: Option<ZonedParts>)
    ensures
        r matches Some(z) ==> valid_datetime(z.datetime),
        r matches Some(z) ==> (z.time_zone is None
            ==> jiff_zoned_strptime_fixed(fmt@, s@) == (z.datetime, z.offset_seconds as int)),
{
    let z = jiff::Zoned::strptime(fmt, s).ok()?;
    let tz = z.time_zone();
    Some(ZonedParts {
        datetime: CivilDateTime {
            date: CivilDate { year: z.year(), month: z.month(), day: z.day() },
            hour: z.hour(), minute: z.minute(), second: z.second(), subsec_nanosecond: z.subsec_nanosecond(),
        },
        offset_seconds: z.offset().seconds(),
        time_zone: match tz.to_fixed_offset() { Ok(_) => None, Err(_) => tz.iana_name().map(str::to_string) },
    })
}

/// Trusted: `str::parse::<jiff::Zoned>`, which reads a date-time with a
/// bracketed time zone and looks a named zone up in the machine's time-zone
/// database; whether it succeeds is therefore not named. A reading at a
/// fixed offset (given as `None`) has its date-time and offset named
/// `jiff_zoned_from_str_fixed`. A `jiff` date-time is always valid.
#[verifier::external_body]
fn zoned_from_str(s: &str) -> (r: Option<ZonedParts>)
    ensures
        r matches Some(z) ==> valid_datetime(z.datetime),
        r matches Some(z) ==> (z.time_zone is None
            ==> jiff_zoned_from_str_fixed(s@) == (z.datetime, z.offset_seconds as int)),
{
    let z = s.parse::<jiff::Zoned>().ok()?;
    let tz = z.time_zone();
    Some(ZonedParts {
        datetime: CivilDateTime {
            date: CivilDate { year: z.year(), month: z.month(), day: z.day() },
            hour: z.hour(), minute: z.minute(), second: z.second(), subsec_nanosecond: z.subsec_nanosecond(),
        },
        offset_seconds: z.offset().seconds(),
        time_zone: match tz.to_fixed_offset() { Ok(_) => None, Err(_) => tz.iana_name().map(str::to_string) },
    })
}

/// Trusted: `jiff::civil::DateTime::to_zoned(jiff::tz::TimeZone::UTC)`. The
/// civil date-time is kept at offset zero; it succeeds for every valid
/// date-time whose year lies in `-9998..=9998` (jiff's timestamps run from
/// early on 2 January -9999 to late on 30 December 9999).
#[verifier::external_body]
pub(crate) fn datetime_in_utc(t: CivilDateTime) -> (r: Option<ZonedParts>)
    ensures
        r matches Some(z) ==> z.datetime == t && z.offset_seconds == 0 && z.time_zone is None,
        valid_datetime(t) && -9998 <= t.date.year <= 9998 ==> r is Some,
{
    let dt = jiff::civil::DateTime::new(t.date.year, t.date.month, t.date.day, t.hour, t.minute, t.second, t.subsec_nanosecond).ok()?;
    let z = dt.to_zoned(jiff::tz::TimeZone::UTC).ok()?;
    Some(ZonedParts {
        datetime: CivilDateTime {
            date: CivilDate { year: z.year(), month: z.month(), day: z.day() },
            hour: z.hour(), minute: z.minute(), second: z.second(), subsec_nanosecond: z.subsec_nanosecond(),
        },
        offset_seconds: z.offset().seconds(),
        time_zone: None,
    })
}

// ---------------------------------------------------------------------------
// Writing
// ---------------------------------------------------------------------------

/// The RFC 3339 layout with a numeric offset.
pub open spec fn rfc3339_format() -> Seq<char> {
    "%Y-%m-%dT%H:%M:%S%:z"@
}

/// The RFC 3339 text of a date-time at a fixed offset, falling back to
/// `jiff`'s own display of it.
pub open spec fn spec_rfc3339(datetime: CivilDateTime, offset_seconds: int) -> Seq<char> {
    match jiff_strtime_format(rfc3339_format(), datetime, offset_seconds) {
        Some(s) => s,
        None => match jiff_zoned_display(datetime, offset_seconds) {
            Some(s) => s,
            None => Seq::empty(),
        },
    }
}

/// A zoned date-time in RFC 3339 form with a numeric offset
/// (`2026-07-25T12:30:00+00:00`), or `jiff`'s display of it when that layout
/// cannot be written.
pub fn zoned_to_rfc3339(z: &ZonedParts) -> (r: String)
    ensures
        z.time_zone is None ==> r@ == spec_rfc3339(z.datetime, z.offset_seconds as int),
{
    let layout = "%Y-%m-%dT%H:%M:%S%:z";
    assert(layout@ == rfc3339_format());
    match strtime_format(layout, z) {
        Some(s) => s,
        None => match zoned_display(z) {
            Some(s) => s,
            None => String::new(),
        },
    }
}

// ---------------------------------------------------------------------------
// Reading with a user's format
// ---------------------------------------------------------------------------

/// `e` is the "format mismatch" error for the format.
pub open spec fn is_format_mismatch_error(e: CalcError, fmt: Seq<char>) -> bool {
    &&& e.kind == ErrorKind::Domain
    &&& e.message@ == format_mismatch_message(fmt)
    &&& e.i18n_key == Some("msg.time.format_mismatch")
    &&& args_view(e.i18n_args@) == seq![("fmt"@, fmt)]
}

/// Midnight of the date in UTC, as `read_with_format` gives it.
pub open spec fn is_utc_midnight(z: ZonedParts, d: CivilDate) -> bool {
    z.datetime == midnight(d) && z.offset_seconds == 0 && z.time_zone is None
}

/// Reads `input` with a strptime format: first as a date (taken at midnight
/// UTC), and when that fails as a zoned date-time. A date outside the range
/// of instants is an invalid date; an input that neither reading accepts is
/// a format mismatch.
pub fn read_with_format(input: &str, fmt: &str) -> (r: Result<ZonedParts, CalcError>)
    ensures
        match jiff_date_strptime(fmt@, input@) {
            Some(d) => match r {
                Ok(z) => is_utc_midnight(z, d),
                Err(e) => is_invalid_date_error(e, input@) && !(-9998 <= d.year <= 9998),
            },
            None => match r {
                Ok(z) => valid_datetime(z.datetime),
                Err(e) => is_format_mismatch_error(e, fmt@),
            },
        },
{
    match date_strptime(fmt, input) {
        Some(d) => {
            let t = CivilDateTime { date: d, hour: 0, minute: 0, second: 0, subsec_nanosecond: 0 };
            match datetime_in_utc(t) {
                Some(z) => Ok(z),
                None => Err(invalid_date_error(input)),
            }
        },
        None => match zoned_strptime(fmt, input) {
            Some(z) => Ok(z),
            None => Err(format_mismatch_error(fmt)),
        },
    }
}

/// `parse_date(input, fmt)`: the date-time that `input` holds in the strptime
/// format, in RFC 3339 form. A date is taken at midnight UTC; otherwise the
/// input is read as a zoned date-time. An input that neither reading accepts
/// is a format mismatch.
pub fn parse_date_with_format(input: &str, fmt: &str) -> (r: Result<String, CalcError>)
    ensures
        match jiff_date_strptime(fmt@, input@) {
            Some(d) => match r {
                Ok(s) => s@ == spec_rfc3339(midnight(d), 0),
                Err(e) => is_invalid_date_error(e, input@) && !(-9998 <= d.year <= 9998),
            },
            None => match r {
                Ok(_) => true,
                Err(e) => is_format_mismatch_error(e, fmt@),
            },
        },
{
    match read_with_format(input, fmt) {
        Ok(z) => Ok(zoned_to_rfc3339(&z)),
        Err(e) => Err(e),
    }
}

/// `reformat_date(input, from_fmt, to_fmt)`: `input` read as in
/// `parse_date_with_format` with `from_fmt`, then written with `to_fmt`. A
/// reading failure is a mismatch of `from_fmt` (or an invalid date); a
/// writing failure is a mismatch of `to_fmt`.
pub fn reformat_date(input: &str, from_fmt: &str, to_fmt: &str) -> (r: Result<String, CalcError>)
    ensures
        match jiff_date_strptime(from_fmt@, input@) {
            Some(d) => match r {
                Ok(s) => jiff_strtime_format(to_fmt@, midnight(d), 0) == Some(s@),
                Err(e) => (is_invalid_date_error(e, input@) && !(-9998 <= d.year <= 9998))
                    || (jiff_strtime_format(to_fmt@, midnight(d), 0) is None && is_format_mismatch_error(e, to_fmt@)),
            },
            None => match r {
                Ok(_) => true,
                Err(e) => is_format_mismatch_error(e, from_fmt@) || is_format_mismatch_error(e, to_fmt@),
            },
        },
{
    let z = match read_with_format(input, from_fmt) {
        Ok(z) => z,
        Err(e) => return Err(e),
    };
    match strtime_format(to_fmt, &z) {
        Some(s) => Ok(s),
        None => Err(format_mismatch_error(to_fmt)),
    }
}

// ---------------------------------------------------------------------------
// Reading in the accepted layouts
// ---------------------------------------------------------------------------

/// A trailing `Z` replaced by `+00:00`; other texts unchanged.
pub open spec fn spec_utc_suffix_as_offset(s: Seq<char>) -> Seq<char> {
    if s.len() > 0 && s.last() == 'Z' {
        s.drop_last() + "+00:00"@
    } else {
        s
    }
}

/// Replaces a trailing `Z` (UTC) by the offset `+00:00`.
pub fn utc_suffix_as_offset(s: &str) -> (r: String)
    ensures
        r@ == spec_utc_suffix_as_offset(s@),
{
    let mut cs = chars_of(s);
    let n = cs.len();
    if n > 0 && cs[n - 1] == 'Z' {
        cs.pop();
        assert(cs@ =~= s@.drop_last());
        let mut r = string_from_chars(&cs);
        push_str(&mut r, "+00:00");
        r
    } else {
        string_from_chars(&cs)
    }
}

/// The number of zoned layouts tried after `jiff`'s own syntax.
pub const ZONED_FORMAT_COUNT: usize = 4;

/// The zoned layouts in the order they are tried.
pub open spec fn spec_zoned_format(i: int) -> Seq<char> {
    if i == 0 { "%Y-%m-%dT%H:%M:%S%:z"@ }
    else if i == 1 { "%Y-%m-%dT%H:%M:%S"@ }
    else if i == 2 { "%Y-%m-%d %H:%M:%S%:z"@ }
    else { "%Y-%m-%d %H:%M:%S"@ }
}

fn zoned_format(i: usize) -> (f: &'static str)
    requires
        i < ZONED_FORMAT_COUNT,
    ensures
        f@ == spec_zoned_format(i as int),
{
    match i {
        0 => "%Y-%m-%dT%H:%M:%S%:z",
        1 => "%Y-%m-%dT%H:%M:%S",
        2 => "%Y-%m-%d %H:%M:%S%:z",
        _ => "%Y-%m-%d %H:%M:%S",
    }
}

/// `z` is a reading of `s` as `parse_str_to_zoned` makes it: a valid
/// date-time, and at a fixed offset one of its three readings (jiff's own
/// syntax, one of the zoned layouts after `Z` becomes `+00:00`, or the
/// calculator's date-time formats in UTC). A reading in a named zone rests on
/// the machine's time-zone database and is not determined further.
pub open spec fn is_zoned_reading(s: Seq<char>, z: ZonedParts) -> bool {
    &&& valid_datetime(z.datetime)
    &&& z.time_zone is None ==> {
        ||| jiff_zoned_from_str_fixed(s) == (z.datetime, z.offset_seconds as int)
        ||| exists|i: int| 0 <= i < ZONED_FORMAT_COUNT
            && #[trigger] jiff_zoned_strptime_fixed(spec_zoned_format(i), spec_utc_suffix_as_offset(s)) == (z.datetime, z.offset_seconds as int)
        ||| spec_parse_datetime(s) == Some(z.datetime) && z.offset_seconds == 0
    }
}

/// Reads a zoned date-time: `jiff`'s own syntax (with a bracketed zone)
/// first, then the four zoned layouts on the text with a trailing `Z` read as
/// `+00:00`, and last the calculator's date-time formats taken in UTC. The
/// first two readings may look a zone up in the machine's database, so which
/// of them answers is not stated; an answer at a fixed offset is one of the
/// three readings (as named). When the jiff readings fail, the answer and the
/// error are those of `parse_datetime_multi_format`, and a date-time outside
/// the range of instants is an invalid date.
pub fn parse_str_to_zoned(s: &str) -> (r: Result<ZonedParts, CalcError>)
    ensures
        r matches Ok(z) ==> valid_datetime(z.datetime),
        r matches Err(e) ==> match spec_parse_datetime(s@) {
            None => if jiff_datetime_from_str(s@).is_none() && is_ambiguous(s@) {
                is_ambiguous_format_error(e)
            } else {
                is_invalid_date_error(e, s@)
            },
            Some(t) => is_invalid_date_error(e, s@) && !(-9998 <= t.date.year <= 9998),
        },
        spec_parse_datetime(s@) matches Some(t) && -9998 <= t.date.year <= 9998 ==> r is Ok,
        r matches Ok(z) ==> is_zoned_reading(s@, z),
{
    if let Some(z) = zoned_from_str(s) {
        return Ok(z);
    }
    let normalized = utc_suffix_as_offset(s);
    let mut i: usize = 0;
    while i < ZONED_FORMAT_COUNT
        invariant
            i <= ZONED_FORMAT_COUNT,
            normalized@ == spec_utc_suffix_as_offset(s@),
        decreases ZONED_FORMAT_COUNT - i,
    {
        if let Some(z) = zoned_strptime(zoned_format(i), normalized.as_str()) {
            proof {
                if z.time_zone is None {
                    assert(jiff_zoned_strptime_fixed(spec_zoned_format(i as int), spec_utc_suffix_as_offset(s@)) == (z.datetime, z.offset_seconds as int));
                }
            }
            return Ok(z);
        }
        i = i + 1;
    }
    let t = match parse_datetime_multi_format(s) {
        Ok(t) => t,
        Err(e) => return Err(e),
    };
    match datetime_in_utc(t) {
        Some(z) => Ok(z),
        None => Err(invalid_date_error(s)),
    }
}

} // verus!
