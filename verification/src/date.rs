//! Calendar dates as the depot writes them and as the repository reads them. Reading and
//! writing a date against a format is the work of the `time` crate.

use vstd::prelude::*;

verus! {

/// A calendar date and time of day, field by field as `time::Tm` holds it.
#[derive(Clone, Copy, Debug, PartialEq, Eq, Structural)]
pub struct DateTime {
    /// Seconds after the minute.
    pub second: i32,
    /// Minutes after the hour.
    pub minute: i32,
    /// Hours after midnight.
    pub hour: i32,
    /// Day of the month, from 1.
    pub day: i32,
    /// Months since January.
    pub month: i32,
    /// Years since 1900.
    pub year: i32,
    /// Days since Sunday.
    pub weekday: i32,
    /// Days since the first of January.
    pub yearday: i32,
    /// Whether daylight saving time holds: positive, zero, or negative where unknown.
    pub isdst: i32,
    /// Seconds east of UTC.
    pub utcoff: i32,
    /// Nanoseconds after the second.
    pub nanosecond: i32,
}

/// Whether every percent sign of `format` is followed by one of the letters `Y`, `m`, `d`,
/// `H`, `M`, `S`: the year in four digits and each of the other five in one or two.
pub open spec fn numeric_format(format: Seq<char>) -> bool {
    forall|i: int|
        0 <= i < format.len() && #[trigger] format[i] == '%' ==> i + 1 < format.len() && (
        format[i + 1] == 'Y' || format[i + 1] == 'm' || format[i + 1] == 'd' || format[i + 1]
            == 'H' || format[i + 1] == 'M' || format[i + 1] == 'S')
}

/// The last year, counted from 1900, whose number fits 32 bits.
pub const LAST_YEAR: i32 = 2147481747;

/// The error that `time` reports where it cannot read or write a date.
#[verifier::external_type_specification]
#[verifier::external_body]
pub struct ExParseError(time::ParseError);

/// The date that `time::strptime` reads from `text` against `format`, or `None` where it
/// reports an error.
pub uninterp spec fn strptime_result(text: Seq<char>, format: Seq<char>) -> Option<DateTime>;

/// What `time::strftime` writes for `date` against `format`, or `None` where it reports an
/// error.
pub uninterp spec fn strftime_result(format: Seq<char>, date: DateTime) -> Option<Seq<char>>;

/// `time::strptime`: reads `text` against `format`. With a numeric format the call reads the
/// characters of `text` from left to right and depends on nothing else.
#[verifier::external_body]
pub(crate) fn strptime(text: &str, format: &str) -> (parsed: Result<DateTime, time::ParseError>)
    requires
        numeric_format(format@),
    ensures
        match parsed {
            Ok(date) => strptime_result(text@, format@) == Some(date),
            Err(_) => strptime_result(text@, format@) is None,
        },
{
    let tm = time::strptime(text, format)?;
    Ok(DateTime {
        second: tm.tm_sec, minute: tm.tm_min, hour: tm.tm_hour,
        day: tm.tm_mday, month: tm.tm_mon, year: tm.tm_year,
        weekday: tm.tm_wday, yearday: tm.tm_yday, isdst: tm.tm_isdst,
        utcoff: tm.tm_utcoff, nanosecond: tm.tm_nsec,
    })
}

/// `time::strftime`: writes `date` against `format`. With a numeric format the call writes the
/// fields of `date` as numbers and depends on nothing else; it adds 1900 to the year, which
/// the bound on the year keeps in range.
#[verifier::external_body]
pub(crate) fn strftime(format: &str, date: &DateTime) -> (written: Result<String, time::ParseError>)
    requires
        numeric_format(format@),
        date.year <= LAST_YEAR,
    ensures
        match written {
            Ok(text) => strftime_result(format@, *date) == Some(text@),
            Err(_) => strftime_result(format@, *date) is None,
        },
{
    let tm = time::Tm {
        tm_sec: date.second, tm_min: date.minute, tm_hour: date.hour,
        tm_mday: date.day, tm_mon: date.month, tm_year: date.year,
        tm_wday: date.weekday, tm_yday: date.yearday, tm_isdst: date.isdst,
        tm_utcoff: date.utcoff, tm_nsec: date.nanosecond,
    };
    time::strftime(format, &tm)
}

/// `description` of `time::ParseError`: the words that `time` has for the error. Nothing is
/// claimed of them.
#[verifier::external_body]
#[allow(deprecated)]
pub(crate) fn parse_error_text(error: &time::ParseError) -> (text: String) {
    std::error::Error::description(error).to_string()
}

} // verus!
