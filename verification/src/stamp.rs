//! Timestamp extraction for syslog lines.  A line starts with a fixed-width
//! `month day time` stamp carrying no year; the year is inferred from a
//! reference date on the rule that the parsed month is never later than the
//! reference month — otherwise the stamp belongs to the previous year.

use vstd::prelude::*;

verus! {

/// The fields that the fixed-width syslog stamp of a line parses to, when
/// it parses: zero-based month, day of month, hour, minute, second.
pub uninterp spec fn syslog_time_of(line: Seq<char>) -> Option<(i32, i32, i32, i32, i32)>;

/// Relies on `time::strptime` with the fixed syslog format (month name,
/// padded day, clock time) over the line's first fifteen characters: the
/// outcome depends on the line alone, and the parser only accepts a
/// zero-based month up to eleven, a day of month from one to thirty-one,
/// an hour up to twenty-three, a minute up to fifty-nine and a second up
/// to sixty.
#[verifier::external_body]
fn parse_syslog_prefix(line: &str) -> (r: Option<(i32, i32, i32, i32, i32)>)
    ensures
        r == syslog_time_of(line@),
        r is Some ==> {
            &&& 0 <= r.unwrap().0 <= 11
            &&& 1 <= r.unwrap().1 <= 31
            &&& 0 <= r.unwrap().2 <= 23
            &&& 0 <= r.unwrap().3 <= 59
            &&& 0 <= r.unwrap().4 <= 60
        },
{
    let prefix = match line.get(..15) {
        Some(p) => p,
        None => return None,
    };
    match time::strptime(prefix, "%b %e %T") {
        Ok(tm) => Some((tm.tm_mon, tm.tm_mday, tm.tm_hour, tm.tm_min, tm.tm_sec)),
        Err(_) => None,
    }
}

/// A fully qualified date and time assembled from a parsed stamp.
#[derive(Clone, Copy, Debug, PartialEq, Eq, Structural)]
pub struct LogTime {
    pub year: i32,
    pub month: u32,
    pub day: u32,
    pub hour: u32,
    pub minute: u32,
    pub second: u32,
}

/// The stamp does not parse: the line's first fifteen characters are not a
/// well-formed syslog timestamp (or the line is shorter than that).
#[derive(Clone, Copy, Debug, PartialEq, Eq, Structural)]
pub struct ParseError;

/// The date-time that parsed fields `t` qualify to against a reference
/// year and month: one-based month from the zero-based parsed month, and
/// the previous year whenever the parsed month is later than the reference
/// month.
pub open spec fn inferred(t: (i32, i32, i32, i32, i32), now_year: i32, now_month: u32) -> LogTime {
    let month = (t.0 + 1) as u32;
    LogTime {
        year: if month > now_month {
            (now_year - 1) as i32
        } else {
            now_year
        },
        month,
        day: t.1 as u32,
        hour: t.2 as u32,
        minute: t.3 as u32,
        second: t.4 as u32,
    }
}

/// Parses the leading fixed-width timestamp of `line` and qualifies it
/// against the reference date `(now_year, now_month)`, inferring the year
/// by assuming the parsed month is not later than the reference month and
/// taking the previous year otherwise.  Fails exactly when the stamp does
/// not parse.
pub fn timestamp(line: &str, now_year: i32, now_month: u32) -> (r: Result<LogTime, ParseError>)
    requires
        now_year > i32::MIN,
        1 <= now_month <= 12,
    ensures
        match syslog_time_of(line@) {
            Option::None => r is Err,
            Option::Some(t) => r == Ok::<LogTime, ParseError>(inferred(t, now_year, now_month)),
        },
{
    match parse_syslog_prefix(line) {
        None => Err(ParseError),
        Some((mon, mday, hour, min, sec)) => {
            let month = (mon + 1) as u32;
            let year = if month > now_month {
                now_year - 1
            } else {
                now_year
            };
            Ok(
                LogTime {
                    year,
                    month,
                    day: mday as u32,
                    hour: hour as u32,
                    minute: min as u32,
                    second: sec as u32,
                },
            )
        },
    }
}

} // verus!