//! The calls this library makes into outside crates that compute or read the
//! clock: pattern search in page text (`regex`) and dates (`chrono`).

use vstd::prelude::*;
use chrono::{Local, NaiveDateTime};
use regex::Regex;
use crate::text::is_printable_ascii;

verus! {

#[verifier::external_type_specification]
#[verifier::external_body]
pub struct ExRegexError(regex::Error);

/// An instant as seconds since 1970-01-01 00:00 and the nanoseconds within
/// that second (from a billion on during a leap second).
#[derive(Debug, Clone, Copy, PartialEq, Eq)]
pub struct Timestamp {
    pub secs: i64,
    pub nanos: u32,
}

/// Instants in time order; this is the order of `chrono`'s date-times.
pub open spec fn is_before(a: Timestamp, b: Timestamp) -> bool {
    a.secs < b.secs || (a.secs == b.secs && a.nanos < b.nanos)
}

/// Whether `a` comes before `b`.
pub fn timestamp_before(a: Timestamp, b: Timestamp) -> (r: bool)
    ensures
        r == is_before(a, b),
{
    a.secs < b.secs || (a.secs == b.secs && a.nanos < b.nanos)
}

/// What searching `text` for the first match of the regular expression
/// `pattern` gives for capture group `group`: nothing when the pattern does
/// not compile, `Some(None)` when there is no match or the group takes no
/// part in it, and otherwise the text the group matched.
pub uninterp spec fn regex_capture(pattern: Seq<char>, text: Seq<char>, group: int) -> Option<Option<Seq<char>>>;

/// The text of an optional string.
pub open spec fn opt_text(s: Option<String>) -> Option<Seq<char>> {
    match s {
        Some(t) => Some(t@),
        None => None,
    }
}

/// Compiles `pattern` with `Regex::new` and takes capture group `group` of
/// `Regex::captures` on `text`. The contract claims only that the outcome is
/// a function of the pattern, the text and the group; what regex matching
/// gives is not stated.
#[verifier::external_body]
pub(crate) fn regex_capture_group(pattern: &str, text: &str, group: usize) -> (r: Result<Option<String>, regex::Error>)
    ensures
        match r {
            Ok(c) => regex_capture(pattern@, text@, group as int) == Some(opt_text(c)),
            Err(_) => regex_capture(pattern@, text@, group as int) is None,
        },
{
    let re = Regex::new(pattern)?;
    match re.captures(text) {
        Some(caps) => match caps.get(group) {
            Some(m) => Ok(Some(m.as_str().to_string())),
            None => Ok(None),
        },
        None => Ok(None),
    }
}

/// What `NaiveDateTime::parse_from_str(text, format)` gives, as an instant
/// read in UTC, or nothing when the text does not parse.
pub uninterp spec fn parsed_datetime(text: Seq<char>, format: Seq<char>) -> Option<Timestamp>;

/// Parses `text` by `format` with `NaiveDateTime::parse_from_str` and reads
/// the result as seconds and nanoseconds. The contract claims only that the
/// outcome is a function of the text and the format.
#[verifier::external_body]
pub(crate) fn parse_datetime(text: &str, format: &str) -> (r: Option<Timestamp>)
    ensures
        r == parsed_datetime(text@, format@),
{
    match NaiveDateTime::parse_from_str(text, format) {
        Ok(dt) => {
            let utc = dt.and_utc();
            Some(Timestamp { secs: utc.timestamp(), nanos: utc.timestamp_subsec_nanos() })
        },
        Err(_) => None,
    }
}

/// A reading of the local wall clock, as an instant read in UTC. Only
/// `local_now` makes one, so a value of this type is what the clock gave.
pub struct ClockInstant {
    at: Timestamp,
}

impl ClockInstant {
    /// The instant the clock gave.
    pub closed spec fn instant(self) -> Timestamp {
        self.at
    }

    /// The instant the clock gave.
    pub fn timestamp(&self) -> (t: Timestamp)
        ensures
            t == self.instant(),
    {
        self.at
    }
}

/// The local wall-clock time now (`Local::now().naive_local()`), as an
/// instant read in UTC. Nothing is promised of which instant it is: it is
/// the clock.
#[verifier::external_body]
pub(crate) fn local_now() -> (r: ClockInstant) {
    let utc = Local::now().naive_local().and_utc();
    ClockInstant { at: Timestamp { secs: utc.timestamp(), nanos: utc.timestamp_subsec_nanos() } }
}

/// A decimal digit.
pub open spec fn is_digit(c: char) -> bool {
    '0' <= c <= '9'
}

/// A date as `%Y-%m-%d` writes it: printable text of at least ten
/// characters (the year takes four digits, or more with a sign) ending in
/// `-MM-DD`.
pub open spec fn is_date_text(s: Seq<char>) -> bool {
    &&& s.len() >= 10
    &&& is_printable_ascii(s)
    &&& s[s.len() - 6] == '-'
    &&& is_digit(s[s.len() - 5])
    &&& is_digit(s[s.len() - 4])
    &&& s[s.len() - 3] == '-'
    &&& is_digit(s[s.len() - 2])
    &&& is_digit(s[s.len() - 1])
}

/// Text read off the local clock. Only `local_date` and `local_now_rfc3339`
/// make one, so a value of this type holds what the clock gave.
pub struct ClockText {
    text: String,
}

impl ClockText {
    /// The text the clock gave.
    pub closed spec fn reading(self) -> Seq<char> {
        self.text@
    }

    /// The text the clock gave.
    pub fn as_str(&self) -> (s: &str)
        ensures
            s@ == self.reading(),
    {
        self.text.as_str()
    }
}

/// Today's local date as `Local::now().format("%Y-%m-%d")` writes it: the
/// year zero-padded to four digits (with a sign outside 0 to 9999), then
/// two-digit month and day. Which day it is, is the clock's.
#[verifier::external_body]
pub(crate) fn local_date() -> (r: ClockText)
    ensures
        is_date_text(r.reading()),
{
    ClockText { text: Local::now().format("%Y-%m-%d").to_string() }
}

/// The local time now as `Local::now().to_rfc3339()` writes it: ASCII
/// digits and separators, the date, `T`, the time to the second (a fraction
/// where there is one) and the offset, so at least 19 printable characters.
/// Which time it is, is the clock's.
#[verifier::external_body]
pub(crate) fn local_now_rfc3339() -> (r: ClockText)
    ensures
        r.reading().len() >= 19,
        is_printable_ascii(r.reading()),
{
    ClockText { text: Local::now().to_rfc3339() }
}

} // verus!
