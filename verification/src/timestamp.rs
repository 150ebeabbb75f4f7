//! Points in time as a changelog signature line carries them.

use chrono::{DateTime, FixedOffset};
use vstd::prelude::*;

verus! {

/// An instant together with the UTC offset it is shown at.
///
/// `secs` counts non-leap seconds since 1970-01-01T00:00:00Z, `nanos` the
/// nanoseconds into that second (one thousand million or more inside a leap
/// second), and `offset` the seconds to add to UTC to get the local time.
#[derive(Clone, Copy, Debug, PartialEq, Eq, Structural)]
pub struct Timestamp {
    pub secs: i64,
    pub nanos: u32,
    pub offset: i32,
}

/// The layout of the date on a signature line: `Mon, 01 Jan 2024 00:00:00 +0000`.
pub const DATE_PATTERN: &'static str = "%a, %d %b %Y %H:%M:%S %z";

/// The text that chrono's `DateTime::format` writes, laid out by
/// [`DATE_PATTERN`], for the instant `(secs, nanos)` shown at `offset`;
/// `None` where chrono has no such date-time or does not write it.
pub uninterp spec fn date_text(secs: i64, nanos: u32, offset: i32) -> Option<Seq<char>>;

/// The instant that chrono's `DateTime::parse_from_rfc2822` reads from
/// `text`; `None` where chrono rejects the text.
pub uninterp spec fn rfc2822_instant(text: Seq<char>) -> Option<Timestamp>;

/// Builds the date-time with chrono's `DateTime::from_timestamp` and
/// `FixedOffset::east_opt` and writes it with `DateTime::format`, for the
/// layout of a signature line and no other. The contract only gives the
/// outcome its name: the text is a function of the three numbers.
#[verifier::external_body]
fn format_instant(secs: i64, nanos: u32, offset: i32, pattern: &str) -> (text: Option<String>)
    requires
        pattern@ == DATE_PATTERN@,
    ensures
        text.deep_view() == date_text(secs, nanos, offset),
{
    let zone = FixedOffset::east_opt(offset)?;
    let at = DateTime::from_timestamp(secs, nanos)?.with_timezone(&zone);
    let mut text = String::new();
    at.format(pattern).write_to(&mut text).ok()?;
    Some(text)
}

/// Calls chrono's `DateTime::parse_from_rfc2822` and takes the result apart
/// with `timestamp`, `timestamp_subsec_nanos` and `offset`. The contract only
/// gives the outcome its name: it is a function of the text.
#[verifier::external_body]
fn parse_rfc2822(text: &str) -> (at: Option<Timestamp>)
    ensures
        at == rfc2822_instant(text@),
{
    let at = DateTime::parse_from_rfc2822(text).ok()?;
    Some(Timestamp {
        secs: at.timestamp(),
        nanos: at.timestamp_subsec_nanos(),
        offset: at.offset().local_minus_utc(),
    })
}

impl Timestamp {
    /// The date text of this timestamp, empty where chrono cannot show it.
    pub open spec fn text(self) -> Seq<char> {
        match date_text(self.secs, self.nanos, self.offset) {
            Some(text) => text,
            None => Seq::empty(),
        }
    }

    /// Reads an RFC 2822 date such as `Mon, 01 Jan 2024 00:00:00 +0000`.
    pub fn parse(text: &str) -> (at: Option<Timestamp>)
        ensures
            at == rfc2822_instant(text@),
    {
        parse_rfc2822(text)
    }

    /// Writes the timestamp as a signature line shows it.
    pub fn to_string(&self) -> (text: String)
        ensures
            text@ == self.text(),
    {
        match format_instant(self.secs, self.nanos, self.offset, DATE_PATTERN) {
            Some(text) => text,
            None => String::new(),
        }
    }
}

} // verus!
