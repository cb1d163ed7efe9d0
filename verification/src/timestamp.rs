//! Instants in time as plain numbers, and their written forms.

use vstd::prelude::*;

verus! {

/// An instant on the UTC time line: whole seconds since 1970-01-01T00:00:00Z
/// and the nanoseconds into that second.
#[derive(Clone, Copy, Debug, PartialEq, Eq, Structural)]
pub struct Timestamp {
    pub seconds: i64,
    pub nanos: u32,
}

/// The instant that an RFC 3339 date-and-time text denotes, as seconds and
/// nanoseconds; `None` for a text that is no such date and time.
pub uninterp spec fn rfc3339_instant(text: Seq<char>) -> Option<(i64, u32)>;

/// The RFC 3339 text that `chrono` writes for the UTC date and time at the
/// given seconds and nanoseconds; `None` where `chrono` has no such date and
/// time.
pub uninterp spec fn utc_display(seconds: i64, nanos: u32) -> Option<Seq<char>>;

/// Calls `chrono::DateTime::parse_from_rfc3339` and reads the result's
/// `timestamp` and `timestamp_subsec_nanos`. Nothing is proved of the parser:
/// the contract only names what it returns for this text.
#[verifier::external_body]
fn parse_rfc3339(text: &str) -> (r: Option<(i64, u32)>)
    ensures
        r == rfc3339_instant(text@),
{
    match chrono::DateTime::parse_from_rfc3339(text) {
        Ok(t) => Some((t.timestamp(), t.timestamp_subsec_nanos())),
        Err(_) => None,
    }
}

/// Calls `chrono::DateTime::from_timestamp` and, where that gives a date and
/// time, its `to_rfc3339`. Nothing is proved of either: the contract only
/// names the text they produce for these numbers.
#[verifier::external_body]
fn display_utc(seconds: i64, nanos: u32) -> (r: Option<String>)
    ensures
        match r {
            Some(text) => utc_display(seconds, nanos) == Some(text@),
            None => utc_display(seconds, nanos) is None,
        },
{
    match chrono::DateTime::from_timestamp(seconds, nanos) {
        Some(t) => Some(t.to_rfc3339()),
        None => None,
    }
}

/// The timestamp a parse produced, if it produced one.
pub open spec fn timestamp_of(parsed: Option<(i64, u32)>) -> Option<Timestamp> {
    match parsed {
        Some(p) => Some(Timestamp { seconds: p.0, nanos: p.1 }),
        None => None,
    }
}

/// The timestamp that a stored text stands for: what it parses to, or the
/// alternative where it does not parse.
pub open spec fn parsed_or(parsed: Option<Timestamp>, alternative: Timestamp) -> Timestamp {
    match parsed {
        Some(t) => t,
        None => alternative,
    }
}

impl Timestamp {
    /// Reads an RFC 3339 date and time.
    pub fn parse(text: &str) -> (r: Option<Timestamp>)
        ensures
            r == timestamp_of(rfc3339_instant(text@)),
    {
        match parse_rfc3339(text) {
            Some(p) => Some(Timestamp { seconds: p.0, nanos: p.1 }),
            None => None,
        }
    }

    /// The outcome of a parse, or `alternative` where the parse failed.
    pub fn or_alternative(parsed: Option<Timestamp>, alternative: Timestamp) -> (r: Timestamp)
        ensures
            r == parsed_or(parsed, alternative),
    {
        match parsed {
            Some(t) => t,
            None => alternative,
        }
    }

    /// The instant written out as a UTC date and time, where it can be.
    pub fn to_text(&self) -> (r: Option<String>)
        ensures
            match r {
                Some(text) => utc_display(self.seconds, self.nanos) == Some(text@),
                None => utc_display(self.seconds, self.nanos) is None,
            },
    {
        display_utc(self.seconds, self.nanos)
    }
}

} // verus!
