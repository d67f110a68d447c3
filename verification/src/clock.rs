//! Points in time, offsets from UTC, and the reading and writing of
//! timestamps, which chrono does.

use chrono::{DateTime, FixedOffset, NaiveDateTime};
use vstd::prelude::*;

verus! {

#[verifier::external_type_specification]
#[verifier::external_body]
pub struct ExParseError(chrono::ParseError);

/// A point in time: the seconds since 1970-01-01 00:00:00 UTC, leap seconds
/// not counted, and the nanoseconds since that second began.
#[derive(Clone, Copy, Debug, PartialEq, Eq, Structural)]
pub struct Instant {
    pub secs: i64,
    /// At or above 1,000,000,000 within a leap second.
    pub nanos: u32,
}

/// The seconds that a local time is ahead of UTC, less than a day either
/// way.
#[derive(Clone, Copy, Debug)]
pub struct UtcOffset {
    seconds: i32,
}

impl View for UtcOffset {
    type V = int;

    closed spec fn view(&self) -> int {
        self.seconds as int
    }
}

impl UtcOffset {
    #[verifier::type_invariant]
    closed spec fn in_range(self) -> bool {
        -86_400 < self.seconds < 86_400
    }

    /// The offset of `seconds`, east of Greenwich counted positive, where
    /// that is less than a day.
    pub fn from_seconds(seconds: i32) -> (out: Option<UtcOffset>)
        ensures
            out is Some <==> -86_400 < seconds < 86_400,
            out matches Some(offset) ==> offset@ == seconds,
    {
        if -86_400 < seconds && seconds < 86_400 {
            Some(UtcOffset { seconds })
        } else {
            None
        }
    }

    /// No offset at all.
    pub fn utc() -> (out: UtcOffset)
        ensures
            out@ == 0,
    {
        UtcOffset { seconds: 0 }
    }

    /// The offset in seconds, east of Greenwich counted positive.
    pub fn seconds(&self) -> (out: i32)
        ensures
            out == self@,
            -86_400 < out < 86_400,
    {
        proof {
            use_type_invariant(self);
        }
        self.seconds
    }
}

/// The point in time that chrono reads out of `text` by the format `fmt`,
/// where the text states no offset and is taken as UTC.
pub uninterp spec fn parsed_naive(text: Seq<char>, fmt: Seq<char>) -> Option<Instant>;

/// The point in time that chrono reads out of `text` by the format `fmt`,
/// where the text states its own offset.
pub uninterp spec fn parsed_aware(text: Seq<char>, fmt: Seq<char>) -> Option<Instant>;

/// The text that chrono writes for a point in time by the format `fmt`, as
/// a clock `offset` seconds ahead of UTC shows it.
pub uninterp spec fn rendered(at: Instant, offset: int, fmt: Seq<char>) -> Option<Seq<char>>;

/// Calls `NaiveDateTime::parse_from_str` and takes the result as UTC. The
/// contract claims that the outcome depends on the two texts alone.
#[verifier::external_body]
pub(crate) fn parse_naive(text: &str, fmt: &str) -> (out: Result<Instant, chrono::ParseError>)
    ensures
        out is Ok <==> parsed_naive(text@, fmt@) is Some,
        out matches Ok(at) ==> parsed_naive(text@, fmt@) == Some(at),
{
    let utc = NaiveDateTime::parse_from_str(text, fmt)?.and_utc();
    Ok(Instant { secs: utc.timestamp(), nanos: utc.timestamp_subsec_nanos() })
}

/// Calls `DateTime::parse_from_str`, which asks the text for an offset. The
/// contract claims that the outcome depends on the two texts alone.
#[verifier::external_body]
pub(crate) fn parse_aware(text: &str, fmt: &str) -> (out: Result<Instant, chrono::ParseError>)
    ensures
        out is Ok <==> parsed_aware(text@, fmt@) is Some,
        out matches Ok(at) ==> parsed_aware(text@, fmt@) == Some(at),
{
    let stamp = DateTime::parse_from_str(text, fmt)?;
    Ok(Instant { secs: stamp.timestamp(), nanos: stamp.timestamp_subsec_nanos() })
}

/// Calls `DateTime::format` on the point in time, moved to the offset, and
/// writes the result out. `None` stands for a point in time that chrono
/// cannot hold and for a format that it cannot write. The contract claims
/// that the outcome depends on the arguments alone.
#[verifier::external_body]
pub(crate) fn render(at: Instant, offset: UtcOffset, fmt: &str) -> (out: Option<String>)
    ensures
        out is Some <==> rendered(at, offset@, fmt@) is Some,
        out matches Some(text) ==> rendered(at, offset@, fmt@) == Some(text@),
{
    let zone = FixedOffset::east_opt(offset.seconds)?;
    let local = DateTime::from_timestamp(at.secs, at.nanos)?.with_timezone(&zone);
    let mut text = String::new();
    local.format(fmt).write_to(&mut text).ok()?;
    Some(text)
}

} // verus!
