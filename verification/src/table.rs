//! The fixed table from directives to fragments of a regular expression.
//!
//! Every fragment is closed in itself: put between two others it matches
//! the text of its own field and nothing of theirs. A digit is one of the
//! ten ASCII digits, and padding is made of the space character.

use vstd::prelude::*;

use crate::directive::{FixedKind, NumericKind, Padding};

verus! {

pub const SHORT_MONTHS: &'static str = "Jan|Feb|Mar|Apr|May|Jun|Jul|Aug|Sep|Oct|Nov|Dec";

pub const LONG_MONTHS: &'static str =
    "January|February|March|April|May|June|July|August|September|October|November|December";

pub const SHORT_WEEKDAYS: &'static str = "Mon|Tue|Wed|Thu|Fri|Sat|Sun";

pub const LONG_WEEKDAYS: &'static str = "Monday|Tuesday|Wednesday|Thursday|Friday|Saturday|Sunday";

pub const LOWER_AM_PM: &'static str = "am|pm";

pub const UPPER_AM_PM: &'static str = "AM|PM";

/// Zero or more whitespace characters.
pub const WHITESPACE: &'static str = "\\s*";

/// A dot, then 3, 6 or 9 digits, the shortest tried first.
pub const ANY_FRACTION: &'static str = "\\.([0-9]{3}|[0-9]{6}|[0-9]{9})";

pub const FRACTION_3: &'static str = "\\.[0-9]{3}";

pub const FRACTION_6: &'static str = "\\.[0-9]{6}";

pub const FRACTION_9: &'static str = "\\.[0-9]{9}";

/// `+hh:mm` or `-hh:mm`.
pub const OFFSET_COLON: &'static str = "[+-][0-9]{2}:[0-9]{2}";

/// `+hhmm` or `-hhmm`.
pub const OFFSET_COMPACT: &'static str = "[+-][0-9]{2}[0-9]{2}";

pub const OFFSET_COLON_OR_Z: &'static str = "(?:Z|[+-][0-9]{2}:[0-9]{2})";

pub const OFFSET_COMPACT_OR_Z: &'static str = "(?:Z|[+-][0-9]{2}[0-9]{2})";

/// What stands between the weekday and the month of an RFC 2822 date: the
/// comma and the day.
pub const RFC2822_DAY: &'static str = ",\\s+[0-9]{2}\\s+";

/// What follows the month of an RFC 2822 date: year, time and offset.
pub const RFC2822_REST: &'static str =
    "\\s+[0-9]{4}\\s+[0-9]{2}:[0-9]{2}:[0-9]{2} [+-][0-9]{2}[0-9]{2}";

/// An RFC 3339 date and time with a fraction of a second, and without an
/// offset behind it.
pub const RFC3339: &'static str =
    "[0-9]{4}-[0-9]{2}-[0-9]{2}T[0-9]{2}:[0-9]{2}:[0-9]{2}\\.(?:[0-9]{9}|[0-9]{6}|[0-9]{3})";

/// A list of alternatives made into one unit.
pub open spec fn group(alternatives: Seq<char>) -> Seq<char> {
    "(?:"@ + alternatives + ")"@
}

/// The decimal digit for a number up to nine.
pub open spec fn digit(n: nat) -> Seq<char>
    recommends
        n <= 9,
{
    if n == 0 {
        "0"@
    } else if n == 1 {
        "1"@
    } else if n == 2 {
        "2"@
    } else if n == 3 {
        "3"@
    } else if n == 4 {
        "4"@
    } else if n == 5 {
        "5"@
    } else if n == 6 {
        "6"@
    } else if n == 7 {
        "7"@
    } else if n == 8 {
        "8"@
    } else {
        "9"@
    }
}

/// The fragment of a numeric field, or `None` where the field has none.
///
/// A field without a bound is its width or more digits, whatever the
/// padding. A field of no width is nothing. With space padding a field is up
/// to width - 1 spaces and then one to width digits. Any other field is
/// exactly width digits.
pub open spec fn numeric_fragment(kind: NumericKind, padding: Padding) -> Option<Seq<char>> {
    match kind.width() {
        None => None,
        Some(width) => Some(
            if kind.unbounded() {
                "[0-9]{"@ + digit(width) + ",}"@
            } else if width == 0 {
                Seq::empty()
            } else if padding == Padding::SpacePadded {
                " {0,"@ + digit((width - 1) as nat) + "}[0-9]{1,"@ + digit(width) + "}"@
            } else {
                "[0-9]{"@ + digit(width) + "}"@
            },
        ),
    }
}

impl FixedKind {
    /// The fragment of the field, or `None` where the field has none.
    pub open spec fn fragment(self) -> Option<Seq<char>> {
        match self {
            FixedKind::ShortMonthName => Some(group(SHORT_MONTHS@)),
            FixedKind::LongMonthName => Some(group(LONG_MONTHS@)),
            FixedKind::ShortWeekdayName => Some(group(SHORT_WEEKDAYS@)),
            FixedKind::LongWeekdayName => Some(group(LONG_WEEKDAYS@)),
            FixedKind::LowerAmPm => Some(group(LOWER_AM_PM@)),
            FixedKind::UpperAmPm => Some(group(UPPER_AM_PM@)),
            FixedKind::Nanosecond => Some(ANY_FRACTION@),
            FixedKind::Nanosecond3 => Some(FRACTION_3@),
            FixedKind::Nanosecond6 => Some(FRACTION_6@),
            FixedKind::Nanosecond9 => Some(FRACTION_9@),
            FixedKind::TimezoneOffsetColon => Some(OFFSET_COLON@),
            FixedKind::TimezoneOffsetColonZ => Some(OFFSET_COLON_OR_Z@),
            FixedKind::TimezoneOffset => Some(OFFSET_COMPACT@),
            FixedKind::TimezoneOffsetZ => Some(OFFSET_COMPACT_OR_Z@),
            FixedKind::RFC2822 => Some(
                group(SHORT_WEEKDAYS@) + RFC2822_DAY@ + group(SHORT_MONTHS@) + RFC2822_REST@,
            ),
            FixedKind::RFC3339 => Some(RFC3339@),
            FixedKind::TimezoneName
            | FixedKind::TimezoneOffsetDoubleColon
            | FixedKind::TimezoneOffsetTripleColon
            | FixedKind::Internal
            | FixedKind::Unknown => None,
        }
    }

    /// Whether text of this field states its own offset from UTC.
    pub open spec fn carries_offset(self) -> bool {
        self == FixedKind::TimezoneOffsetColon || self == FixedKind::TimezoneOffsetColonZ || self
            == FixedKind::TimezoneOffset || self == FixedKind::TimezoneOffsetZ || self
            == FixedKind::RFC2822 || self == FixedKind::RFC3339
    }

    /// Whether the field may be written as a bare `Z`.
    pub open spec fn allows_zulu(self) -> bool {
        self == FixedKind::TimezoneOffsetColonZ || self == FixedKind::TimezoneOffsetZ
    }

    /// Whether text of this field states its own offset from UTC.
    pub fn has_offset(self) -> (b: bool)
        ensures
            b == self.carries_offset(),
    {
        match self {
            FixedKind::TimezoneOffsetColon
            | FixedKind::TimezoneOffsetColonZ
            | FixedKind::TimezoneOffset
            | FixedKind::TimezoneOffsetZ
            | FixedKind::RFC2822
            | FixedKind::RFC3339 => true,
            _ => false,
        }
    }

    /// Whether the field may be written as a bare `Z`.
    pub fn may_be_zulu(self) -> (b: bool)
        ensures
            b == self.allows_zulu(),
    {
        match self {
            FixedKind::TimezoneOffsetColonZ | FixedKind::TimezoneOffsetZ => true,
            _ => false,
        }
    }
}

/// A list of alternatives made into one unit.
pub fn grouped(alternatives: &str) -> (out: String)
    ensures
        out@ == group(alternatives@),
{
    let mut out = String::new();
    out.append("(?:");
    out.append(alternatives);
    out.append(")");
    out
}

/// The decimal digit for a number up to nine.
fn digit_text(n: u8) -> (text: &'static str)
    requires
        n <= 9,
    ensures
        text@ == digit(n as nat),
{
    match n {
        0 => "0",
        1 => "1",
        2 => "2",
        3 => "3",
        4 => "4",
        5 => "5",
        6 => "6",
        7 => "7",
        8 => "8",
        _ => "9",
    }
}

/// The fragment of a numeric field, or `None` where the field has none.
pub fn numeric_text(kind: NumericKind, padding: Padding) -> (out: Option<String>)
    ensures
        out is Some <==> numeric_fragment(kind, padding) is Some,
        out matches Some(text) ==> numeric_fragment(kind, padding) == Some(text@),
{
    let width = match kind.digits() {
        Some(width) => width,
        None => {
            return None;
        },
    };
    let mut out = String::new();
    if kind.is_unbounded() {
        out.append("[0-9]{");
        out.append(digit_text(width));
        out.append(",}");
        return Some(out);
    }
    if width == 0 {
        return Some(out);
    }
    match padding {
        Padding::SpacePadded => {
            out.append(" {0,");
            out.append(digit_text(width - 1));
            out.append("}[0-9]{1,");
            out.append(digit_text(width));
            out.append("}");
        },
        _ => {
            out.append("[0-9]{");
            out.append(digit_text(width));
            out.append("}");
        },
    }
    Some(out)
}

/// The fragment of a fixed field, or `None` where the field has none.
pub fn fixed_text(kind: FixedKind) -> (out: Option<String>)
    ensures
        out is Some <==> kind.fragment() is Some,
        out matches Some(text) ==> kind.fragment() == Some(text@),
{
    match kind {
        FixedKind::ShortMonthName => Some(grouped(SHORT_MONTHS)),
        FixedKind::LongMonthName => Some(grouped(LONG_MONTHS)),
        FixedKind::ShortWeekdayName => Some(grouped(SHORT_WEEKDAYS)),
        FixedKind::LongWeekdayName => Some(grouped(LONG_WEEKDAYS)),
        FixedKind::LowerAmPm => Some(grouped(LOWER_AM_PM)),
        FixedKind::UpperAmPm => Some(grouped(UPPER_AM_PM)),
        FixedKind::Nanosecond => Some(ANY_FRACTION.to_owned()),
        FixedKind::Nanosecond3 => Some(FRACTION_3.to_owned()),
        FixedKind::Nanosecond6 => Some(FRACTION_6.to_owned()),
        FixedKind::Nanosecond9 => Some(FRACTION_9.to_owned()),
        FixedKind::TimezoneOffsetColon => Some(OFFSET_COLON.to_owned()),
        FixedKind::TimezoneOffsetColonZ => Some(OFFSET_COLON_OR_Z.to_owned()),
        FixedKind::TimezoneOffset => Some(OFFSET_COMPACT.to_owned()),
        FixedKind::TimezoneOffsetZ => Some(OFFSET_COMPACT_OR_Z.to_owned()),
        FixedKind::RFC2822 => {
            let mut out = grouped(SHORT_WEEKDAYS);
            out.append(RFC2822_DAY);
            let months = grouped(SHORT_MONTHS);
            out.append(months.as_str());
            out.append(RFC2822_REST);
            Some(out)
        },
        FixedKind::RFC3339 => Some(RFC3339.to_owned()),
        FixedKind::TimezoneName
        | FixedKind::TimezoneOffsetDoubleColon
        | FixedKind::TimezoneOffsetTripleColon
        | FixedKind::Internal
        | FixedKind::Unknown => None,
    }
}

} // verus!
