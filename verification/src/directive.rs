//! The directives of a format specification, and the width of each numeric
//! field.

use vstd::prelude::*;

verus! {

/// How a numeric field is padded to its width.
#[derive(Clone, Copy, Debug, PartialEq, Eq, Structural)]
pub enum Padding {
    /// No padding at all.
    Unpadded,
    /// Leading zeros.
    ZeroPadded,
    /// Leading spaces.
    SpacePadded,
}

/// The numeric fields of a timestamp.
#[derive(Clone, Copy, Debug, PartialEq, Eq, Structural)]
pub enum NumericKind {
    Year,
    YearDiv100,
    YearMod100,
    IsoYear,
    IsoYearDiv100,
    IsoYearMod100,
    Quarter,
    Month,
    Day,
    WeekFromSun,
    WeekFromMon,
    IsoWeek,
    NumDaysFromSun,
    WeekdayFromMon,
    Ordinal,
    Hour,
    Hour12,
    Minute,
    Second,
    Nanosecond,
    Timestamp,
    /// A reserved field without any text.
    Internal,
    /// A field that this library does not know.
    Unknown,
}

/// The fields of a timestamp whose text is not a plain number.
#[derive(Clone, Copy, Debug, PartialEq, Eq, Structural)]
pub enum FixedKind {
    ShortMonthName,
    LongMonthName,
    ShortWeekdayName,
    LongWeekdayName,
    LowerAmPm,
    UpperAmPm,
    /// A dot and 3, 6 or 9 digits.
    Nanosecond,
    Nanosecond3,
    Nanosecond6,
    Nanosecond9,
    TimezoneName,
    /// `+hh:mm`.
    TimezoneOffsetColon,
    /// `+hh:mm:ss`.
    TimezoneOffsetDoubleColon,
    /// `+hh`.
    TimezoneOffsetTripleColon,
    /// `+hh:mm` or `Z`.
    TimezoneOffsetColonZ,
    /// `+hhmm`.
    TimezoneOffset,
    /// `+hhmm` or `Z`.
    TimezoneOffsetZ,
    RFC2822,
    RFC3339,
    /// A reserved field.
    Internal,
    /// A field that this library does not know.
    Unknown,
}

/// One unit of a format specification.
#[derive(Debug)]
pub enum Directive {
    /// Text that stands for itself.
    Literal(String),
    /// Any run of whitespace, also an empty one.
    Whitespace,
    /// A number of a fixed width.
    Numeric(NumericKind, Padding),
    /// A name, a marker, an offset or a whole standard format.
    FixedString(FixedKind),
    /// A part of the specification that could not be read as a directive.
    Malformed,
}

impl NumericKind {
    /// The number of digits of the field, or `None` for a field that has no
    /// place in a pattern. For a field without a bound it is the least
    /// number of digits.
    pub open spec fn width(self) -> Option<nat> {
        match self {
            NumericKind::Year | NumericKind::IsoYear => Some(4),
            NumericKind::YearDiv100
            | NumericKind::YearMod100
            | NumericKind::IsoYearDiv100
            | NumericKind::IsoYearMod100
            | NumericKind::Month
            | NumericKind::Day
            | NumericKind::WeekFromSun
            | NumericKind::WeekFromMon
            | NumericKind::IsoWeek
            | NumericKind::Hour
            | NumericKind::Hour12
            | NumericKind::Minute
            | NumericKind::Second => Some(2),
            NumericKind::NumDaysFromSun | NumericKind::WeekdayFromMon => Some(1),
            NumericKind::Ordinal => Some(3),
            NumericKind::Nanosecond => Some(9),
            NumericKind::Timestamp => Some(1),
            NumericKind::Internal => Some(0),
            NumericKind::Quarter | NumericKind::Unknown => None,
        }
    }

    /// Whether the field may have any number of digits from its width on.
    /// Only the Unix timestamp is such a field.
    pub open spec fn unbounded(self) -> bool {
        self == NumericKind::Timestamp
    }

    /// Whether the field may have any number of digits from its width on.
    pub fn is_unbounded(self) -> (b: bool)
        ensures
            b == self.unbounded(),
    {
        match self {
            NumericKind::Timestamp => true,
            _ => false,
        }
    }

    /// The number of digits of the field, or `None` for a field that has no
    /// place in a pattern.
    pub fn digits(self) -> (w: Option<u8>)
        ensures
            w is Some <==> self.width() is Some,
            w matches Some(n) ==> self.width() == Some(n as nat) && n <= 9,
    {
        match self {
            NumericKind::Year | NumericKind::IsoYear => Some(4),
            NumericKind::YearDiv100
            | NumericKind::YearMod100
            | NumericKind::IsoYearDiv100
            | NumericKind::IsoYearMod100
            | NumericKind::Month
            | NumericKind::Day
            | NumericKind::WeekFromSun
            | NumericKind::WeekFromMon
            | NumericKind::IsoWeek
            | NumericKind::Hour
            | NumericKind::Hour12
            | NumericKind::Minute
            | NumericKind::Second => Some(2),
            NumericKind::NumDaysFromSun | NumericKind::WeekdayFromMon => Some(1),
            NumericKind::Ordinal => Some(3),
            NumericKind::Nanosecond => Some(9),
            NumericKind::Timestamp => Some(1),
            NumericKind::Internal => Some(0),
            NumericKind::Quarter | NumericKind::Unknown => None,
        }
    }
}

} // verus!
