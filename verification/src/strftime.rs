//! The reading of a format specification into directives, which chrono does.

use chrono::format::{Fixed, Item, Numeric, Pad, StrftimeItems};
use vstd::prelude::*;

use crate::directive::{Directive, FixedKind, NumericKind, Padding};

verus! {

#[verifier::external_type_specification]
#[verifier::external_body]
pub struct ExPad(Pad);

#[verifier::external_type_specification]
#[verifier::external_body]
pub struct ExNumeric(Numeric);

#[verifier::external_type_specification]
#[verifier::external_body]
pub struct ExFixed(Fixed);

#[verifier::external_type_specification]
#[verifier::external_body]
pub struct ExItem<'a>(Item<'a>);

/// The directives that chrono reads out of a format specification, in the
/// order of the text.
pub uninterp spec fn strftime_items(fmt: Seq<char>) -> Seq<Directive>;

/// Tells the variants of chrono's `Pad` apart.
#[verifier::external_body]
fn padding_of(pad: Pad) -> Padding {
    match pad {
        Pad::None => Padding::Unpadded,
        Pad::Zero => Padding::ZeroPadded,
        Pad::Space => Padding::SpacePadded,
    }
}

/// Tells the variants of chrono's `Numeric` apart: years, months and weeks
/// here, days and times of day in `day_or_time_of`.
#[verifier::external_body]
fn numeric_of(kind: Numeric) -> NumericKind {
    match kind {
        Numeric::Year => NumericKind::Year,
        Numeric::YearDiv100 => NumericKind::YearDiv100,
        Numeric::YearMod100 => NumericKind::YearMod100,
        Numeric::IsoYear => NumericKind::IsoYear,
        Numeric::IsoYearDiv100 => NumericKind::IsoYearDiv100,
        Numeric::IsoYearMod100 => NumericKind::IsoYearMod100,
        Numeric::Quarter => NumericKind::Quarter,
        Numeric::Month => NumericKind::Month,
        Numeric::WeekFromSun => NumericKind::WeekFromSun,
        Numeric::WeekFromMon => NumericKind::WeekFromMon,
        Numeric::IsoWeek => NumericKind::IsoWeek,
        other => day_or_time_of(other),
    }
}

/// Tells the rest of the variants of chrono's `Numeric` apart; one that this
/// library does not list becomes `Unknown`.
#[verifier::external_body]
fn day_or_time_of(kind: Numeric) -> NumericKind {
    match kind {
        Numeric::Day => NumericKind::Day,
        Numeric::NumDaysFromSun => NumericKind::NumDaysFromSun,
        Numeric::WeekdayFromMon => NumericKind::WeekdayFromMon,
        Numeric::Ordinal => NumericKind::Ordinal,
        Numeric::Hour => NumericKind::Hour,
        Numeric::Hour12 => NumericKind::Hour12,
        Numeric::Minute => NumericKind::Minute,
        Numeric::Second => NumericKind::Second,
        Numeric::Nanosecond => NumericKind::Nanosecond,
        Numeric::Timestamp => NumericKind::Timestamp,
        Numeric::Internal(_) => NumericKind::Internal,
        _ => NumericKind::Unknown,
    }
}

/// Tells the variants of chrono's `Fixed` apart: names and fractions of a
/// second here, time zones and whole formats in `zone_field_of`.
#[verifier::external_body]
fn fixed_of(kind: Fixed) -> FixedKind {
    match kind {
        Fixed::ShortMonthName => FixedKind::ShortMonthName,
        Fixed::LongMonthName => FixedKind::LongMonthName,
        Fixed::ShortWeekdayName => FixedKind::ShortWeekdayName,
        Fixed::LongWeekdayName => FixedKind::LongWeekdayName,
        Fixed::LowerAmPm => FixedKind::LowerAmPm,
        Fixed::UpperAmPm => FixedKind::UpperAmPm,
        Fixed::Nanosecond => FixedKind::Nanosecond,
        Fixed::Nanosecond3 => FixedKind::Nanosecond3,
        Fixed::Nanosecond6 => FixedKind::Nanosecond6,
        Fixed::Nanosecond9 => FixedKind::Nanosecond9,
        other => zone_field_of(other),
    }
}

/// Tells the rest of the variants of chrono's `Fixed` apart; one that this
/// library does not list becomes `Unknown`.
#[verifier::external_body]
fn zone_field_of(kind: Fixed) -> FixedKind {
    match kind {
        Fixed::TimezoneName => FixedKind::TimezoneName,
        Fixed::TimezoneOffsetColon => FixedKind::TimezoneOffsetColon,
        Fixed::TimezoneOffsetDoubleColon => FixedKind::TimezoneOffsetDoubleColon,
        Fixed::TimezoneOffsetTripleColon => FixedKind::TimezoneOffsetTripleColon,
        Fixed::TimezoneOffsetColonZ => FixedKind::TimezoneOffsetColonZ,
        Fixed::TimezoneOffset => FixedKind::TimezoneOffset,
        Fixed::TimezoneOffsetZ => FixedKind::TimezoneOffsetZ,
        Fixed::RFC2822 => FixedKind::RFC2822,
        Fixed::RFC3339 => FixedKind::RFC3339,
        Fixed::Internal(_) => FixedKind::Internal,
        _ => FixedKind::Unknown,
    }
}

/// Tells the variants of chrono's `Item` apart, and moves the text of a
/// literal.
#[verifier::external_body]
fn directive_of(item: Item<'_>) -> Directive {
    match item {
        Item::Literal(text) => Directive::Literal(text.to_string()),
        Item::OwnedLiteral(text) => Directive::Literal(text.into_string()),
        Item::Space(_) => Directive::Whitespace,
        Item::OwnedSpace(_) => Directive::Whitespace,
        Item::Numeric(kind, pad) => Directive::Numeric(numeric_of(kind), padding_of(pad)),
        Item::Fixed(kind) => Directive::FixedString(fixed_of(kind)),
        Item::Error => Directive::Malformed,
    }
}

/// Calls chrono's `StrftimeItems::new` and walks the iterator to its end.
/// The contract claims that the directives depend on the text alone.
#[verifier::external_body]
pub(crate) fn decompose(fmt: &str) -> (items: Vec<Directive>)
    ensures
        items@ == strftime_items(fmt@),
{
    StrftimeItems::new(fmt).map(directive_of).collect()
}

} // verus!
