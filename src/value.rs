//! The calendar values that parsing produces, and the parse errors.
use vstd::prelude::*;

verus! {

/// Why a parse attempt failed.
#[derive(Clone, Copy, Debug, PartialEq, Eq, Structural)]
pub enum ParseError {
    /// A literal did not match the input byte for byte.
    LiteralMismatch,
    /// No digit stood where a component needed one.
    ComponentMismatch,
    /// A component mandates a leading `+` or `-` and none was present.
    MissingSign,
    /// A parsed number lies outside the component's range.
    InvalidValue,
    /// Fewer digits than an exact-width component demands.
    InsufficientWidth,
    /// A field that the requested value needs was never parsed.
    MissingField,
    /// The fields are each in range but name no day of the calendar.
    InvalidDate,
    /// The description matched a prefix of the input only.
    TrailingInput,
    /// There was no alternative to try.
    NoAlternativeMatched,
}

/// A calendar date: proleptic Gregorian year, month `1..=12` and day of month.
#[derive(Clone, Copy, Debug, PartialEq, Eq, Structural)]
pub struct Date {
    pub year: i32,
    pub month: u8,
    pub day: u8,
}

/// A time of day with nanosecond precision.
#[derive(Clone, Copy, Debug, PartialEq, Eq, Structural)]
pub struct Time {
    pub hour: u8,
    pub minute: u8,
    pub second: u8,
    pub nanosecond: u32,
}

/// An offset from UTC; all three parts carry the same sign.
#[derive(Clone, Copy, Debug, PartialEq, Eq, Structural)]
pub struct UtcOffset {
    pub hours: i8,
    pub minutes: i8,
    pub seconds: i8,
}

/// A date and a time of day, without offset.
#[derive(Clone, Copy, Debug, PartialEq, Eq, Structural)]
pub struct PrimitiveDateTime {
    pub date: Date,
    pub time: Time,
}

/// A date, a time of day and an offset from UTC.
#[derive(Clone, Copy, Debug, PartialEq, Eq, Structural)]
pub struct OffsetDateTime {
    pub date: Date,
    pub time: Time,
    pub offset: UtcOffset,
}

/// The years that the calendar collaborator supports.
pub open spec fn year_in_range(year: int) -> bool {
    -9999 <= year <= 9999
}

pub open spec fn is_leap_year(year: int) -> bool {
    year % 4 == 0 && (year % 100 != 0 || year % 400 == 0)
}

pub open spec fn days_in_month(year: int, month: int) -> int {
    if month == 2 {
        if is_leap_year(year) { 29 } else { 28 }
    } else if month == 4 || month == 6 || month == 9 || month == 11 {
        30
    } else {
        31
    }
}

/// Whether year, month and day name a day of the supported calendar.
pub open spec fn is_calendar_date(year: int, month: int, day: int) -> bool {
    &&& year_in_range(year)
    &&& 1 <= month <= 12
    &&& 1 <= day <= days_in_month(year, month)
}

/// Relies on `time::Date::from_calendar_date`, which accepts a year of its
/// supported range (-9999 to 9999), a month, and a day from 1 to the length of
/// that month in the proleptic Gregorian calendar; `time::Month::try_from`
/// turns the month number into its enum and refuses 0 and numbers above 12.
#[verifier::external_body]
pub(crate) fn calendar_date_exists(year: i32, month: u8, day: u8) -> (r: bool)
    ensures
        r == is_calendar_date(year as int, month as int, day as int),
{
    match time::Month::try_from(month) {
        Ok(m) => time::Date::from_calendar_date(year, m, day).is_ok(),
        Err(_) => false,
    }
}

} // verus!
