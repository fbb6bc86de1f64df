//! Value builders: from collected fields to calendar values.
use vstd::prelude::*;
use crate::interp::Fields;
use crate::value::{
    calendar_date_exists, is_calendar_date, Date, OffsetDateTime, ParseError, PrimitiveDateTime,
    Time, UtcOffset,
};

verus! {

/// The time of day that the fields give: hour and minute are required, second
/// and subsecond default to zero.
pub open spec fn time_of(f: Fields) -> Result<Time, ParseError> {
    if f.hour is None || f.minute is None {
        Err(ParseError::MissingField)
    } else {
        let h = f.hour->0;
        let m = f.minute->0;
        let sec = match f.second { Some(v) => v, None => 0u8 };
        let ns = match f.nanosecond { Some(v) => v, None => 0u32 };
        if h > 23 || m > 59 || sec > 59 || ns > 999_999_999 {
            Err(ParseError::InvalidValue)
        } else {
            Ok(Time { hour: h, minute: m, second: sec, nanosecond: ns })
        }
    }
}

/// The date that the fields give: year, month and day are all required and
/// must name a day of the calendar.
pub open spec fn date_of(f: Fields) -> Result<Date, ParseError> {
    if f.year is None || f.month is None || f.day is None {
        Err(ParseError::MissingField)
    } else if !is_calendar_date(f.year->0 as int, f.month->0 as int, f.day->0 as int) {
        Err(ParseError::InvalidDate)
    } else {
        Ok(Date { year: f.year->0, month: f.month->0, day: f.day->0 })
    }
}

/// The UTC offset that the fields give: the hour is required, the minute
/// defaults to zero, and the sign read with the hour applies to both.
pub open spec fn offset_of(f: Fields) -> Result<UtcOffset, ParseError> {
    if f.offset_hour is None {
        Err(ParseError::MissingField)
    } else {
        let h = f.offset_hour->0;
        let m = match f.offset_minute { Some(v) => v, None => 0u8 };
        if h > 23 || m > 59 {
            Err(ParseError::InvalidValue)
        } else if f.offset_negative {
            Ok(UtcOffset { hours: (-(h as int)) as i8, minutes: (-(m as int)) as i8, seconds: 0 })
        } else {
            Ok(UtcOffset { hours: h as i8, minutes: m as i8, seconds: 0 })
        }
    }
}

pub open spec fn primitive_of(f: Fields) -> Result<PrimitiveDateTime, ParseError> {
    match date_of(f) {
        Err(e) => Err(e),
        Ok(d) => match time_of(f) {
            Err(e) => Err(e),
            Ok(t) => Ok(PrimitiveDateTime { date: d, time: t }),
        },
    }
}

pub open spec fn offset_date_time_of(f: Fields) -> Result<OffsetDateTime, ParseError> {
    match primitive_of(f) {
        Err(e) => Err(e),
        Ok(p) => match offset_of(f) {
            Err(e) => Err(e),
            Ok(o) => Ok(OffsetDateTime { date: p.date, time: p.time, offset: o }),
        },
    }
}

/// Builds the time of day from `f`.
pub fn build_time(f: &Fields) -> (r: Result<Time, ParseError>)
    ensures
        r == time_of(*f),
{
    match (f.hour, f.minute) {
        (Some(h), Some(m)) => {
            let sec = match f.second { Some(v) => v, None => 0u8 };
            let ns = match f.nanosecond { Some(v) => v, None => 0u32 };
            if h > 23 || m > 59 || sec > 59 || ns > 999_999_999 {
                Err(ParseError::InvalidValue)
            } else {
                Ok(Time { hour: h, minute: m, second: sec, nanosecond: ns })
            }
        },
        _ => Err(ParseError::MissingField),
    }
}

/// Builds the date from `f`; the calendar collaborator decides whether the
/// day exists.
pub fn build_date(f: &Fields) -> (r: Result<Date, ParseError>)
    ensures
        r == date_of(*f),
{
    match (f.year, f.month, f.day) {
        (Some(y), Some(m), Some(d)) => {
            if calendar_date_exists(y, m, d) {
                Ok(Date { year: y, month: m, day: d })
            } else {
                Err(ParseError::InvalidDate)
            }
        },
        _ => Err(ParseError::MissingField),
    }
}

/// Builds the UTC offset from `f`.
pub fn build_offset(f: &Fields) -> (r: Result<UtcOffset, ParseError>)
    ensures
        r == offset_of(*f),
{
    match f.offset_hour {
        Some(h) => {
            let m = match f.offset_minute { Some(v) => v, None => 0u8 };
            if h > 23 || m > 59 {
                Err(ParseError::InvalidValue)
            } else if f.offset_negative {
                Ok(UtcOffset { hours: -(h as i8), minutes: -(m as i8), seconds: 0 })
            } else {
                Ok(UtcOffset { hours: h as i8, minutes: m as i8, seconds: 0 })
            }
        },
        None => Err(ParseError::MissingField),
    }
}

/// Builds a date and time from `f`.
pub fn build_primitive(f: &Fields) -> (r: Result<PrimitiveDateTime, ParseError>)
    ensures
        r == primitive_of(*f),
{
    let d = build_date(f)?;
    let t = build_time(f)?;
    Ok(PrimitiveDateTime { date: d, time: t })
}

/// Builds a date, time and offset from `f`.
pub fn build_offset_date_time(f: &Fields) -> (r: Result<OffsetDateTime, ParseError>)
    ensures
        r == offset_date_time_of(*f),
{
    let p = build_primitive(f)?;
    let o = build_offset(f)?;
    Ok(OffsetDateTime { date: p.date, time: p.time, offset: o })
}

} // verus!
