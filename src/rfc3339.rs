//! The RFC 3339 fast path, which the calendar library provides.
use vstd::prelude::*;
use crate::value::{Date, OffsetDateTime, Time, UtcOffset};

verus! {

/// What the calendar library's RFC 3339 parser makes of a text.
pub uninterp spec fn rfc3339_of(s: Seq<char>) -> Option<OffsetDateTime>;

/// Relies on `time::OffsetDateTime::parse` with the well-known `Rfc3339`
/// format, whose outcome depends on the text alone; the value is read back
/// through its accessors (`Month` is numbered from 1).
#[verifier::external_body]
pub(crate) fn parse_rfc3339(s: &str) -> (r: Option<OffsetDateTime>)
    ensures
        r == rfc3339_of(s@),
{
    let v = time::OffsetDateTime::parse(s, &time::format_description::well_known::Rfc3339).ok()?;
    let (hours, minutes, seconds) = v.offset().as_hms();
    let date = Date { year: v.year(), month: v.month() as u8, day: v.day() };
    let time = Time { hour: v.hour(), minute: v.minute(), second: v.second(), nanosecond: v.nanosecond() };
    Some(OffsetDateTime { date, time, offset: UtcOffset { hours, minutes, seconds } })
}

} // verus!
