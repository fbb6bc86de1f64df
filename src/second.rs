//! Parsers built on one description: a first-match alternation of layouts
//! whose seconds, subsecond and zone are optional groups.
use vstd::prelude::*;
use vstd::string::StringSliceAdditionalSpecFns;
use crate::describe::{
    first_item, grouped_date_time, grouped_date_time_item, grouped_time, grouped_time_item,
    push_item, views, ZoneSuffix,
};
use crate::format::{Fmt, FormatItem};
use crate::strategy::{as_offset, as_primitive, as_time, parse_as, parse_value, Target, Value};
use crate::value::{OffsetDateTime, ParseError, PrimitiveDateTime, Time};

verus! {

/// The space-separated layout, else the `T`-separated one.
pub open spec fn date_time_description(z: ZoneSuffix) -> Fmt {
    Fmt::First(seq![grouped_date_time(32, z), grouped_date_time(84, z)])
}

pub open spec fn time_description() -> Fmt {
    Fmt::First(seq![grouped_time()])
}

fn date_time_item(z: ZoneSuffix) -> (r: FormatItem)
    ensures
        r@ == date_time_description(z),
{
    let mut v: Vec<FormatItem> = Vec::new();
    push_item(&mut v, grouped_date_time_item(32, z));
    push_item(&mut v, grouped_date_time_item(84, z));
    assert(views(v@) =~= seq![grouped_date_time(32, z), grouped_date_time(84, z)]);
    let r = first_item(v);
    assert(r@ == date_time_description(z));
    r
}

/// Parses a date, time and offset; the offset group must be present.
pub fn odt_attempt(offset_date_time_string: &str) -> (r: Result<OffsetDateTime, ParseError>)
    ensures
        r == as_offset(parse_as(Target::Offset, date_time_description(ZoneSuffix::Offset), offset_date_time_string.spec_bytes())),
{
    let d = date_time_item(ZoneSuffix::Offset);
    match parse_value(Target::Offset, &d, offset_date_time_string.as_bytes()) {
        Ok(Value::Offset(v)) => Ok(v),
        Ok(_) => Err(ParseError::NoAlternativeMatched),
        Err(e) => Err(e),
    }
}

/// Parses a date and time; a trailing `Z` is accepted and ignored.
pub fn pdt_attempt(primitive_date_time_string: &str) -> (r: Result<PrimitiveDateTime, ParseError>)
    ensures
        r == as_primitive(parse_as(Target::Primitive, date_time_description(ZoneSuffix::Z), primitive_date_time_string.spec_bytes())),
{
    let d = date_time_item(ZoneSuffix::Z);
    match parse_value(Target::Primitive, &d, primitive_date_time_string.as_bytes()) {
        Ok(Value::Primitive(v)) => Ok(v),
        Ok(_) => Err(ParseError::NoAlternativeMatched),
        Err(e) => Err(e),
    }
}

/// Parses a time of day: hour and minute, optional seconds and subsecond.
pub fn time_attempt(time_string: &str) -> (r: Result<Time, ParseError>)
    ensures
        r == as_time(parse_as(Target::Time, time_description(), time_string.spec_bytes())),
{
    let mut v: Vec<FormatItem> = Vec::new();
    push_item(&mut v, grouped_time_item());
    assert(views(v@) =~= seq![grouped_time()]);
    let d = first_item(v);
    assert(d@ == time_description());
    match parse_value(Target::Time, &d, time_string.as_bytes()) {
        Ok(Value::Time(t)) => Ok(t),
        Ok(_) => Err(ParseError::NoAlternativeMatched),
        Err(e) => Err(e),
    }
}

} // verus!
