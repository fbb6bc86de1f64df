//! Parsers that try a complete default layout or the RFC 3339 fast path
//! first, then loose layouts in which each tail item is optional.
use vstd::prelude::*;
use vstd::string::StringSliceAdditionalSpecFns;
use crate::describe::{
    first_item, fixed_date_time, fixed_date_time_item, fixed_time, fixed_time_item,
    lemma_fmts_of_views, loose_date_time, loose_date_time_item, loose_time, loose_time_item,
    push_item, views, ZoneSuffix,
};
use crate::format::{Fmt, FormatItem};
use crate::rfc3339::{parse_rfc3339, rfc3339_of};
use crate::strategy::{
    after_fast_path, as_offset, as_primitive, as_time, candidates_parse, offset_from_candidates,
    parse_as, parse_value, primitive_from_candidates, time_from_candidates, Target, Value,
};
use crate::value::{OffsetDateTime, ParseError, PrimitiveDateTime, Time};

verus! {

/// The loose space-separated layout, else the loose `T`-separated one.
pub open spec fn loose_description(z: ZoneSuffix) -> Fmt {
    Fmt::First(seq![loose_date_time(Some(32u8), z), loose_date_time(Some(84u8), z)])
}

fn loose_item(z: ZoneSuffix) -> (r: FormatItem)
    ensures
        r@ == loose_description(z),
{
    let mut v: Vec<FormatItem> = Vec::new();
    push_item(&mut v, loose_date_time_item(Some(32u8), z));
    push_item(&mut v, loose_date_time_item(Some(84u8), z));
    assert(views(v@) =~= seq![loose_date_time(Some(32u8), z), loose_date_time(Some(84u8), z)]);
    first_item(v)
}

/// The complete space-separated layout with seconds and subsecond, then the
/// loose alternation.
pub open spec fn pdt_candidates() -> Seq<Fmt> {
    seq![fixed_date_time(32, true, true, ZoneSuffix::Absent), loose_description(ZoneSuffix::Z)]
}

/// `[hour]:[minute]:[second].[subsecond]`, then the loose time layout.
pub open spec fn time_candidates() -> Seq<Fmt> {
    seq![fixed_time(true, true), loose_time()]
}

/// What follows the RFC 3339 fast path: its value when it gave one, else the
/// loose alternation with an offset.
pub open spec fn odt_after(fast: Option<OffsetDateTime>, s: Seq<u8>) -> Result<OffsetDateTime, ParseError> {
    after_fast_path(fast, as_offset(parse_as(Target::Offset, loose_description(ZoneSuffix::Offset), s)))
}

/// Completes an offset date-time parse from what the RFC 3339 fast path gave.
pub fn odt_from_fast_path(fast: Option<OffsetDateTime>, s: &str) -> (r: Result<OffsetDateTime, ParseError>)
    ensures
        r == odt_after(fast, s.spec_bytes()),
{
    if let Some(v) = fast {
        return Ok(v);
    }
    let d = loose_item(ZoneSuffix::Offset);
    match parse_value(Target::Offset, &d, s.as_bytes()) {
        Ok(Value::Offset(v)) => Ok(v),
        Ok(_) => Err(ParseError::NoAlternativeMatched),
        Err(e) => Err(e),
    }
}

/// Parses a date, time and offset: RFC 3339 first, then the loose layouts.
pub fn odt_attempt(offset_date_time_string: &str) -> (r: Result<OffsetDateTime, ParseError>)
    ensures
        r == odt_after(rfc3339_of(offset_date_time_string@), offset_date_time_string.spec_bytes()),
{
    let fast = parse_rfc3339(offset_date_time_string);
    odt_from_fast_path(fast, offset_date_time_string)
}

/// Parses a date and time with `pdt_candidates`.
pub fn pdt_attempt(primitive_date_time_string: &str) -> (r: Result<PrimitiveDateTime, ParseError>)
    ensures
        r == as_primitive(candidates_parse(Target::Primitive, pdt_candidates(), primitive_date_time_string.spec_bytes())),
{
    let mut ds: Vec<FormatItem> = Vec::new();
    push_item(&mut ds, fixed_date_time_item(32, true, true, ZoneSuffix::Absent));
    push_item(&mut ds, loose_item(ZoneSuffix::Z));
    proof {
        lemma_fmts_of_views(ds@);
        assert(views(ds@) =~= pdt_candidates());
    }
    primitive_from_candidates(&ds, primitive_date_time_string.as_bytes())
}

/// Parses a time of day with `time_candidates`.
pub fn time_attempt(time_string: &str) -> (r: Result<Time, ParseError>)
    ensures
        r == as_time(candidates_parse(Target::Time, time_candidates(), time_string.spec_bytes())),
{
    let mut ds: Vec<FormatItem> = Vec::new();
    push_item(&mut ds, fixed_time_item(true, true));
    push_item(&mut ds, loose_time_item());
    proof {
        lemma_fmts_of_views(ds@);
        assert(views(ds@) =~= time_candidates());
    }
    time_from_candidates(&ds, time_string.as_bytes())
}

} // verus!
