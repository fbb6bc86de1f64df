//! Parsers that try a fixed list of complete layouts, one after another.
use vstd::prelude::*;
use vstd::string::StringSliceAdditionalSpecFns;
use crate::describe::{
    fixed_date_time, fixed_date_time_item, fixed_time, fixed_time_item, lemma_fmts_of_views,
    push_item, views, ZoneSuffix,
};
use crate::format::{Fmt, FormatItem};
use crate::rfc3339::{parse_rfc3339, rfc3339_of};
use crate::strategy::{
    after_fast_path, as_offset, as_primitive, as_time, candidates_parse, offset_from_candidates,
    ok_of, primitive_from_candidates, time_from_candidates, Target,
};
use crate::value::{OffsetDateTime, PrimitiveDateTime, Time};

verus! {

/// Space-separated layouts with seconds, with seconds and subsecond, with
/// minutes only, then the `T`-separated layout with minutes only; each ends
/// in a signed offset.
pub open spec fn odt_layouts() -> Seq<Fmt> {
    seq![
        fixed_date_time(32, true, false, ZoneSuffix::Offset),
        fixed_date_time(32, true, true, ZoneSuffix::Offset),
        fixed_date_time(32, false, false, ZoneSuffix::Offset),
        fixed_date_time(84, false, false, ZoneSuffix::Offset),
    ]
}

/// For each zone suffix, none then `Z`: for each separator, space then `T`:
/// seconds, seconds and subsecond, minutes only.
pub open spec fn pdt_layouts() -> Seq<Fmt> {
    seq![
        fixed_date_time(32, true, false, ZoneSuffix::Absent),
        fixed_date_time(32, true, true, ZoneSuffix::Absent),
        fixed_date_time(32, false, false, ZoneSuffix::Absent),
        fixed_date_time(84, true, false, ZoneSuffix::Absent),
        fixed_date_time(84, true, true, ZoneSuffix::Absent),
        fixed_date_time(84, false, false, ZoneSuffix::Absent),
        fixed_date_time(32, true, false, ZoneSuffix::Z),
        fixed_date_time(32, true, true, ZoneSuffix::Z),
        fixed_date_time(32, false, false, ZoneSuffix::Z),
        fixed_date_time(84, true, false, ZoneSuffix::Z),
        fixed_date_time(84, true, true, ZoneSuffix::Z),
        fixed_date_time(84, false, false, ZoneSuffix::Z),
    ]
}

/// `[hour]:[minute]:[second]`, then with `.[subsecond]`, then `[hour]:[minute]`.
pub open spec fn time_layouts() -> Seq<Fmt> {
    seq![fixed_time(true, false), fixed_time(true, true), fixed_time(false, false)]
}

/// What follows the RFC 3339 fast path: its value when it gave one, else the
/// first of `odt_layouts` that parses the text.
pub open spec fn odt_after(fast: Option<OffsetDateTime>, s: Seq<u8>) -> Option<OffsetDateTime> {
    ok_of(after_fast_path(fast, as_offset(candidates_parse(Target::Offset, odt_layouts(), s))))
}

/// Completes an offset date-time parse from what the RFC 3339 fast path gave.
pub fn odt_from_fast_path(fast: Option<OffsetDateTime>, s: &str) -> (r: Option<OffsetDateTime>)
    ensures
        r == odt_after(fast, s.spec_bytes()),
{
    if let Some(v) = fast {
        return Some(v);
    }
    let mut ds: Vec<FormatItem> = Vec::new();
    push_item(&mut ds, fixed_date_time_item(32, true, false, ZoneSuffix::Offset));
    push_item(&mut ds, fixed_date_time_item(32, true, true, ZoneSuffix::Offset));
    push_item(&mut ds, fixed_date_time_item(32, false, false, ZoneSuffix::Offset));
    push_item(&mut ds, fixed_date_time_item(84, false, false, ZoneSuffix::Offset));
    proof {
        lemma_fmts_of_views(ds@);
        assert(views(ds@) =~= odt_layouts());
    }
    match offset_from_candidates(&ds, s.as_bytes()) {
        Ok(v) => Some(v),
        Err(_) => None,
    }
}

/// Parses a date, time and offset: RFC 3339 first, then `odt_layouts`.
pub fn odt_attempt(offset_date_time_string: &str) -> (r: Option<OffsetDateTime>)
    ensures
        r == odt_after(rfc3339_of(offset_date_time_string@), offset_date_time_string.spec_bytes()),
{
    let fast = parse_rfc3339(offset_date_time_string);
    odt_from_fast_path(fast, offset_date_time_string)
}

/// Parses a date and time with the first of `pdt_layouts` that fits.
pub fn pdt_attempt(primitive_date_time_string: &str) -> (r: Option<PrimitiveDateTime>)
    ensures
        r == ok_of(as_primitive(candidates_parse(Target::Primitive, pdt_layouts(), primitive_date_time_string.spec_bytes()))),
{
    let mut ds: Vec<FormatItem> = Vec::new();
    push_item(&mut ds, fixed_date_time_item(32, true, false, ZoneSuffix::Absent));
    push_item(&mut ds, fixed_date_time_item(32, true, true, ZoneSuffix::Absent));
    push_item(&mut ds, fixed_date_time_item(32, false, false, ZoneSuffix::Absent));
    push_item(&mut ds, fixed_date_time_item(84, true, false, ZoneSuffix::Absent));
    push_item(&mut ds, fixed_date_time_item(84, true, true, ZoneSuffix::Absent));
    push_item(&mut ds, fixed_date_time_item(84, false, false, ZoneSuffix::Absent));
    push_item(&mut ds, fixed_date_time_item(32, true, false, ZoneSuffix::Z));
    push_item(&mut ds, fixed_date_time_item(32, true, true, ZoneSuffix::Z));
    push_item(&mut ds, fixed_date_time_item(32, false, false, ZoneSuffix::Z));
    push_item(&mut ds, fixed_date_time_item(84, true, false, ZoneSuffix::Z));
    push_item(&mut ds, fixed_date_time_item(84, true, true, ZoneSuffix::Z));
    push_item(&mut ds, fixed_date_time_item(84, false, false, ZoneSuffix::Z));
    proof {
        lemma_fmts_of_views(ds@);
        assert(views(ds@) =~= pdt_layouts());
    }
    match primitive_from_candidates(&ds, primitive_date_time_string.as_bytes()) {
        Ok(v) => Some(v),
        Err(_) => None,
    }
}

/// Parses a time of day with the first of `time_layouts` that fits.
pub fn time_attempt(time_string: &str) -> (r: Option<Time>)
    ensures
        r == ok_of(as_time(candidates_parse(Target::Time, time_layouts(), time_string.spec_bytes()))),
{
    let mut ds: Vec<FormatItem> = Vec::new();
    push_item(&mut ds, fixed_time_item(true, false));
    push_item(&mut ds, fixed_time_item(true, true));
    push_item(&mut ds, fixed_time_item(false, false));
    proof {
        lemma_fmts_of_views(ds@);
        assert(views(ds@) =~= time_layouts());
    }
    match time_from_candidates(&ds, time_string.as_bytes()) {
        Ok(v) => Some(v),
        Err(_) => None,
    }
}

} // verus!
