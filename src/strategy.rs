//! Whole-input parsing with one description, and the candidate strategy that
//! tries several descriptions in order.
use vstd::prelude::*;
use crate::builder::{
    build_offset_date_time, build_primitive, build_time, offset_date_time_of, primitive_of, time_of,
};
use crate::format::{Fmt, FormatItem, fmts_of};
use crate::interp::{empty_fields, item_parse, no_fields, parse_item, Fields};
use crate::value::{OffsetDateTime, ParseError, PrimitiveDateTime, Time};

verus! {

/// The fields that description `d` collects from the whole of `s`.
pub open spec fn description_fields(d: Fmt, s: Seq<u8>) -> Result<Fields, ParseError> {
    match item_parse(d, s, 0, no_fields()) {
        Ok((p, f)) => if p == s.len() {
            Ok(f)
        } else {
            Err(ParseError::TrailingInput)
        },
        Err(e) => Err(e),
    }
}

/// The kind of value a parse produces.
#[derive(Clone, Copy, Debug, PartialEq, Eq, Structural)]
pub enum Target {
    Time,
    Primitive,
    Offset,
}

/// A parsed value of one of the three kinds.
#[derive(Clone, Copy, Debug, PartialEq, Eq, Structural)]
pub enum Value {
    Time(Time),
    Primitive(PrimitiveDateTime),
    Offset(OffsetDateTime),
}

pub open spec fn value_of(t: Target, f: Fields) -> Result<Value, ParseError> {
    match t {
        Target::Time => match time_of(f) {
            Ok(v) => Ok(Value::Time(v)),
            Err(e) => Err(e),
        },
        Target::Primitive => match primitive_of(f) {
            Ok(v) => Ok(Value::Primitive(v)),
            Err(e) => Err(e),
        },
        Target::Offset => match offset_date_time_of(f) {
            Ok(v) => Ok(Value::Offset(v)),
            Err(e) => Err(e),
        },
    }
}

/// Parsing all of `s` with description `d` into a value of kind `t`.
pub open spec fn parse_as(t: Target, d: Fmt, s: Seq<u8>) -> Result<Value, ParseError> {
    match description_fields(d, s) {
        Ok(f) => value_of(t, f),
        Err(e) => Err(e),
    }
}

/// The first candidate description that parses `s` into a value of kind `t`;
/// when none does, the last candidate's error.
pub open spec fn candidates_parse(t: Target, ds: Seq<Fmt>, s: Seq<u8>) -> Result<Value, ParseError>
    decreases ds.len(),
{
    if ds.len() == 0 {
        Err(ParseError::NoAlternativeMatched)
    } else {
        match parse_as(t, ds[0], s) {
            Ok(v) => Ok(v),
            Err(e) => if ds.len() == 1 {
                Err(e)
            } else {
                candidates_parse(t, ds.subrange(1, ds.len() as int), s)
            },
        }
    }
}

pub open spec fn as_time(r: Result<Value, ParseError>) -> Result<Time, ParseError> {
    match r {
        Ok(Value::Time(v)) => Ok(v),
        Ok(_) => Err(ParseError::NoAlternativeMatched),
        Err(e) => Err(e),
    }
}

pub open spec fn as_primitive(r: Result<Value, ParseError>) -> Result<PrimitiveDateTime, ParseError> {
    match r {
        Ok(Value::Primitive(v)) => Ok(v),
        Ok(_) => Err(ParseError::NoAlternativeMatched),
        Err(e) => Err(e),
    }
}

pub open spec fn as_offset(r: Result<Value, ParseError>) -> Result<OffsetDateTime, ParseError> {
    match r {
        Ok(Value::Offset(v)) => Ok(v),
        Ok(_) => Err(ParseError::NoAlternativeMatched),
        Err(e) => Err(e),
    }
}

/// Matches description `d` against all of `s` and returns the fields.
pub fn parse_fields(d: &FormatItem, s: &[u8]) -> (r: Result<Fields, ParseError>)
    ensures
        r == description_fields(d@, s@),
{
    let (p, f) = parse_item(d, s, 0, empty_fields())?;
    if p == s.len() {
        Ok(f)
    } else {
        Err(ParseError::TrailingInput)
    }
}

/// Parses all of `s` with `d` into a value of kind `t`.
pub fn parse_value(t: Target, d: &FormatItem, s: &[u8]) -> (r: Result<Value, ParseError>)
    ensures
        r == parse_as(t, d@, s@),
{
    let f = parse_fields(d, s)?;
    match t {
        Target::Time => match build_time(&f) {
            Ok(v) => Ok(Value::Time(v)),
            Err(e) => Err(e),
        },
        Target::Primitive => match build_primitive(&f) {
            Ok(v) => Ok(Value::Primitive(v)),
            Err(e) => Err(e),
        },
        Target::Offset => match build_offset_date_time(&f) {
            Ok(v) => Ok(Value::Offset(v)),
            Err(e) => Err(e),
        },
    }
}

/// Tries each candidate description in order and returns the first value
/// parsed; when all fail, the last candidate's error.
pub fn parse_candidates(t: Target, ds: &Vec<FormatItem>, s: &[u8]) -> (r: Result<Value, ParseError>)
    ensures
        r == candidates_parse(t, fmts_of(ds@), s@),
{
    proof {
        lemma_fmts_of_len(ds@);
    }
    if ds.len() == 0 {
        return Err(ParseError::NoAlternativeMatched);
    }
    let mut k: usize = 0;
    assert(ds@.subrange(0, ds@.len() as int) =~= ds@);
    while k < ds.len()
        invariant
            k < ds@.len(),
            candidates_parse(t, fmts_of(ds@), s@) == candidates_parse(
                t,
                fmts_of(ds@.subrange(k as int, ds@.len() as int)),
                s@,
            ),
        decreases ds@.len() - k,
    {
        let ghost rest = ds@.subrange(k as int, ds@.len() as int);
        assert(rest.subrange(1, rest.len() as int) =~= ds@.subrange(k + 1, ds@.len() as int));
        assert(fmts_of(rest).subrange(1, fmts_of(rest).len() as int) =~= fmts_of(
            rest.subrange(1, rest.len() as int),
        ));
        proof {
            lemma_fmts_of_len(rest);
        }
        match parse_value(t, &ds[k], s) {
            Ok(v) => {
                return Ok(v);
            },
            Err(e) => {
                if k + 1 == ds.len() {
                    return Err(e);
                }
            },
        }
        k = k + 1;
    }
    Err(ParseError::NoAlternativeMatched)
}

pub proof fn lemma_fmts_of_len(v: Seq<FormatItem>)
    ensures
        fmts_of(v).len() == v.len(),
    decreases v.len(),
{
    if v.len() > 0 {
        lemma_fmts_of_len(v.subrange(1, v.len() as int));
    }
}


/// The fast path's value when it gave one, else the outcome of the rest.
pub open spec fn after_fast_path(
    fast: Option<OffsetDateTime>,
    rest: Result<OffsetDateTime, ParseError>,
) -> Result<OffsetDateTime, ParseError> {
    match fast {
        Some(v) => Ok(v),
        None => rest,
    }
}

pub open spec fn ok_of<T>(r: Result<T, ParseError>) -> Option<T> {
    match r {
        Ok(v) => Some(v),
        Err(_) => None,
    }
}

/// Parses `s` with the candidates `ds` into a time of day.
pub fn time_from_candidates(ds: &Vec<FormatItem>, s: &[u8]) -> (r: Result<Time, ParseError>)
    ensures
        r == as_time(candidates_parse(Target::Time, fmts_of(ds@), s@)),
{
    match parse_candidates(Target::Time, ds, s) {
        Ok(Value::Time(v)) => Ok(v),
        Ok(_) => Err(ParseError::NoAlternativeMatched),
        Err(e) => Err(e),
    }
}

/// Parses `s` with the candidates `ds` into a date and time.
pub fn primitive_from_candidates(ds: &Vec<FormatItem>, s: &[u8]) -> (r: Result<PrimitiveDateTime, ParseError>)
    ensures
        r == as_primitive(candidates_parse(Target::Primitive, fmts_of(ds@), s@)),
{
    match parse_candidates(Target::Primitive, ds, s) {
        Ok(Value::Primitive(v)) => Ok(v),
        Ok(_) => Err(ParseError::NoAlternativeMatched),
        Err(e) => Err(e),
    }
}

/// Parses `s` with the candidates `ds` into a date, time and offset.
pub fn offset_from_candidates(ds: &Vec<FormatItem>, s: &[u8]) -> (r: Result<OffsetDateTime, ParseError>)
    ensures
        r == as_offset(candidates_parse(Target::Offset, fmts_of(ds@), s@)),
{
    match parse_candidates(Target::Offset, ds, s) {
        Ok(Value::Offset(v)) => Ok(v),
        Ok(_) => Err(ParseError::NoAlternativeMatched),
        Err(e) => Err(e),
    }
}

} // verus!
