//! The interpreter: walks a format item over the input and collects fields.
use vstd::prelude::*;
use crate::component::{parse_component, read_component};
use crate::format::{Component, ComponentKind, Fmt, FormatItem, fmt_of, fmts_of};
use crate::value::ParseError;

verus! {

/// The fields that one parse attempt has collected so far.
#[derive(Clone, Copy, Debug, PartialEq, Eq)]
pub struct Fields {
    pub year: Option<i32>,
    pub month: Option<u8>,
    pub day: Option<u8>,
    pub hour: Option<u8>,
    pub minute: Option<u8>,
    pub second: Option<u8>,
    /// The subsecond, in nanoseconds.
    pub nanosecond: Option<u32>,
    /// The magnitude of the offset's hours.
    pub offset_hour: Option<u8>,
    /// The magnitude of the offset's minutes.
    pub offset_minute: Option<u8>,
    /// Whether the offset's sign was a minus.
    pub offset_negative: bool,
}

pub open spec fn no_fields() -> Fields {
    Fields {
        year: None,
        month: None,
        day: None,
        hour: None,
        minute: None,
        second: None,
        nanosecond: None,
        offset_hour: None,
        offset_minute: None,
        offset_negative: false,
    }
}

/// Fields with nothing set.
pub fn empty_fields() -> (f: Fields)
    ensures
        f == no_fields(),
{
    Fields {
        year: None,
        month: None,
        day: None,
        hour: None,
        minute: None,
        second: None,
        nanosecond: None,
        offset_hour: None,
        offset_minute: None,
        offset_negative: false,
    }
}

/// `f` with the field of kind `k` set from a parsed magnitude and sign.
pub open spec fn with_field(f: Fields, k: ComponentKind, v: int, neg: bool) -> Fields {
    match k {
        ComponentKind::Year => Fields { year: Some((if neg { -v } else { v }) as i32), ..f },
        ComponentKind::Month => Fields { month: Some(v as u8), ..f },
        ComponentKind::Day => Fields { day: Some(v as u8), ..f },
        ComponentKind::Hour => Fields { hour: Some(v as u8), ..f },
        ComponentKind::Minute => Fields { minute: Some(v as u8), ..f },
        ComponentKind::Second => Fields { second: Some(v as u8), ..f },
        ComponentKind::Subsecond => Fields { nanosecond: Some(v as u32), ..f },
        ComponentKind::OffsetHour => Fields { offset_hour: Some(v as u8), offset_negative: neg, ..f },
        ComponentKind::OffsetMinute => Fields { offset_minute: Some(v as u8), ..f },
    }
}

/// Whether the input holds `lit` at `pos`.
pub open spec fn literal_at(s: Seq<u8>, pos: int, lit: Seq<u8>) -> bool {
    0 <= pos && pos + lit.len() <= s.len() && s.subrange(pos, pos + lit.len()) == lit
}

/// Matching item `it` at `pos` with fields `f`: the end position and the
/// fields after it, or the error.
pub open spec fn item_parse(it: Fmt, s: Seq<u8>, pos: int, f: Fields) -> Result<(int, Fields), ParseError>
    decreases it,
{
    match it {
        Fmt::Literal(lit) => if literal_at(s, pos, lit) {
            Ok((pos + lit.len(), f))
        } else {
            Err(ParseError::LiteralMismatch)
        },
        Fmt::Component(c) => match parse_component(c, s, pos) {
            Ok((p, v, neg)) => Ok((p, with_field(f, c.kind, v, neg))),
            Err(e) => Err(e),
        },
        Fmt::Compound(items) => seq_parse(items, s, pos, f),
        Fmt::Optional(inner) => match item_parse(*inner, s, pos, f) {
            Ok(r) => Ok(r),
            Err(_) => Ok((pos, f)),
        },
        Fmt::First(items) => first_parse(items, s, pos, f),
    }
}

/// The items in order, each from where the one before ended.
pub open spec fn seq_parse(items: Seq<Fmt>, s: Seq<u8>, pos: int, f: Fields) -> Result<(int, Fields), ParseError>
    decreases items,
{
    if items.len() == 0 {
        Ok((pos, f))
    } else {
        match item_parse(items[0], s, pos, f) {
            Ok((p, g)) => seq_parse(items.subrange(1, items.len() as int), s, p, g),
            Err(e) => Err(e),
        }
    }
}

/// The first item that matches from `pos`; when none does, the last item's
/// error.
pub open spec fn first_parse(items: Seq<Fmt>, s: Seq<u8>, pos: int, f: Fields) -> Result<(int, Fields), ParseError>
    decreases items,
{
    if items.len() == 0 {
        Err(ParseError::NoAlternativeMatched)
    } else {
        match item_parse(items[0], s, pos, f) {
            Ok(r) => Ok(r),
            Err(e) => if items.len() == 1 {
                Err(e)
            } else {
                first_parse(items.subrange(1, items.len() as int), s, pos, f)
            },
        }
    }
}

/// The exec outcome of matching, in the terms of `item_parse`.
pub open spec fn outcome(r: Result<(usize, Fields), ParseError>) -> Result<(int, Fields), ParseError> {
    match r {
        Ok((p, g)) => Ok((p as int, g)),
        Err(e) => Err(e),
    }
}

fn set_field(f: Fields, c: Component, v: u32, neg: bool) -> (g: Fields)
    requires
        v <= 999_999_999,
        c.kind != ComponentKind::Subsecond ==> v <= 9999,
    ensures
        g == with_field(f, c.kind, v as int, neg),
{
    match c.kind {
        ComponentKind::Year => {
            let y: i32 = if neg { -(v as i32) } else { v as i32 };
            Fields { year: Some(y), ..f }
        },
        ComponentKind::Month => Fields { month: Some(v as u8), ..f },
        ComponentKind::Day => Fields { day: Some(v as u8), ..f },
        ComponentKind::Hour => Fields { hour: Some(v as u8), ..f },
        ComponentKind::Minute => Fields { minute: Some(v as u8), ..f },
        ComponentKind::Second => Fields { second: Some(v as u8), ..f },
        ComponentKind::Subsecond => Fields { nanosecond: Some(v), ..f },
        ComponentKind::OffsetHour => Fields { offset_hour: Some(v as u8), offset_negative: neg, ..f },
        ComponentKind::OffsetMinute => Fields { offset_minute: Some(v as u8), ..f },
    }
}

fn match_literal(lit: &Vec<u8>, s: &[u8], pos: usize) -> (r: bool)
    requires
        pos <= s@.len(),
    ensures
        r == literal_at(s@, pos as int, lit@),
        r ==> pos + lit@.len() <= s.len(),
{
    if lit.len() > s.len() - pos {
        return false;
    }
    let mut i: usize = 0;
    while i < lit.len()
        invariant
            pos + lit@.len() <= s@.len(),
            i <= lit@.len(),
            s@.len() <= usize::MAX,
            forall|j: int| 0 <= j < i ==> s@[pos + j] == lit@[j],
        decreases lit@.len() - i,
    {
        assert(pos + i < s@.len());
        if s[pos + i] != lit[i] {
            assert(s@.subrange(pos as int, pos + lit@.len())[i as int] != lit@[i as int]);
            return false;
        }
        i = i + 1;
    }
    assert(s@.subrange(pos as int, pos + lit@.len()) =~= lit@);
    true
}

/// Matches item `it` at `pos`, starting from fields `f`.
pub fn parse_item(it: &FormatItem, s: &[u8], pos: usize, f: Fields) -> (r: Result<(usize, Fields), ParseError>)
    requires
        pos <= s@.len(),
    ensures
        outcome(r) == item_parse(it@, s@, pos as int, f),
        r is Ok ==> pos <= r->Ok_0.0 <= s@.len(),
    decreases it,
{
    match it {
        FormatItem::Literal(lit) => {
            if match_literal(lit, s, pos) {
                Ok((pos + lit.len(), f))
            } else {
                Err(ParseError::LiteralMismatch)
            }
        },
        FormatItem::Component(c) => {
            match read_component(*c, s, pos) {
                Ok((p, v, neg)) => Ok((p, set_field(f, *c, v, neg))),
                Err(e) => Err(e),
            }
        },
        FormatItem::Compound(items) => {
            let mut k: usize = 0;
            let mut p: usize = pos;
            let mut g: Fields = f;
            assert(items@.subrange(0, items@.len() as int) =~= items@);
            while k < items.len()
                invariant
                    k <= items@.len(),
                    pos <= p <= s@.len(),
                    it@ == Fmt::Compound(fmts_of(items@)),
                    *it is Compound && it->Compound_0 == *items,
                    item_parse(it@, s@, pos as int, f) == seq_parse(
                        fmts_of(items@.subrange(k as int, items@.len() as int)),
                        s@,
                        p as int,
                        g,
                    ),
                decreases items@.len() - k,
            {
                let ghost rest = items@.subrange(k as int, items@.len() as int);
                assert(rest.subrange(1, rest.len() as int) =~= items@.subrange(k + 1, items@.len() as int));
                assert(fmts_of(rest)[0] == fmt_of(items@[k as int]));
                assert(fmts_of(rest).subrange(1, fmts_of(rest).len() as int) =~= fmts_of(rest.subrange(1, rest.len() as int)));
                proof {
                    assert(decreases_to!(items => items[k as int]));
                    assert(decreases_to!(*it => it->Compound_0));
                    assert(decreases_to!(*it => items[k as int]));
                }
                match parse_item(&items[k], s, p, g) {
                    Ok((q, h)) => {
                        p = q;
                        g = h;
                    },
                    Err(e) => {
                        return Err(e);
                    },
                }
                k = k + 1;
            }
            Ok((p, g))
        },
        FormatItem::Optional(inner) => {
            match parse_item(inner, s, pos, f) {
                Ok(r) => Ok(r),
                Err(_) => Ok((pos, f)),
            }
        },
        FormatItem::First(items) => {
            assert(it@ == Fmt::First(fmts_of(items@)));
            if items.len() == 0 {
                assert(fmts_of(items@) =~= Seq::<Fmt>::empty());
                assert(item_parse(it@, s@, pos as int, f) == first_parse(fmts_of(items@), s@, pos as int, f));
                return Err(ParseError::NoAlternativeMatched);
            }
            let mut k: usize = 0;
            assert(items@.subrange(0, items@.len() as int) =~= items@);
            while k < items.len()
                invariant
                    k < items@.len(),
                    pos <= s@.len(),
                    it@ == Fmt::First(fmts_of(items@)),
                    *it is First && it->First_0 == *items,
                    item_parse(it@, s@, pos as int, f) == first_parse(
                        fmts_of(items@.subrange(k as int, items@.len() as int)),
                        s@,
                        pos as int,
                        f,
                    ),
                decreases items@.len() - k,
            {
                let ghost rest = items@.subrange(k as int, items@.len() as int);
                assert(rest.subrange(1, rest.len() as int) =~= items@.subrange(k + 1, items@.len() as int));
                assert(fmts_of(rest)[0] == fmt_of(items@[k as int]));
                assert(fmts_of(rest).subrange(1, fmts_of(rest).len() as int) =~= fmts_of(rest.subrange(1, rest.len() as int)));
                proof {
                    assert(decreases_to!(items => items[k as int]));
                    assert(decreases_to!(*it => it->First_0));
                    assert(decreases_to!(*it => items[k as int]));
                }
                match parse_item(&items[k], s, pos, f) {
                    Ok(r) => {
                        return Ok(r);
                    },
                    Err(e) => {
                        if k + 1 == items.len() {
                            return Err(e);
                        }
                    },
                }
                k = k + 1;
            }
            Err(ParseError::NoAlternativeMatched)
        },
    }
}

} // verus!
