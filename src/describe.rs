//! Building blocks of format descriptions, and the description families that
//! the parsers use: fixed layouts, layouts with optional groups, and loose
//! layouts whose every tail item is optional.
use vstd::prelude::*;
use crate::format::{Component, ComponentKind, DigitPolicy, Fmt, FormatItem, Padding, fmts_of};

verus! {

/// What follows the time of day.
#[derive(Clone, Copy, Debug, PartialEq, Eq, Structural)]
pub enum ZoneSuffix {
    /// Nothing.
    Absent,
    /// A `Z`, which adds no field.
    Z,
    /// `[offset_hour sign:mandatory]:[offset_minute]`.
    Offset,
}

pub open spec fn views(v: Seq<FormatItem>) -> Seq<Fmt> {
    v.map_values(|x: FormatItem| x@)
}

pub proof fn lemma_fmts_of_views(v: Seq<FormatItem>)
    ensures
        fmts_of(v) == views(v),
    decreases v.len(),
{
    if v.len() > 0 {
        lemma_fmts_of_views(v.subrange(1, v.len() as int));
        assert(fmts_of(v) =~= views(v));
    } else {
        assert(fmts_of(v) =~= views(v));
    }
}

/// The component of kind `k` with zero padding; only the offset hour demands
/// a sign, and a subsecond reads one digit or more.
pub open spec fn std_component(k: ComponentKind) -> Component {
    Component {
        kind: k,
        padding: Padding::Zeros,
        sign_mandatory: k == ComponentKind::OffsetHour,
        digits: DigitPolicy::OneOrMore,
    }
}

pub open spec fn lit(b: u8) -> Fmt {
    Fmt::Literal(seq![b])
}

pub open spec fn comp(k: ComponentKind) -> Fmt {
    Fmt::Component(std_component(k))
}

pub open spec fn opt(f: Fmt) -> Fmt {
    Fmt::Optional(Box::new(f))
}

/// `[year]-[month]-[day]`
pub open spec fn date_part() -> Seq<Fmt> {
    seq![comp(ComponentKind::Year), lit(45), comp(ComponentKind::Month), lit(45), comp(ComponentKind::Day)]
}

/// `[hour]:[minute]`
pub open spec fn hm_part() -> Seq<Fmt> {
    seq![comp(ComponentKind::Hour), lit(58), comp(ComponentKind::Minute)]
}

/// `:[second]`, then `.[subsecond]`, each when asked for.
pub open spec fn seconds_part(seconds: bool, subsecond: bool) -> Seq<Fmt> {
    if seconds {
        seq![lit(58), comp(ComponentKind::Second)] + if subsecond {
            seq![lit(46), comp(ComponentKind::Subsecond)]
        } else {
            Seq::empty()
        }
    } else {
        Seq::empty()
    }
}

/// `[offset_hour sign:mandatory]:[offset_minute]`
pub open spec fn offset_part() -> Seq<Fmt> {
    seq![comp(ComponentKind::OffsetHour), lit(58), comp(ComponentKind::OffsetMinute)]
}

pub open spec fn fixed_zone(z: ZoneSuffix) -> Seq<Fmt> {
    match z {
        ZoneSuffix::Absent => Seq::empty(),
        ZoneSuffix::Z => seq![lit(90)],
        ZoneSuffix::Offset => offset_part(),
    }
}

/// A date, the separator `sep`, the time of day and a zone, all mandatory.
pub open spec fn fixed_date_time(sep: u8, seconds: bool, subsecond: bool, z: ZoneSuffix) -> Fmt {
    Fmt::Compound(date_part() + seq![lit(sep)] + hm_part() + seconds_part(seconds, subsecond) + fixed_zone(z))
}

/// A time of day, all mandatory.
pub open spec fn fixed_time(seconds: bool, subsecond: bool) -> Fmt {
    Fmt::Compound(hm_part() + seconds_part(seconds, subsecond))
}

/// `:[second]` and `.[subsecond]` as optional groups.
pub open spec fn grouped_seconds() -> Seq<Fmt> {
    seq![
        opt(Fmt::Compound(seq![lit(58), comp(ComponentKind::Second)])),
        opt(Fmt::Compound(seq![lit(46), comp(ComponentKind::Subsecond)])),
    ]
}

pub open spec fn grouped_zone(z: ZoneSuffix) -> Seq<Fmt> {
    match z {
        ZoneSuffix::Absent => Seq::empty(),
        ZoneSuffix::Z => seq![opt(lit(90))],
        ZoneSuffix::Offset => seq![opt(Fmt::Compound(offset_part()))],
    }
}

/// A date, `sep`, hour and minute, then optional groups for the seconds, the
/// subsecond and the zone.
pub open spec fn grouped_date_time(sep: u8, z: ZoneSuffix) -> Fmt {
    Fmt::Compound(date_part() + seq![lit(sep)] + hm_part() + grouped_seconds() + grouped_zone(z))
}

/// Hour and minute, then optional groups for the seconds and the subsecond.
pub open spec fn grouped_time() -> Fmt {
    Fmt::Compound(hm_part() + grouped_seconds())
}

/// `:`, `[second]`, `.` and `[subsecond]`, each optional on its own.
pub open spec fn loose_seconds() -> Seq<Fmt> {
    seq![opt(lit(58)), opt(comp(ComponentKind::Second)), opt(lit(46)), opt(comp(ComponentKind::Subsecond))]
}

pub open spec fn loose_zone(z: ZoneSuffix) -> Seq<Fmt> {
    match z {
        ZoneSuffix::Absent => Seq::empty(),
        ZoneSuffix::Z => seq![opt(lit(90))],
        ZoneSuffix::Offset => seq![
            opt(comp(ComponentKind::OffsetHour)),
            opt(lit(58)),
            opt(comp(ComponentKind::OffsetMinute)),
        ],
    }
}

/// The separator: the byte given, or else an optional space then an optional `T`.
pub open spec fn loose_separator(sep: Option<u8>) -> Seq<Fmt> {
    match sep {
        Some(b) => seq![lit(b)],
        None => seq![opt(lit(32)), opt(lit(84))],
    }
}

/// A date, a separator, hour and minute, then every later item optional on
/// its own.
pub open spec fn loose_date_time(sep: Option<u8>, z: ZoneSuffix) -> Fmt {
    Fmt::Compound(date_part() + loose_separator(sep) + hm_part() + loose_seconds() + loose_zone(z))
}

/// Hour and minute, then every later item optional on its own.
pub open spec fn loose_time() -> Fmt {
    Fmt::Compound(hm_part() + loose_seconds())
}

pub fn lit_item(b: u8) -> (r: FormatItem)
    ensures
        r@ == lit(b),
{
    let mut v: Vec<u8> = Vec::new();
    v.push(b);
    assert(v@ =~= seq![b]);
    FormatItem::Literal(v)
}

pub fn comp_item(k: ComponentKind) -> (r: FormatItem)
    ensures
        r@ == comp(k),
{
    let sign_mandatory = match k {
        ComponentKind::OffsetHour => true,
        _ => false,
    };
    FormatItem::Component(
        Component { kind: k, padding: Padding::Zeros, sign_mandatory, digits: DigitPolicy::OneOrMore },
    )
}

pub fn opt_item(x: FormatItem) -> (r: FormatItem)
    ensures
        r@ == opt(x@),
{
    FormatItem::Optional(Box::new(x))
}

pub fn compound_item(v: Vec<FormatItem>) -> (r: FormatItem)
    ensures
        r@ == Fmt::Compound(views(v@)),
{
    proof {
        lemma_fmts_of_views(v@);
    }
    FormatItem::Compound(v)
}

pub fn first_item(v: Vec<FormatItem>) -> (r: FormatItem)
    ensures
        r@ == Fmt::First(views(v@)),
{
    proof {
        lemma_fmts_of_views(v@);
    }
    FormatItem::First(v)
}

pub fn push_item(v: &mut Vec<FormatItem>, x: FormatItem)
    ensures
        views(final(v)@) == views(old(v)@).push(x@),
{
    v.push(x);
    assert(views(final(v)@) =~= views(old(v)@).push(x@));
}

fn push_date(v: &mut Vec<FormatItem>)
    ensures
        views(final(v)@) == views(old(v)@) + date_part(),
{
    push_item(v, comp_item(ComponentKind::Year));
    push_item(v, lit_item(45));
    push_item(v, comp_item(ComponentKind::Month));
    push_item(v, lit_item(45));
    push_item(v, comp_item(ComponentKind::Day));
    assert(views(final(v)@) =~= views(old(v)@) + date_part());
}

fn push_hm(v: &mut Vec<FormatItem>)
    ensures
        views(final(v)@) == views(old(v)@) + hm_part(),
{
    push_item(v, comp_item(ComponentKind::Hour));
    push_item(v, lit_item(58));
    push_item(v, comp_item(ComponentKind::Minute));
    assert(views(final(v)@) =~= views(old(v)@) + hm_part());
}

fn push_seconds(v: &mut Vec<FormatItem>, seconds: bool, subsecond: bool)
    ensures
        views(final(v)@) == views(old(v)@) + seconds_part(seconds, subsecond),
{
    if seconds {
        push_item(v, lit_item(58));
        push_item(v, comp_item(ComponentKind::Second));
        if subsecond {
            push_item(v, lit_item(46));
            push_item(v, comp_item(ComponentKind::Subsecond));
        }
    }
    assert(views(final(v)@) =~= views(old(v)@) + seconds_part(seconds, subsecond));
}

fn push_offset(v: &mut Vec<FormatItem>)
    ensures
        views(final(v)@) == views(old(v)@) + offset_part(),
{
    push_item(v, comp_item(ComponentKind::OffsetHour));
    push_item(v, lit_item(58));
    push_item(v, comp_item(ComponentKind::OffsetMinute));
    assert(views(final(v)@) =~= views(old(v)@) + offset_part());
}

/// Builds `fixed_date_time(sep, seconds, subsecond, z)`.
pub fn fixed_date_time_item(sep: u8, seconds: bool, subsecond: bool, z: ZoneSuffix) -> (r: FormatItem)
    ensures
        r@ == fixed_date_time(sep, seconds, subsecond, z),
{
    let mut v: Vec<FormatItem> = Vec::new();
    push_date(&mut v);
    push_item(&mut v, lit_item(sep));
    push_hm(&mut v);
    push_seconds(&mut v, seconds, subsecond);
    match z {
        ZoneSuffix::Absent => {},
        ZoneSuffix::Z => push_item(&mut v, lit_item(90)),
        ZoneSuffix::Offset => push_offset(&mut v),
    }
    assert(views(v@) =~= date_part() + seq![lit(sep)] + hm_part() + seconds_part(seconds, subsecond)
        + fixed_zone(z));
    compound_item(v)
}

/// Builds `fixed_time(seconds, subsecond)`.
pub fn fixed_time_item(seconds: bool, subsecond: bool) -> (r: FormatItem)
    ensures
        r@ == fixed_time(seconds, subsecond),
{
    let mut v: Vec<FormatItem> = Vec::new();
    push_hm(&mut v);
    push_seconds(&mut v, seconds, subsecond);
    assert(views(v@) =~= hm_part() + seconds_part(seconds, subsecond));
    compound_item(v)
}

fn push_grouped_seconds(v: &mut Vec<FormatItem>)
    ensures
        views(final(v)@) == views(old(v)@) + grouped_seconds(),
{
    let mut s: Vec<FormatItem> = Vec::new();
    push_seconds(&mut s, true, false);
    assert(views(s@) =~= seq![lit(58), comp(ComponentKind::Second)]);
    push_item(v, opt_item(compound_item(s)));
    let mut f: Vec<FormatItem> = Vec::new();
    push_item(&mut f, lit_item(46));
    push_item(&mut f, comp_item(ComponentKind::Subsecond));
    assert(views(f@) =~= seq![lit(46), comp(ComponentKind::Subsecond)]);
    push_item(v, opt_item(compound_item(f)));
    assert(views(final(v)@) =~= views(old(v)@) + grouped_seconds());
}

/// Builds `grouped_date_time(sep, z)`.
pub fn grouped_date_time_item(sep: u8, z: ZoneSuffix) -> (r: FormatItem)
    ensures
        r@ == grouped_date_time(sep, z),
{
    let mut v: Vec<FormatItem> = Vec::new();
    push_date(&mut v);
    push_item(&mut v, lit_item(sep));
    push_hm(&mut v);
    push_grouped_seconds(&mut v);
    match z {
        ZoneSuffix::Absent => {},
        ZoneSuffix::Z => push_item(&mut v, opt_item(lit_item(90))),
        ZoneSuffix::Offset => {
            let mut o: Vec<FormatItem> = Vec::new();
            push_offset(&mut o);
            assert(views(o@) =~= offset_part());
            push_item(&mut v, opt_item(compound_item(o)));
        },
    }
    assert(views(v@) =~= date_part() + seq![lit(sep)] + hm_part() + grouped_seconds() + grouped_zone(z));
    compound_item(v)
}

/// Builds `grouped_time()`.
pub fn grouped_time_item() -> (r: FormatItem)
    ensures
        r@ == grouped_time(),
{
    let mut v: Vec<FormatItem> = Vec::new();
    push_hm(&mut v);
    push_grouped_seconds(&mut v);
    assert(views(v@) =~= hm_part() + grouped_seconds());
    compound_item(v)
}

fn push_loose_seconds(v: &mut Vec<FormatItem>)
    ensures
        views(final(v)@) == views(old(v)@) + loose_seconds(),
{
    push_item(v, opt_item(lit_item(58)));
    push_item(v, opt_item(comp_item(ComponentKind::Second)));
    push_item(v, opt_item(lit_item(46)));
    push_item(v, opt_item(comp_item(ComponentKind::Subsecond)));
    assert(views(final(v)@) =~= views(old(v)@) + loose_seconds());
}

/// Builds `loose_date_time(sep, z)`.
pub fn loose_date_time_item(sep: Option<u8>, z: ZoneSuffix) -> (r: FormatItem)
    ensures
        r@ == loose_date_time(sep, z),
{
    let mut v: Vec<FormatItem> = Vec::new();
    push_date(&mut v);
    match sep {
        Some(b) => push_item(&mut v, lit_item(b)),
        None => {
            push_item(&mut v, opt_item(lit_item(32)));
            push_item(&mut v, opt_item(lit_item(84)));
        },
    }
    push_hm(&mut v);
    push_loose_seconds(&mut v);
    match z {
        ZoneSuffix::Absent => {},
        ZoneSuffix::Z => push_item(&mut v, opt_item(lit_item(90))),
        ZoneSuffix::Offset => {
            push_item(&mut v, opt_item(comp_item(ComponentKind::OffsetHour)));
            push_item(&mut v, opt_item(lit_item(58)));
            push_item(&mut v, opt_item(comp_item(ComponentKind::OffsetMinute)));
        },
    }
    assert(views(v@) =~= date_part() + loose_separator(sep) + hm_part() + loose_seconds() + loose_zone(z));
    compound_item(v)
}

/// Builds `loose_time()`.
pub fn loose_time_item() -> (r: FormatItem)
    ensures
        r@ == loose_time(),
{
    let mut v: Vec<FormatItem> = Vec::new();
    push_hm(&mut v);
    push_loose_seconds(&mut v);
    assert(views(v@) =~= hm_part() + loose_seconds());
    compound_item(v)
}

} // verus!
