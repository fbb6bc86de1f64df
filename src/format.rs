//! Format descriptions: component descriptors and the tree of format items.
use vstd::prelude::*;

verus! {

/// The field that a component parses.
#[derive(Clone, Copy, Debug, PartialEq, Eq, Structural)]
pub enum ComponentKind {
    Year,
    Month,
    Day,
    Hour,
    Minute,
    Second,
    Subsecond,
    OffsetHour,
    OffsetMinute,
}

/// How a numeric component fills its width.
#[derive(Clone, Copy, Debug, PartialEq, Eq, Structural)]
pub enum Padding {
    /// Between one digit and the full width.
    Unpadded,
    /// The full width, with leading spaces in place of leading zeros.
    Spaces,
    /// Exactly the full width of digits.
    Zeros,
}

/// How many subsecond digits are read.
#[derive(Clone, Copy, Debug, PartialEq, Eq, Structural)]
pub enum DigitPolicy {
    /// Exactly this many digits (1 to 9).
    Fixed(u8),
    /// One digit or more, up to nine.
    OneOrMore,
}

/// A typed specification of one parseable field.
#[derive(Clone, Copy, Debug, PartialEq, Eq, Structural)]
pub struct Component {
    pub kind: ComponentKind,
    pub padding: Padding,
    /// For a year or an offset hour: whether a `+` or `-` must lead.
    pub sign_mandatory: bool,
    /// For a subsecond: how many digits are read.
    pub digits: DigitPolicy,
}

/// A node of a format description.
#[derive(Debug)]
pub enum FormatItem {
    /// These bytes, exactly.
    Literal(Vec<u8>),
    /// One field.
    Component(Component),
    /// The items in order; all must match.
    Compound(Vec<FormatItem>),
    /// The item if it matches, else nothing.
    Optional(Box<FormatItem>),
    /// The first of the items, in order, that matches.
    First(Vec<FormatItem>),
}

/// The mathematical form of a format item.
pub enum Fmt {
    Literal(Seq<u8>),
    Component(Component),
    Compound(Seq<Fmt>),
    Optional(Box<Fmt>),
    First(Seq<Fmt>),
}

pub open spec fn fmt_of(it: FormatItem) -> Fmt
    decreases it,
{
    match it {
        FormatItem::Literal(b) => Fmt::Literal(b@),
        FormatItem::Component(c) => Fmt::Component(c),
        FormatItem::Compound(v) => Fmt::Compound(fmts_of(v@)),
        FormatItem::Optional(b) => Fmt::Optional(Box::new(fmt_of(*b))),
        FormatItem::First(v) => Fmt::First(fmts_of(v@)),
    }
}

pub open spec fn fmts_of(v: Seq<FormatItem>) -> Seq<Fmt>
    decreases v,
{
    if v.len() == 0 {
        Seq::empty()
    } else {
        seq![fmt_of(v[0])] + fmts_of(v.subrange(1, v.len() as int))
    }
}

impl View for FormatItem {
    type V = Fmt;

    open spec fn view(&self) -> Fmt {
        fmt_of(*self)
    }
}

} // verus!
