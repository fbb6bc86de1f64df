//! Compiling a bracketed description such as `[year]-[month]-[day]` into a
//! format item: bytes outside brackets are literals; inside a pair of
//! brackets stand a component name and `key:value` modifiers, separated by
//! spaces.
use vstd::prelude::*;
use vstd::slice::{slice_subrange, slice_to_vec};
use crate::describe::{push_item, views};
use crate::format::{Component, ComponentKind, DigitPolicy, Fmt, FormatItem, Padding};

verus! {

/// Why a description text does not compile.
#[derive(Clone, Copy, Debug, PartialEq, Eq, Structural)]
pub enum DescriptionError {
    /// The text inside brackets does not start with a known component name.
    UnknownComponentName,
    /// A modifier is not one of the known `key:value` pairs.
    UnknownModifier,
    /// A `[` has no `]` after it.
    UnclosedBracket,
}

/// The first index at or after `i` where `s` holds `b`, or `s.len()`.
pub open spec fn find_from(s: Seq<u8>, i: int, b: u8) -> int
    decreases s.len() - i,
{
    if i < 0 || i >= s.len() {
        s.len() as int
    } else if s[i] == b {
        i
    } else {
        find_from(s, i + 1, b)
    }
}

/// `year`
pub open spec fn word_year() -> Seq<u8> { seq![121u8, 101, 97, 114] }
/// `month`
pub open spec fn word_month() -> Seq<u8> { seq![109u8, 111, 110, 116, 104] }
/// `day`
pub open spec fn word_day() -> Seq<u8> { seq![100u8, 97, 121] }
/// `hour`
pub open spec fn word_hour() -> Seq<u8> { seq![104u8, 111, 117, 114] }
/// `minute`
pub open spec fn word_minute() -> Seq<u8> { seq![109u8, 105, 110, 117, 116, 101] }
/// `second`
pub open spec fn word_second() -> Seq<u8> { seq![115u8, 101, 99, 111, 110, 100] }
/// `subsecond`
pub open spec fn word_subsecond() -> Seq<u8> { seq![115u8, 117, 98, 115, 101, 99, 111, 110, 100] }
/// `offset_hour`
pub open spec fn word_offset_hour() -> Seq<u8> { seq![111u8, 102, 102, 115, 101, 116, 95, 104, 111, 117, 114] }
/// `offset_minute`
pub open spec fn word_offset_minute() -> Seq<u8> { seq![111u8, 102, 102, 115, 101, 116, 95, 109, 105, 110, 117, 116, 101] }
/// `padding`
pub open spec fn word_padding() -> Seq<u8> { seq![112u8, 97, 100, 100, 105, 110, 103] }
/// `sign`
pub open spec fn word_sign() -> Seq<u8> { seq![115u8, 105, 103, 110] }
/// `digits`
pub open spec fn word_digits() -> Seq<u8> { seq![100u8, 105, 103, 105, 116, 115] }
/// `zero`
pub open spec fn word_zero() -> Seq<u8> { seq![122u8, 101, 114, 111] }
/// `space`
pub open spec fn word_space() -> Seq<u8> { seq![115u8, 112, 97, 99, 101] }
/// `none`
pub open spec fn word_none() -> Seq<u8> { seq![110u8, 111, 110, 101] }
/// `mandatory`
pub open spec fn word_mandatory() -> Seq<u8> { seq![109u8, 97, 110, 100, 97, 116, 111, 114, 121] }
/// `automatic`
pub open spec fn word_automatic() -> Seq<u8> { seq![97u8, 117, 116, 111, 109, 97, 116, 105, 99] }
/// `1+`
pub open spec fn word_one_or_more() -> Seq<u8> { seq![49u8, 43] }

/// The component kind that `w` names.
pub open spec fn kind_named(w: Seq<u8>) -> Option<ComponentKind> {
    if w == word_year() {
        Some(ComponentKind::Year)
    } else if w == word_month() {
        Some(ComponentKind::Month)
    } else if w == word_day() {
        Some(ComponentKind::Day)
    } else if w == word_hour() {
        Some(ComponentKind::Hour)
    } else if w == word_minute() {
        Some(ComponentKind::Minute)
    } else if w == word_second() {
        Some(ComponentKind::Second)
    } else if w == word_subsecond() {
        Some(ComponentKind::Subsecond)
    } else if w == word_offset_hour() {
        Some(ComponentKind::OffsetHour)
    } else if w == word_offset_minute() {
        Some(ComponentKind::OffsetMinute)
    } else {
        None
    }
}

/// A component of kind `k` before any modifier: zero padding, no mandatory
/// sign, one subsecond digit or more.
pub open spec fn default_component(k: ComponentKind) -> Component {
    Component { kind: k, padding: Padding::Zeros, sign_mandatory: false, digits: DigitPolicy::OneOrMore }
}

/// `c` changed by the modifier `w`: `padding:zero|space|none`,
/// `sign:mandatory|automatic`, `digits:1+` or `digits:` and one digit from 1
/// to 9.
pub open spec fn apply_modifier(c: Component, w: Seq<u8>) -> Result<Component, DescriptionError> {
    let colon = find_from(w, 0, 58);
    let key = w.subrange(0, colon);
    let value = if colon < w.len() { w.subrange(colon + 1, w.len() as int) } else { Seq::empty() };
    if colon >= w.len() {
        Err(DescriptionError::UnknownModifier)
    } else if key == word_padding() && value == word_zero() {
        Ok(Component { padding: Padding::Zeros, ..c })
    } else if key == word_padding() && value == word_space() {
        Ok(Component { padding: Padding::Spaces, ..c })
    } else if key == word_padding() && value == word_none() {
        Ok(Component { padding: Padding::Unpadded, ..c })
    } else if key == word_sign() && value == word_mandatory() {
        Ok(Component { sign_mandatory: true, ..c })
    } else if key == word_sign() && value == word_automatic() {
        Ok(Component { sign_mandatory: false, ..c })
    } else if key == word_digits() && value == word_one_or_more() {
        Ok(Component { digits: DigitPolicy::OneOrMore, ..c })
    } else if key == word_digits() && value.len() == 1 && 49 <= value[0] <= 57 {
        Ok(Component { digits: DigitPolicy::Fixed((value[0] - 48) as u8), ..c })
    } else {
        Err(DescriptionError::UnknownModifier)
    }
}

/// The modifiers of `body` from index `i` on, applied in order to `c`; runs
/// of spaces separate them.
pub open spec fn apply_modifiers(c: Component, body: Seq<u8>, i: int) -> Result<Component, DescriptionError>
    decreases body.len() + 1 - i,
    via apply_modifiers_decreases
{
    if i < 0 || i >= body.len() {
        Ok(c)
    } else {
        let j = find_from(body, i, 32);
        let w = body.subrange(i, j);
        let step = if w.len() == 0 { Ok(c) } else { apply_modifier(c, w) };
        match step {
            Ok(c2) => apply_modifiers(c2, body, j + 1),
            Err(e) => Err(e),
        }
    }
}

/// The component that the text between a pair of brackets describes.
pub open spec fn component_of(body: Seq<u8>) -> Result<Component, DescriptionError> {
    let j = find_from(body, 0, 32);
    match kind_named(body.subrange(0, j)) {
        None => Err(DescriptionError::UnknownComponentName),
        Some(k) => apply_modifiers(default_component(k), body, j + 1),
    }
}

/// The items that the text from index `i` on describes.
pub open spec fn items_from(s: Seq<u8>, i: int) -> Result<Seq<Fmt>, DescriptionError>
    decreases s.len() - i,
    via items_from_decreases
{
    if i < 0 || i >= s.len() {
        Ok(Seq::empty())
    } else if s[i] == 91 {
        let close = find_from(s, i + 1, 93);
        if close >= s.len() {
            Err(DescriptionError::UnclosedBracket)
        } else {
            match component_of(s.subrange(i + 1, close)) {
                Err(e) => Err(e),
                Ok(c) => match items_from(s, close + 1) {
                    Ok(rest) => Ok(seq![Fmt::Component(c)] + rest),
                    Err(e) => Err(e),
                },
            }
        }
    } else {
        let j = find_from(s, i, 91);
        match items_from(s, j) {
            Ok(rest) => Ok(seq![Fmt::Literal(s.subrange(i, j))] + rest),
            Err(e) => Err(e),
        }
    }
}

#[via_fn]
proof fn apply_modifiers_decreases(c: Component, body: Seq<u8>, i: int) {
    if 0 <= i < body.len() {
        lemma_find_from_bounds(body, i, 32);
    }
}

#[via_fn]
proof fn items_from_decreases(s: Seq<u8>, i: int) {
    if 0 <= i < s.len() {
        lemma_find_from_bounds(s, i + 1, 93);
        if s[i] != 91 {
            lemma_find_from_bounds(s, i + 1, 91);
        }
    }
}

/// The description that text `s` compiles to: the compound of its items.
pub open spec fn description_of(s: Seq<u8>) -> Result<Fmt, DescriptionError> {
    match items_from(s, 0) {
        Ok(items) => Ok(Fmt::Compound(items)),
        Err(e) => Err(e),
    }
}

proof fn lemma_find_from_bounds(s: Seq<u8>, i: int, b: u8)
    requires
        0 <= i,
    ensures
        i <= find_from(s, i, b) || (i > s.len() && find_from(s, i, b) == s.len()),
        find_from(s, i, b) <= s.len(),
        find_from(s, i, b) < s.len() ==> s[find_from(s, i, b)] == b,
    decreases s.len() - i,
{
    if i < s.len() && s[i] != b {
        lemma_find_from_bounds(s, i + 1, b);
    }
}

fn find_byte(s: &[u8], i: usize, b: u8) -> (r: usize)
    requires
        i <= s@.len(),
    ensures
        r as int == find_from(s@, i as int, b),
        i <= r <= s@.len(),
        r < s@.len() ==> s@[r as int] == b,
{
    let mut k: usize = i;
    while k < s.len() && s[k] != b
        invariant
            i <= k <= s@.len(),
            find_from(s@, i as int, b) == find_from(s@, k as int, b),
        decreases s@.len() - k,
    {
        k = k + 1;
    }
    k
}

fn same_bytes(a: &[u8], b: &[u8]) -> (r: bool)
    ensures
        r == (a@ == b@),
{
    if a.len() != b.len() {
        return false;
    }
    let mut i: usize = 0;
    while i < a.len()
        invariant
            a@.len() == b@.len(),
            i <= a@.len(),
            forall|j: int| 0 <= j < i ==> a@[j] == b@[j],
        decreases a@.len() - i,
    {
        if a[i] != b[i] {
            return false;
        }
        i = i + 1;
    }
    assert(a@ =~= b@);
    true
}

fn kind_named_exec(w: &[u8]) -> (r: Option<ComponentKind>)
    ensures
        r == kind_named(w@),
{
    let year = [121u8, 101, 97, 114];
    let month = [109u8, 111, 110, 116, 104];
    let day = [100u8, 97, 121];
    let hour = [104u8, 111, 117, 114];
    let minute = [109u8, 105, 110, 117, 116, 101];
    let second = [115u8, 101, 99, 111, 110, 100];
    let subsecond = [115u8, 117, 98, 115, 101, 99, 111, 110, 100];
    let offset_hour = [111u8, 102, 102, 115, 101, 116, 95, 104, 111, 117, 114];
    let offset_minute = [111u8, 102, 102, 115, 101, 116, 95, 109, 105, 110, 117, 116, 101];
    assert(year@ =~= word_year());
    assert(month@ =~= word_month());
    assert(day@ =~= word_day());
    assert(hour@ =~= word_hour());
    assert(minute@ =~= word_minute());
    assert(second@ =~= word_second());
    assert(subsecond@ =~= word_subsecond());
    assert(offset_hour@ =~= word_offset_hour());
    assert(offset_minute@ =~= word_offset_minute());
    if same_bytes(w, &year) {
        Some(ComponentKind::Year)
    } else if same_bytes(w, &month) {
        Some(ComponentKind::Month)
    } else if same_bytes(w, &day) {
        Some(ComponentKind::Day)
    } else if same_bytes(w, &hour) {
        Some(ComponentKind::Hour)
    } else if same_bytes(w, &minute) {
        Some(ComponentKind::Minute)
    } else if same_bytes(w, &second) {
        Some(ComponentKind::Second)
    } else if same_bytes(w, &subsecond) {
        Some(ComponentKind::Subsecond)
    } else if same_bytes(w, &offset_hour) {
        Some(ComponentKind::OffsetHour)
    } else if same_bytes(w, &offset_minute) {
        Some(ComponentKind::OffsetMinute)
    } else {
        None
    }
}

fn apply_modifier_exec(c: Component, w: &[u8]) -> (r: Result<Component, DescriptionError>)
    ensures
        r == apply_modifier(c, w@),
{
    let colon = find_byte(w, 0, 58);
    if colon >= w.len() {
        return Err(DescriptionError::UnknownModifier);
    }
    let key = slice_subrange(w, 0, colon);
    let value = slice_subrange(w, colon + 1, w.len());
    let padding = [112u8, 97, 100, 100, 105, 110, 103];
    let sign = [115u8, 105, 103, 110];
    let digits = [100u8, 105, 103, 105, 116, 115];
    let zero = [122u8, 101, 114, 111];
    let space = [115u8, 112, 97, 99, 101];
    let none = [110u8, 111, 110, 101];
    let mandatory = [109u8, 97, 110, 100, 97, 116, 111, 114, 121];
    let automatic = [97u8, 117, 116, 111, 109, 97, 116, 105, 99];
    let one_or_more = [49u8, 43];
    assert(padding@ =~= word_padding());
    assert(sign@ =~= word_sign());
    assert(digits@ =~= word_digits());
    assert(zero@ =~= word_zero());
    assert(space@ =~= word_space());
    assert(none@ =~= word_none());
    assert(mandatory@ =~= word_mandatory());
    assert(automatic@ =~= word_automatic());
    assert(one_or_more@ =~= word_one_or_more());
    let is_padding = same_bytes(key, &padding);
    let is_sign = same_bytes(key, &sign);
    let is_digits = same_bytes(key, &digits);
    if is_padding && same_bytes(value, &zero) {
        Ok(Component { padding: Padding::Zeros, ..c })
    } else if is_padding && same_bytes(value, &space) {
        Ok(Component { padding: Padding::Spaces, ..c })
    } else if is_padding && same_bytes(value, &none) {
        Ok(Component { padding: Padding::Unpadded, ..c })
    } else if is_sign && same_bytes(value, &mandatory) {
        Ok(Component { sign_mandatory: true, ..c })
    } else if is_sign && same_bytes(value, &automatic) {
        Ok(Component { sign_mandatory: false, ..c })
    } else if is_digits && same_bytes(value, &one_or_more) {
        Ok(Component { digits: DigitPolicy::OneOrMore, ..c })
    } else if is_digits && value.len() == 1 && 49 <= value[0] && value[0] <= 57 {
        Ok(Component { digits: DigitPolicy::Fixed(value[0] - 48), ..c })
    } else {
        Err(DescriptionError::UnknownModifier)
    }
}

fn component_of_exec(body: &[u8]) -> (r: Result<Component, DescriptionError>)
    ensures
        r == component_of(body@),
{
    let j = find_byte(body, 0, 32);
    let name = slice_subrange(body, 0, j);
    let k = match kind_named_exec(name) {
        Some(k) => k,
        None => {
            return Err(DescriptionError::UnknownComponentName);
        },
    };
    let mut c = Component {
        kind: k,
        padding: Padding::Zeros,
        sign_mandatory: false,
        digits: DigitPolicy::OneOrMore,
    };
    if j >= body.len() {
        return Ok(c);
    }
    let mut i: usize = j + 1;
    while i < body.len()
        invariant
            i <= body@.len(),
            component_of(body@) == apply_modifiers(c, body@, i as int),
        decreases body@.len() - i,
    {
        let e = find_byte(body, i, 32);
        if e > i {
            let w = slice_subrange(body, i, e);
            match apply_modifier_exec(c, w) {
                Ok(c2) => {
                    c = c2;
                },
                Err(err) => {
                    return Err(err);
                },
            }
        }
        if e >= body.len() {
            assert(apply_modifiers(c, body@, e + 1) == Ok::<Component, DescriptionError>(c));
            return Ok(c);
        }
        i = e + 1;
    }
    Ok(c)
}

/// Compiles a bracketed description text into a format item.
pub fn compile_description(s: &[u8]) -> (r: Result<FormatItem, DescriptionError>)
    ensures
        match r {
            Ok(d) => description_of(s@) == Ok::<Fmt, DescriptionError>(d@),
            Err(e) => description_of(s@) == Err::<Fmt, DescriptionError>(e),
        },
{
    let mut items: Vec<FormatItem> = Vec::new();
    let mut i: usize = 0;
    while i < s.len()
        invariant
            i <= s@.len(),
            items_from(s@, 0) == (match items_from(s@, i as int) {
                Ok(rest) => Ok(views(items@) + rest),
                Err(e) => Err(e),
            }),
        decreases s@.len() - i,
    {
        if s[i] == 91 {
            let close = find_byte(s, i + 1, 93);
            if close >= s.len() {
                return Err(DescriptionError::UnclosedBracket);
            }
            let body = slice_subrange(s, i + 1, close);
            match component_of_exec(body) {
                Ok(c) => {
                    let ghost before = views(items@);
                    push_item(&mut items, FormatItem::Component(c));
                    assert(views(items@) == before.push(Fmt::Component(c)));
                    proof {
                        assert forall|rest: Seq<Fmt>| #![auto] before + (seq![Fmt::Component(c)] + rest) == before.push(Fmt::Component(c)) + rest by {
                            assert(before + (seq![Fmt::Component(c)] + rest) =~= before.push(Fmt::Component(c)) + rest);
                        }
                    }
                },
                Err(e) => {
                    return Err(e);
                },
            }
            i = close + 1;
        } else {
            let j = find_byte(s, i, 91);
            let lit = slice_to_vec(slice_subrange(s, i, j));
            let ghost before = views(items@);
            let ghost l = Fmt::Literal(s@.subrange(i as int, j as int));
            push_item(&mut items, FormatItem::Literal(lit));
            assert(views(items@) == before.push(l));
            proof {
                assert forall|rest: Seq<Fmt>| #![auto] before + (seq![l] + rest) == before.push(l) + rest by {
                    assert(before + (seq![l] + rest) =~= before.push(l) + rest);
                }
            }
            i = j;
        }
    }
    assert(views(items@) + Seq::<Fmt>::empty() =~= views(items@));
    proof {
        crate::describe::lemma_fmts_of_views(items@);
    }
    Ok(FormatItem::Compound(items))
}

} // verus!
