//! Properties of the interpreter and of the candidate strategy.
use vstd::prelude::*;
use crate::component::{digit_run, digits_value, is_digit, kind_max, kind_min, parse_component, pow10};
use crate::describe::{comp, fixed_time, hm_part, lit, opt, seconds_part, std_component};
use crate::format::{Component, ComponentKind, DigitPolicy, Fmt};
use crate::interp::{first_parse, item_parse, literal_at, no_fields, seq_parse, with_field, Fields};
use crate::first::time_layouts;
use crate::strategy::{as_time, candidates_parse, description_fields, parse_as, Target, Value};
use crate::value::{is_calendar_date, ParseError, Time};

verus! {

/// The ASCII digit for `n` in `0..=9`.
pub open spec fn digit_byte(n: int) -> u8 {
    (48 + n) as u8
}

/// `n` written with exactly two digits.
pub open spec fn two_digits(n: int) -> Seq<u8> {
    seq![digit_byte(n / 10), digit_byte(n % 10)]
}

/// The text `HH:MM:SS`.
pub open spec fn hms_text(h: int, m: int, sec: int) -> Seq<u8> {
    two_digits(h) + seq![58u8] + two_digits(m) + seq![58u8] + two_digits(sec)
}

/// A zero-padded two-digit component reads the two digits at `pos` as its
/// value when that value is in the component's range.
pub proof fn lemma_two_digit_component(k: ComponentKind, s: Seq<u8>, pos: int)
    requires
        k != ComponentKind::Year && k != ComponentKind::Subsecond && k != ComponentKind::OffsetHour,
        0 <= pos && pos + 2 <= s.len(),
        is_digit(s[pos]),
        is_digit(s[pos + 1]),
        kind_min(k) <= (s[pos] - 48) * 10 + (s[pos + 1] - 48) <= kind_max(k),
    ensures
        parse_component(std_component(k), s, pos) == Ok::<(int, int, bool), ParseError>(
            (pos + 2, (s[pos] - 48) * 10 + (s[pos + 1] - 48), false),
        ),
{
    reveal_with_fuel(digit_run, 3);
    reveal_with_fuel(digits_value, 3);
    assert(digit_run(s, pos, 2) == 2);
    assert(digits_value(s, pos, 2) == (s[pos] - 48) * 10 + (s[pos + 1] - 48));
}

/// Every zero-padded `HH:MM:SS` with an hour below 24 and minutes and seconds
/// below 60 parses with `[hour]:[minute]:[second]` to the time whose fields
/// are those numbers; so does `first::time_attempt`, whose first layout that is.
pub proof fn law_hms_parses_to_its_fields(h: int, m: int, sec: int)
    requires
        0 <= h <= 23,
        0 <= m <= 59,
        0 <= sec <= 59,
    ensures
        parse_as(Target::Time, fixed_time(true, false), hms_text(h, m, sec)) == Ok::<Value, ParseError>(
            Value::Time(Time { hour: h as u8, minute: m as u8, second: sec as u8, nanosecond: 0 }),
        ),
        as_time(candidates_parse(Target::Time, time_layouts(), hms_text(h, m, sec))) == Ok::<Time, ParseError>(
            Time { hour: h as u8, minute: m as u8, second: sec as u8, nanosecond: 0 },
        ),
{
    let s = hms_text(h, m, sec);
    assert(s.len() == 8);
    assert(s[0] == digit_byte(h / 10) && s[1] == digit_byte(h % 10));
    assert(s[2] == 58u8);
    assert(s[3] == digit_byte(m / 10) && s[4] == digit_byte(m % 10));
    assert(s[5] == 58u8);
    assert(s[6] == digit_byte(sec / 10) && s[7] == digit_byte(sec % 10));
    lemma_two_digit_component(ComponentKind::Hour, s, 0);
    lemma_two_digit_component(ComponentKind::Minute, s, 3);
    lemma_two_digit_component(ComponentKind::Second, s, 6);
    assert(s.subrange(2, 3) =~= seq![58u8]);
    assert(s.subrange(5, 6) =~= seq![58u8]);
    let items = hm_part() + seconds_part(true, false);
    assert(items =~= seq![comp(ComponentKind::Hour), lit(58), comp(ComponentKind::Minute), lit(58), comp(ComponentKind::Second)]);
    let f0 = no_fields();
    let f1 = with_field(f0, ComponentKind::Hour, h, false);
    let f2 = with_field(f1, ComponentKind::Minute, m, false);
    let f3 = with_field(f2, ComponentKind::Second, sec, false);
    let r1 = items.subrange(1, 5);
    let r2 = r1.subrange(1, 4);
    let r3 = r2.subrange(1, 3);
    let r4 = r3.subrange(1, 2);
    let r5 = r4.subrange(1, 1);
    assert(r5.len() == 0);
    assert(seq_parse(r5, s, 8, f3) == Ok::<(int, Fields), ParseError>((8, f3)));
    assert(item_parse(r4[0], s, 6, f2) == Ok::<(int, Fields), ParseError>((8, f3)));
    assert(seq_parse(r4, s, 6, f2) == Ok::<(int, Fields), ParseError>((8, f3)));
    assert(item_parse(r3[0], s, 5, f2) == Ok::<(int, Fields), ParseError>((6, f2)));
    assert(seq_parse(r3, s, 5, f2) == Ok::<(int, Fields), ParseError>((8, f3)));
    assert(item_parse(r2[0], s, 3, f1) == Ok::<(int, Fields), ParseError>((5, f2)));
    assert(seq_parse(r2, s, 3, f1) == Ok::<(int, Fields), ParseError>((8, f3)));
    assert(item_parse(r1[0], s, 2, f1) == Ok::<(int, Fields), ParseError>((3, f1)));
    assert(seq_parse(r1, s, 2, f1) == Ok::<(int, Fields), ParseError>((8, f3)));
    assert(item_parse(items[0], s, 0, f0) == Ok::<(int, Fields), ParseError>((2, f1)));
    assert(seq_parse(items, s, 0, f0) == Ok::<(int, Fields), ParseError>((8, f3)));
    assert(description_fields(fixed_time(true, false), s) == Ok::<Fields, ParseError>(f3));
    assert(time_layouts()[0] == fixed_time(true, false));
}

/// An optional item never fails; where its inner item fails it consumes
/// nothing and leaves the fields as they were.
pub proof fn law_optional_never_fails(x: Fmt, s: Seq<u8>, pos: int, f: Fields)
    ensures
        item_parse(opt(x), s, pos, f) is Ok,
        item_parse(x, s, pos, f) is Err ==> item_parse(opt(x), s, pos, f) == Ok::<(int, Fields), ParseError>((pos, f)),
        item_parse(x, s, pos, f) is Ok ==> item_parse(opt(x), s, pos, f) == item_parse(x, s, pos, f),
{
}

/// In a compound, a failing optional item lets the items after it go on from
/// the same position with the same fields.
pub proof fn law_optional_in_compound(x: Fmt, rest: Seq<Fmt>, s: Seq<u8>, pos: int, f: Fields)
    requires
        item_parse(x, s, pos, f) is Err,
    ensures
        item_parse(Fmt::Compound(seq![opt(x)] + rest), s, pos, f) == seq_parse(rest, s, pos, f),
{
    let items = seq![opt(x)] + rest;
    assert(items[0] == opt(x));
    assert(items.subrange(1, items.len() as int) =~= rest);
    assert(item_parse(opt(x), s, pos, f) == Ok::<(int, Fields), ParseError>((pos, f)));
    assert(seq_parse(items, s, pos, f) == seq_parse(items.subrange(1, items.len() as int), s, pos, f));
}

/// `First([a, b])` gives `a`'s outcome when `a` matches, and `b`'s when it
/// does not.
pub proof fn law_first_of_two(a: Fmt, b: Fmt, s: Seq<u8>, pos: int, f: Fields)
    ensures
        item_parse(Fmt::First(seq![a, b]), s, pos, f) == (match item_parse(a, s, pos, f) {
            Ok(r) => Ok(r),
            Err(_) => item_parse(b, s, pos, f),
        }),
{
    let items = seq![a, b];
    let rest = items.subrange(1, 2);
    assert(items[0] == a);
    assert(items.len() == 2);
    assert(rest =~= seq![b]);
    assert(rest[0] == b);
    assert(first_parse(rest, s, pos, f) == (match item_parse(b, s, pos, f) {
        Ok(r) => Ok(r),
        Err(e) => Err(e),
    }));
    assert(item_parse(Fmt::First(items), s, pos, f) == first_parse(items, s, pos, f));
    if item_parse(a, s, pos, f) is Ok {
        assert(first_parse(items, s, pos, f) == item_parse(a, s, pos, f));
    } else {
        assert(first_parse(items, s, pos, f) == first_parse(rest, s, pos, f));
    }
}

/// The candidate strategy over two descriptions gives the first one's value
/// when it parses, and the second one's outcome when it does not.
pub proof fn law_candidates_of_two(t: Target, a: Fmt, b: Fmt, s: Seq<u8>)
    ensures
        candidates_parse(t, seq![a, b], s) == (match parse_as(t, a, s) {
            Ok(v) => Ok(v),
            Err(_) => parse_as(t, b, s),
        }),
{
    let ds = seq![a, b];
    let rest = ds.subrange(1, 2);
    assert(rest =~= seq![b]);
    assert(rest[0] == b);
    assert(candidates_parse(t, rest, s) == (match parse_as(t, b, s) {
        Ok(v) => Ok(v),
        Err(e) => Err(e),
    }));
}

/// A subsecond that reads one digit or more scales the `n` digits it reads
/// by `10^(9 - n)`: the count of digits, not their value, sets the unit.
pub proof fn law_subsecond_scale(c: Component, s: Seq<u8>, pos: int, n: int)
    requires
        c.kind == ComponentKind::Subsecond,
        c.digits == DigitPolicy::OneOrMore,
        1 <= n <= 9,
        0 <= pos && pos + n <= s.len(),
        forall|i: int| pos <= i < pos + n ==> is_digit(#[trigger] s[i]),
        pos + n == s.len() || !is_digit(s[pos + n]) || n == 9,
    ensures
        parse_component(c, s, pos) == Ok::<(int, int, bool), ParseError>(
            (pos + n, (digits_value(s, pos, n) * pow10((9 - n) as nat)) as int, false),
        ),
{
    lemma_digit_run_exact(s, pos, n, 9);
    lemma_digits_value_bound(s, pos, n);
    lemma_pow10_split(n);
    reveal_with_fuel(pow10, 10);
    let v = digits_value(s, pos, n);
    let a = pow10(n as nat);
    let b = pow10((9 - n) as nat);
    assert(v * b < a * b) by (nonlinear_arith)
        requires
            v < a,
            b >= 1,
    {
    }
    assert(b >= 1) by {
        lemma_pow10_positive((9 - n) as nat);
    }
}

proof fn lemma_digit_run_exact(s: Seq<u8>, pos: int, n: int, max: int)
    requires
        0 <= n <= max,
        0 <= pos && pos + n <= s.len(),
        forall|i: int| pos <= i < pos + n ==> is_digit(#[trigger] s[i]),
        pos + n == s.len() || !is_digit(s[pos + n]) || n == max,
    ensures
        digit_run(s, pos, max) == n,
    decreases n,
{
    if n > 0 {
        assert(is_digit(s[pos]));
        lemma_digit_run_exact(s, pos + 1, n - 1, max - 1);
    }
}

proof fn lemma_digits_value_bound(s: Seq<u8>, pos: int, n: int)
    requires
        0 <= n,
        0 <= pos && pos + n <= s.len(),
        forall|i: int| pos <= i < pos + n ==> is_digit(#[trigger] s[i]),
    ensures
        digits_value(s, pos, n) < pow10(n as nat),
    decreases n,
{
    if n > 0 {
        lemma_digits_value_bound(s, pos, n - 1);
        assert(is_digit(s[pos + n - 1]));
        let v = digits_value(s, pos, n - 1);
        let p = pow10((n - 1) as nat);
        assert(pow10(n as nat) == 10 * p);
        assert(v * 10 + (s[pos + n - 1] - 48) < 10 * p) by (nonlinear_arith)
            requires
                v < p,
                0 <= s[pos + n - 1] - 48 < 10,
        ;
    }
}

proof fn lemma_pow10_split(n: int)
    requires
        0 <= n <= 9,
    ensures
        pow10(n as nat) * pow10((9 - n) as nat) == pow10(9),
    decreases n,
{
    if n > 0 {
        lemma_pow10_split(n - 1);
        let a = pow10((n - 1) as nat);
        let b = pow10((9 - n) as nat);
        let c = pow10((10 - n) as nat);
        let d = pow10(n as nat);
        let e = pow10(9);
        assert(d == 10 * a);
        assert(c == 10 * b);
        assert(a * c == e);
        assert(d * b == e) by (nonlinear_arith)
            requires
                d == 10 * a,
                c == 10 * b,
                a * c == e,
        ;
    } else {
        assert(pow10(0) == 1);
        assert(pow10(0) * pow10(9) == pow10(9));
    }
}

proof fn lemma_pow10_positive(n: nat)
    ensures
        pow10(n) >= 1,
    decreases n,
{
    if n > 0 {
        lemma_pow10_positive((n - 1) as nat);
    }
}

/// A component that mandates a sign fails with `MissingSign` where neither
/// `+` nor `-` stands at `pos`.
pub proof fn law_mandatory_sign(c: Component, s: Seq<u8>, pos: int)
    requires
        c.kind == ComponentKind::OffsetHour || c.kind == ComponentKind::Year,
        c.sign_mandatory,
        !(0 <= pos < s.len()) || (s[pos] != 43 && s[pos] != 45),
    ensures
        parse_component(c, s, pos) == Err::<(int, int, bool), ParseError>(ParseError::MissingSign),
{
}

/// A description that matches only a proper prefix of the input is rejected
/// with `TrailingInput`.
pub proof fn law_trailing_input(d: Fmt, s: Seq<u8>)
    requires
        item_parse(d, s, 0, no_fields()) is Ok,
        item_parse(d, s, 0, no_fields())->Ok_0.0 != s.len(),
    ensures
        description_fields(d, s) == Err::<Fields, ParseError>(ParseError::TrailingInput),
{
}


/// Fields that are each well-formed but name no day of the calendar are
/// rejected with `InvalidDate`, whatever description collected them.
pub proof fn law_invalid_calendar_date(t: Target, d: Fmt, s: Seq<u8>)
    requires
        t == Target::Primitive || t == Target::Offset,
        description_fields(d, s) is Ok,
        ({
            let f = description_fields(d, s)->Ok_0;
            &&& f.year is Some && f.month is Some && f.day is Some
            &&& !is_calendar_date(f.year->0 as int, f.month->0 as int, f.day->0 as int)
        }),
    ensures
        parse_as(t, d, s) == Err::<Value, ParseError>(ParseError::InvalidDate),
{
}

} // verus!
