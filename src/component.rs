//! Parsing one component: an optional sign, a run of digits, a range check.
use vstd::prelude::*;
use crate::format::{Component, ComponentKind, DigitPolicy, Padding};
use crate::value::ParseError;

verus! {

pub open spec fn is_digit(b: u8) -> bool {
    48 <= b <= 57
}

pub open spec fn pow10(n: nat) -> nat
    decreases n,
{
    if n == 0 { 1 } else { 10 * pow10((n - 1) as nat) }
}

/// The number of consecutive digits from `pos`, at most `max`.
pub open spec fn digit_run(s: Seq<u8>, pos: int, max: int) -> int
    decreases max,
{
    if max <= 0 || !(0 <= pos < s.len()) || !is_digit(s[pos]) {
        0
    } else {
        1 + digit_run(s, pos + 1, max - 1)
    }
}

/// The number of consecutive spaces from `pos`, at most `max`.
pub open spec fn space_run(s: Seq<u8>, pos: int, max: int) -> int
    decreases max,
{
    if max <= 0 || !(0 <= pos < s.len()) || s[pos] != 32 {
        0
    } else {
        1 + space_run(s, pos + 1, max - 1)
    }
}

/// The decimal number written by the `n` digits from `pos`.
pub open spec fn digits_value(s: Seq<u8>, pos: int, n: int) -> nat
    decreases n,
{
    if n <= 0 {
        0
    } else {
        digits_value(s, pos, n - 1) * 10 + (s[pos + n - 1] - 48) as nat
    }
}

/// The number of digits a component of this kind spans at full width.
pub open spec fn kind_width(k: ComponentKind) -> int {
    match k {
        ComponentKind::Year => 4,
        ComponentKind::Subsecond => 9,
        _ => 2,
    }
}

pub open spec fn kind_min(k: ComponentKind) -> int {
    match k {
        ComponentKind::Month | ComponentKind::Day => 1,
        _ => 0,
    }
}

pub open spec fn kind_max(k: ComponentKind) -> int {
    match k {
        ComponentKind::Year => 9999,
        ComponentKind::Month => 12,
        ComponentKind::Day => 31,
        ComponentKind::Hour | ComponentKind::OffsetHour => 23,
        ComponentKind::Minute | ComponentKind::Second | ComponentKind::OffsetMinute => 59,
        ComponentKind::Subsecond => 999_999_999,
    }
}

/// Whether a component of this kind may carry a leading sign.
pub open spec fn kind_signed(k: ComponentKind) -> bool {
    k == ComponentKind::Year || k == ComponentKind::OffsetHour
}

/// Where the sign part ends, and whether it was a minus.
pub open spec fn sign_part(c: Component, s: Seq<u8>, pos: int) -> Result<(int, bool), ParseError> {
    if kind_signed(c.kind) && 0 <= pos < s.len() && (s[pos] == 43 || s[pos] == 45) {
        Ok((pos + 1, s[pos] == 45))
    } else if kind_signed(c.kind) && c.sign_mandatory {
        Err(ParseError::MissingSign)
    } else {
        Ok((pos, false))
    }
}

/// Where the digits start after position `p`, and the least and most digits
/// that are read there.
pub open spec fn digit_bounds(c: Component, s: Seq<u8>, p: int) -> (int, int, int) {
    if c.kind == ComponentKind::Subsecond {
        match c.digits {
            DigitPolicy::Fixed(n) => (p, n as int, if n <= 9 { n as int } else { 9 }),
            DigitPolicy::OneOrMore => (p, 1, 9),
        }
    } else {
        let w = kind_width(c.kind);
        match c.padding {
            Padding::Zeros => (p, w, w),
            Padding::Unpadded => (p, 1, w),
            Padding::Spaces => {
                let sp = space_run(s, p, w - 1);
                (p + sp, w - sp, w - sp)
            },
        }
    }
}

/// The outcome of reading component `c` at `pos`: the end position, the
/// magnitude read (a subsecond in nanoseconds), and whether a minus led it.
pub open spec fn parse_component(c: Component, s: Seq<u8>, pos: int) -> Result<
    (int, int, bool),
    ParseError,
> {
    match sign_part(c, s, pos) {
        Err(e) => Err(e),
        Ok((p, neg)) => {
            let (start, lo, hi) = digit_bounds(c, s, p);
            let n = digit_run(s, start, hi);
            let v = digits_value(s, start, n);
            let value = if c.kind == ComponentKind::Subsecond {
                (v * pow10((9 - n) as nat)) as int
            } else {
                v as int
            };
            if n == 0 {
                Err(ParseError::ComponentMismatch)
            } else if n < lo {
                Err(ParseError::InsufficientWidth)
            } else if value < kind_min(c.kind) || value > kind_max(c.kind) {
                Err(ParseError::InvalidValue)
            } else {
                Ok((start + n, value, neg))
            }
        },
    }
}

proof fn lemma_pow10_nine()
    ensures
        pow10(9) == 1_000_000_000,
{
    reveal_with_fuel(pow10, 10);
}

proof fn lemma_pow10_mono(a: nat, b: nat)
    requires
        a <= b,
    ensures
        pow10(a) <= pow10(b),
    decreases b,
{
    if a < b {
        lemma_pow10_mono(a, (b - 1) as nat);
    }
}

/// Counts the spaces from `pos`, at most `max`.
fn scan_spaces(s: &[u8], pos: usize, max: usize) -> (n: usize)
    requires
        pos <= s@.len(),
    ensures
        n as int == space_run(s@, pos as int, max as int),
        pos + n <= s@.len(),
        n <= max,
{
    let mut i: usize = 0;
    while i < max && i < s.len() - pos && s[pos + i] == 32
        invariant
            pos <= s@.len(),
            i <= max,
            pos + i <= s@.len(),
            space_run(s@, pos as int, max as int) == i + space_run(
                s@,
                pos + i,
                max - i,
            ),
        decreases max - i,
    {
        i = i + 1;
    }
    i
}

/// Reads at most `max` (up to nine) digits from `pos`: their count and value.
fn scan_digits(s: &[u8], pos: usize, max: usize) -> (r: (usize, u32))
    requires
        pos <= s@.len(),
        max <= 9,
    ensures
        r.0 as int == digit_run(s@, pos as int, max as int),
        r.1 as int == digits_value(s@, pos as int, r.0 as int),
        (r.1 as int) < pow10(r.0 as nat),
        pos + r.0 <= s@.len(),
        r.0 <= max,
{
    let mut i: usize = 0;
    let mut v: u32 = 0;
    while i < max && i < s.len() - pos && 48 <= s[pos + i] && s[pos + i] <= 57
        invariant
            pos <= s@.len(),
            i <= max <= 9,
            pos + i <= s@.len(),
            digit_run(s@, pos as int, max as int) == i + digit_run(
                s@,
                pos + i,
                max - i,
            ),
            v as int == digits_value(s@, pos as int, i as int),
            (v as int) < pow10(i as nat),
        decreases max - i,
    {
        let d = s[pos + i] - 48;
        proof {
            lemma_pow10_nine();
            lemma_pow10_mono((i + 1) as nat, 9);
            assert(pow10((i + 1) as nat) == 10 * pow10(i as nat));
            assert((v as int) * 10 + d < 10 * pow10(i as nat)) by (nonlinear_arith)
                requires
                    (v as int) < pow10(i as nat),
                    d < 10,
            ;
        }
        v = v * 10 + d as u32;
        i = i + 1;
    }
    (i, v)
}

/// Reads component `c` at `pos`.
pub fn read_component(c: Component, s: &[u8], pos: usize) -> (r: Result<(usize, u32, bool), ParseError>)
    requires
        pos <= s@.len(),
    ensures
        match r {
            Ok((p, v, neg)) => parse_component(c, s@, pos as int) == Ok::<(int, int, bool), ParseError>((p as int, v as int, neg))
                && pos <= p <= s@.len(),
            Err(e) => parse_component(c, s@, pos as int) == Err::<(int, int, bool), ParseError>(e),
        },
{
    let signed = match c.kind {
        ComponentKind::Year | ComponentKind::OffsetHour => true,
        _ => false,
    };
    let len = s.len();
    let mut p = pos;
    let mut neg = false;
    if signed && pos < len && (s[pos] == 43 || s[pos] == 45) {
        neg = s[pos] == 45;
        p = pos + 1;
    } else if signed && c.sign_mandatory {
        return Err(ParseError::MissingSign);
    }
    assert(p <= s@.len());
    let width: usize = match c.kind {
        ComponentKind::Year => 4,
        ComponentKind::Subsecond => 9,
        _ => 2,
    };
    let is_sub = match c.kind {
        ComponentKind::Subsecond => true,
        _ => false,
    };
    let (start, lo, hi): (usize, usize, usize) = if is_sub {
        match c.digits {
            DigitPolicy::Fixed(n) => (p, n as usize, if n <= 9 { n as usize } else { 9 }),
            DigitPolicy::OneOrMore => (p, 1, 9),
        }
    } else {
        match c.padding {
            Padding::Zeros => (p, width, width),
            Padding::Unpadded => (p, 1, width),
            Padding::Spaces => {
                let sp = scan_spaces(s, p, width - 1);
                (p + sp, width - sp, width - sp)
            },
        }
    };
    assert(digit_bounds(c, s@, p as int) == (start as int, lo as int, hi as int));
    let (n, v) = scan_digits(s, start, hi);
    if n == 0 {
        return Err(ParseError::ComponentMismatch);
    }
    if n < lo {
        return Err(ParseError::InsufficientWidth);
    }
    let mut value: u32 = v;
    assert(start + n <= s@.len());
    if is_sub {
        assert(pow10(0) == 1);
        assert(v * pow10(0) == v);
        let mut j: usize = n;
        while j < 9
            invariant
                n <= j <= 9,
                value as int == v * pow10((j - n) as nat),
                (value as int) < pow10(j as nat),
            decreases 9 - j,
        {
            proof {
                lemma_pow10_nine();
                lemma_pow10_mono((j + 1) as nat, 9);
                assert(pow10((j + 1 - n) as nat) == 10 * pow10((j - n) as nat));
                assert(pow10((j + 1) as nat) == 10 * pow10(j as nat));
                assert(v * pow10((j + 1 - n) as nat) == (v * pow10((j - n) as nat)) * 10) by (nonlinear_arith)
                    requires
                        pow10((j + 1 - n) as nat) == 10 * pow10((j - n) as nat),
                ;
            }
            value = value * 10;
            j = j + 1;
        }
    }
    let (min, max): (u32, u32) = match c.kind {
        ComponentKind::Year => (0, 9999),
        ComponentKind::Month => (1, 12),
        ComponentKind::Day => (1, 31),
        ComponentKind::Hour | ComponentKind::OffsetHour => (0, 23),
        ComponentKind::Minute | ComponentKind::Second | ComponentKind::OffsetMinute => (0, 59),
        ComponentKind::Subsecond => (0, 999_999_999),
    };
    if value < min || value > max {
        return Err(ParseError::InvalidValue);
    }
    Ok((start + n, value, neg))
}

} // verus!
