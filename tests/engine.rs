use dtparse::builder::{build_date, build_time};
use dtparse::compile::{compile_description, DescriptionError};
use dtparse::component::read_component;
use dtparse::describe::{
    comp_item, fixed_date_time_item, fixed_time_item, lit_item, opt_item, ZoneSuffix,
};
use dtparse::format::{Component, ComponentKind, DigitPolicy, FormatItem, Padding};
use dtparse::strategy::{parse_candidates, parse_fields, parse_value, Target, Value};
use dtparse::value::{Date, OffsetDateTime, ParseError, PrimitiveDateTime, Time, UtcOffset};
use dtparse::{first, second, third};

fn t(hour: u8, minute: u8, second: u8, nanosecond: u32) -> Time {
    Time { hour, minute, second, nanosecond }
}

fn compound(items: Vec<FormatItem>) -> FormatItem {
    FormatItem::Compound(items)
}

fn hm(first: ComponentKind, sep: u8, second: ComponentKind) -> FormatItem {
    compound(vec![comp_item(first), lit_item(sep), comp_item(second)])
}

fn component(kind: ComponentKind, padding: Padding) -> Component {
    Component { kind, padding, sign_mandatory: false, digits: DigitPolicy::OneOrMore }
}

fn date_item() -> FormatItem {
    compound(vec![
        comp_item(ComponentKind::Year),
        lit_item(b'-'),
        comp_item(ComponentKind::Month),
        lit_item(b'-'),
        comp_item(ComponentKind::Day),
    ])
}

#[test]
fn hms_text_parses_to_its_numbers() {
    let d = fixed_time_item(true, false);
    for (s, want) in [("00:00:00", t(0, 0, 0, 0)), ("07:05:09", t(7, 5, 9, 0)), ("23:59:59", t(23, 59, 59, 0))] {
        assert_eq!(parse_value(Target::Time, &d, s.as_bytes()), Ok(Value::Time(want)));
        assert_eq!(first::time_attempt(s), Some(want));
    }
}

#[test]
fn hour_out_of_range_is_invalid_value() {
    let d = fixed_time_item(true, false);
    assert_eq!(parse_value(Target::Time, &d, b"24:00:00"), Err(ParseError::InvalidValue));
}

#[test]
fn optional_tail_may_be_absent() {
    assert_eq!(second::time_attempt("19:44"), Ok(t(19, 44, 0, 0)));
    let d = compound(vec![
        hm(ComponentKind::Hour, b':', ComponentKind::Minute),
        opt_item(compound(vec![lit_item(b':'), comp_item(ComponentKind::Second)])),
        opt_item(compound(vec![lit_item(b'.'), comp_item(ComponentKind::Subsecond)])),
    ]);
    assert_eq!(parse_value(Target::Time, &d, b"19:44"), Ok(Value::Time(t(19, 44, 0, 0))));
    assert_eq!(parse_value(Target::Time, &d, b"19:44:07"), Ok(Value::Time(t(19, 44, 7, 0))));
}

#[test]
fn first_takes_the_first_alternative_that_matches() {
    let ab = FormatItem::First(vec![
        hm(ComponentKind::Hour, b':', ComponentKind::Minute),
        hm(ComponentKind::Minute, b'.', ComponentKind::Hour),
    ]);
    assert_eq!(parse_value(Target::Time, &ab, b"10.20"), Ok(Value::Time(t(20, 10, 0, 0))));
    assert_eq!(parse_value(Target::Time, &ab, b"10:20"), Ok(Value::Time(t(10, 20, 0, 0))));
    let both = FormatItem::First(vec![
        hm(ComponentKind::Hour, b':', ComponentKind::Minute),
        hm(ComponentKind::Minute, b':', ComponentKind::Hour),
    ]);
    assert_eq!(parse_value(Target::Time, &both, b"10:20"), Ok(Value::Time(t(10, 20, 0, 0))));
}

#[test]
fn first_reports_the_last_error() {
    let ab = FormatItem::First(vec![
        hm(ComponentKind::Hour, b':', ComponentKind::Minute),
        hm(ComponentKind::Minute, b'.', ComponentKind::Hour),
    ]);
    assert_eq!(parse_value(Target::Time, &ab, b"10-20"), Err(ParseError::LiteralMismatch));
    assert_eq!(parse_value(Target::Time, &FormatItem::First(vec![]), b"10:20"), Err(ParseError::NoAlternativeMatched));
}

#[test]
fn candidates_are_tried_in_order() {
    let ds = vec![
        hm(ComponentKind::Hour, b':', ComponentKind::Minute),
        hm(ComponentKind::Minute, b':', ComponentKind::Hour),
    ];
    assert_eq!(parse_candidates(Target::Time, &ds, b"10:20"), Ok(Value::Time(t(10, 20, 0, 0))));
    assert_eq!(parse_candidates(Target::Time, &ds, b"10:45"), Ok(Value::Time(t(10, 45, 0, 0))));
    assert_eq!(parse_candidates(Target::Time, &ds, b"45:10"), Ok(Value::Time(t(10, 45, 0, 0))));
    assert_eq!(parse_candidates(Target::Time, &vec![], b"10:20"), Err(ParseError::NoAlternativeMatched));
}

#[test]
fn subsecond_scale_follows_digit_count() {
    assert_eq!(second::time_attempt("20:45:31.133"), Ok(t(20, 45, 31, 133_000_000)));
    assert_eq!(second::time_attempt("20:45:31.1"), Ok(t(20, 45, 31, 100_000_000)));
    assert_eq!(second::time_attempt("20:45:31.000000001"), Ok(t(20, 45, 31, 1)));
    assert_eq!(second::time_attempt("20:45:31.010"), Ok(t(20, 45, 31, 10_000_000)));
}

#[test]
fn fixed_subsecond_digits() {
    let c = Component {
        kind: ComponentKind::Subsecond,
        padding: Padding::Zeros,
        sign_mandatory: false,
        digits: DigitPolicy::Fixed(3),
    };
    assert_eq!(read_component(c, b"1234", 0), Ok((3, 123_000_000, false)));
    assert_eq!(read_component(c, b"12", 0), Err(ParseError::InsufficientWidth));
}

#[test]
fn invalid_calendar_date_is_rejected() {
    let f = parse_fields(&date_item(), b"2021-02-30").unwrap();
    assert_eq!(build_date(&f), Err(ParseError::InvalidDate));
    assert_eq!(third::pdt_attempt("2021-02-30 10:00:00"), Err(ParseError::InvalidDate));
    assert_eq!(first::pdt_attempt("2021-02-30 10:00:00"), None);
}

#[test]
fn leap_days_follow_the_gregorian_rule() {
    let date = |s: &[u8]| build_date(&parse_fields(&date_item(), s).unwrap());
    assert_eq!(date(b"2020-02-29"), Ok(Date { year: 2020, month: 2, day: 29 }));
    assert_eq!(date(b"2000-02-29"), Ok(Date { year: 2000, month: 2, day: 29 }));
    assert_eq!(date(b"1900-02-29"), Err(ParseError::InvalidDate));
    assert_eq!(date(b"2021-04-31"), Err(ParseError::InvalidDate));
    assert_eq!(date(b"2021-12-31"), Ok(Date { year: 2021, month: 12, day: 31 }));
    assert_eq!(date(b"-0044-03-15"), Ok(Date { year: -44, month: 3, day: 15 }));
}

#[test]
fn offset_sign_is_mandatory() {
    let want = OffsetDateTime {
        date: Date { year: 2017, month: 4, day: 11 },
        time: t(14, 35, 0, 0),
        offset: UtcOffset { hours: 2, minutes: 0, seconds: 0 },
    };
    assert_eq!(third::odt_attempt("2017-04-11T14:35+02:00"), Ok(want));
    assert!(third::odt_attempt("2017-04-11T14:35 02:00").is_err());
    assert!(second::odt_attempt("2017-04-11T14:35 02:00").is_err());
    assert_eq!(first::odt_attempt("2017-04-11T14:35 02:00"), None);
    let c = Component {
        kind: ComponentKind::OffsetHour,
        padding: Padding::Zeros,
        sign_mandatory: true,
        digits: DigitPolicy::OneOrMore,
    };
    assert_eq!(read_component(c, b"02:00", 0), Err(ParseError::MissingSign));
    assert_eq!(read_component(c, b"-02", 0), Ok((3, 2, true)));
}

#[test]
fn negative_offset_applies_to_minutes() {
    let got = third::odt_attempt("2013-09-17 23:59-01:30").unwrap();
    assert_eq!(got.offset, UtcOffset { hours: -1, minutes: -30, seconds: 0 });
}

#[test]
fn trailing_input_is_rejected() {
    let d = fixed_time_item(true, false);
    assert_eq!(parse_fields(&d, b"19:44:00extra"), Err(ParseError::TrailingInput));
    assert_eq!(third::time_attempt("19:44:00extra"), Err(ParseError::TrailingInput));
}

#[test]
fn offset_candidates_space_separated() {
    let want = OffsetDateTime {
        date: Date { year: 2014, month: 10, day: 18 },
        time: t(0, 0, 38, 697_000_000),
        offset: UtcOffset { hours: 0, minutes: 0, seconds: 0 },
    };
    assert_eq!(third::odt_attempt("2014-10-18 00:00:38.697+00:00"), Ok(want));
    assert_eq!(third::odt_from_fast_path(None, "2014-10-18 00:00:38.697+00:00"), Ok(want));
}

#[test]
fn fast_path_value_is_kept() {
    let v = OffsetDateTime {
        date: Date { year: 1999, month: 1, day: 1 },
        time: t(1, 2, 3, 4),
        offset: UtcOffset { hours: 5, minutes: 6, seconds: 7 },
    };
    assert_eq!(third::odt_from_fast_path(Some(v), "not a date"), Ok(v));
    assert_eq!(first::odt_from_fast_path(Some(v), "not a date"), Some(v));
    assert_eq!(first::odt_from_fast_path(None, "not a date"), None);
}

#[test]
fn rfc3339_fast_path_reads_all_fields() {
    let got = first::odt_attempt("1985-04-12T23:20:50.52-04:30").unwrap();
    assert_eq!(
        got,
        OffsetDateTime {
            date: Date { year: 1985, month: 4, day: 12 },
            time: t(23, 20, 50, 520_000_000),
            offset: UtcOffset { hours: -4, minutes: -30, seconds: 0 },
        }
    );
}

#[test]
fn trailing_z_is_ignored_without_offset() {
    let want = PrimitiveDateTime { date: Date { year: 2011, month: 5, day: 24 }, time: t(21, 2, 0, 0) };
    assert_eq!(third::pdt_attempt("2011-05-24 21:02Z"), Ok(want));
    assert_eq!(second::pdt_attempt("2011-05-24 21:02Z"), Ok(want));
    assert_eq!(first::pdt_attempt("2011-05-24 21:02Z"), Some(want));
}

#[test]
fn error_variants() {
    let d = fixed_date_time_item(b' ', true, false, ZoneSuffix::Absent);
    assert_eq!(parse_value(Target::Primitive, &d, b"2021-13-01 00:00:00"), Err(ParseError::InvalidValue));
    assert_eq!(parse_value(Target::Primitive, &d, b"2021-1-01 00:00:00"), Err(ParseError::InsufficientWidth));
    assert_eq!(parse_value(Target::Primitive, &d, b"2021-x1-01 00:00:00"), Err(ParseError::ComponentMismatch));
    assert_eq!(parse_value(Target::Primitive, &d, b"2021-01-01T00:00:00"), Err(ParseError::LiteralMismatch));
    let only_hour = compound(vec![comp_item(ComponentKind::Hour)]);
    assert_eq!(parse_value(Target::Time, &only_hour, b"12"), Err(ParseError::MissingField));
    let f = parse_fields(&only_hour, b"12").unwrap();
    assert_eq!(build_time(&f), Err(ParseError::MissingField));
}

#[test]
fn unpadded_and_space_padded_components() {
    assert_eq!(read_component(component(ComponentKind::Hour, Padding::Unpadded), b"7:", 0), Ok((1, 7, false)));
    assert_eq!(read_component(component(ComponentKind::Hour, Padding::Unpadded), b"17", 0), Ok((2, 17, false)));
    assert_eq!(read_component(component(ComponentKind::Hour, Padding::Spaces), b" 7", 0), Ok((2, 7, false)));
    assert_eq!(read_component(component(ComponentKind::Hour, Padding::Spaces), b"  ", 0), Err(ParseError::ComponentMismatch));
    assert_eq!(read_component(component(ComponentKind::Hour, Padding::Zeros), b"7:", 0), Err(ParseError::InsufficientWidth));
}

#[test]
fn literal_must_match_exactly() {
    let d = compound(vec![lit_item(b'a'), lit_item(b'b')]);
    assert!(parse_fields(&d, b"ab").is_ok());
    assert_eq!(parse_fields(&d, b"ac"), Err(ParseError::LiteralMismatch));
    assert_eq!(parse_fields(&d, b"a"), Err(ParseError::LiteralMismatch));
}

#[test]
fn compiled_description_parses() {
    let d = compile_description(b"[hour]:[minute]:[second]").unwrap();
    assert_eq!(parse_value(Target::Time, &d, b"21:46:32"), Ok(Value::Time(t(21, 46, 32, 0))));
    let d = compile_description(
        b"[year]-[month]-[day]T[hour]:[minute][offset_hour sign:mandatory]:[offset_minute]",
    )
    .unwrap();
    let want = OffsetDateTime {
        date: Date { year: 2017, month: 4, day: 11 },
        time: t(14, 35, 0, 0),
        offset: UtcOffset { hours: 2, minutes: 0, seconds: 0 },
    };
    assert_eq!(parse_value(Target::Offset, &d, b"2017-04-11T14:35+02:00"), Ok(Value::Offset(want)));
    assert_eq!(parse_value(Target::Offset, &d, b"2017-04-11T14:35 02:00"), Err(ParseError::MissingSign));
}

#[test]
fn compiled_modifiers() {
    let d = compile_description(b"[hour padding:none]h[subsecond  digits:3]").unwrap();
    assert_eq!(parse_value(Target::Time, &d, b"7h123"), Err(ParseError::MissingField));
    let f = parse_fields(&d, b"7h123").unwrap();
    assert_eq!(f.hour, Some(7));
    assert_eq!(f.nanosecond, Some(123_000_000));
    let d = compile_description(b"[hour padding:space]").unwrap();
    assert_eq!(parse_fields(&d, b" 9").unwrap().hour, Some(9));
}

#[test]
fn compile_errors() {
    assert_eq!(compile_description(b"[yaer]").unwrap_err(), DescriptionError::UnknownComponentName);
    assert_eq!(compile_description(b"[]").unwrap_err(), DescriptionError::UnknownComponentName);
    assert_eq!(compile_description(b"[hour padding:zeros]").unwrap_err(), DescriptionError::UnknownModifier);
    assert_eq!(compile_description(b"[hour repr]").unwrap_err(), DescriptionError::UnknownModifier);
    assert_eq!(compile_description(b"[hour]:[minute").unwrap_err(), DescriptionError::UnclosedBracket);
    assert!(compile_description(b"").is_ok());
}

#[test]
fn offset_is_required_for_offset_values() {
    assert_eq!(dtparse::fourth::odt_attempt("2014-10-18 00:00:38"), Err(ParseError::MissingField));
    assert_eq!(dtparse::fourth::odt_from_fast_path(None, "2014-10-18 00:00:38"), Err(ParseError::MissingField));
    assert_eq!(second::odt_attempt("2014-10-18 00:00:38"), Err(ParseError::MissingField));
}
