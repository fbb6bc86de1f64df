use dtparse::value::{Date, OffsetDateTime, PrimitiveDateTime, Time, UtcOffset};
use dtparse::{first, fourth, second, third};

fn t(hour: u8, minute: u8, second: u8, nanosecond: u32) -> Time {
    Time { hour, minute, second, nanosecond }
}

fn pdt(year: i32, month: u8, day: u8, time: Time) -> PrimitiveDateTime {
    PrimitiveDateTime { date: Date { year, month, day }, time }
}

fn odt(year: i32, month: u8, day: u8, time: Time, hours: i8, minutes: i8) -> OffsetDateTime {
    OffsetDateTime {
        date: Date { year, month, day },
        time,
        offset: UtcOffset { hours, minutes, seconds: 0 },
    }
}

fn odt_cases() -> Vec<(&'static str, OffsetDateTime)> {
    vec![
        ("2016-03-07T22:36:55.135+03:30", odt(2016, 3, 7, t(22, 36, 55, 135_000_000), 3, 30)),
        ("2015-11-19 01:01:39+01:00", odt(2015, 11, 19, t(1, 1, 39, 0), 1, 0)),
        ("2014-10-18 00:00:38.697+00:00", odt(2014, 10, 18, t(0, 0, 38, 697_000_000), 0, 0)),
        ("2013-09-17 23:59-01:00", odt(2013, 9, 17, t(23, 59, 0, 0), -1, 0)),
        ("2017-04-11T14:35+02:00", odt(2017, 4, 11, t(14, 35, 0, 0), 2, 0)),
    ]
}

fn pdt_cases() -> Vec<(&'static str, PrimitiveDateTime)> {
    vec![
        ("2014-08-27T00:05", pdt(2014, 8, 27, t(0, 5, 0, 0))),
        ("2019-01-02 05:10:20", pdt(2019, 1, 2, t(5, 10, 20, 0))),
        ("2018-12-01 04:09:19.543", pdt(2018, 12, 1, t(4, 9, 19, 543_000_000))),
        ("2017-11-30 03:08", pdt(2017, 11, 30, t(3, 8, 0, 0))),
        ("2016-10-29T02:07:17", pdt(2016, 10, 29, t(2, 7, 17, 0))),
        ("2015-09-28T01:06:16.432", pdt(2015, 9, 28, t(1, 6, 16, 432_000_000))),
        ("2012-06-25 22:03:13.321Z", pdt(2012, 6, 25, t(22, 3, 13, 321_000_000))),
        ("2009-03-22T19:00:10.21Z", pdt(2009, 3, 22, t(19, 0, 10, 210_000_000))),
        ("2013-07-26 23:04:14Z", pdt(2013, 7, 26, t(23, 4, 14, 0))),
        ("2011-05-24 21:02Z", pdt(2011, 5, 24, t(21, 2, 0, 0))),
        ("2010-04-23T20:01:11Z", pdt(2010, 4, 23, t(20, 1, 11, 0))),
        ("2008-02-21T18:59Z", pdt(2008, 2, 21, t(18, 59, 0, 0))),
    ]
}

fn time_cases() -> Vec<(&'static str, Time)> {
    vec![
        ("21:46:32", t(21, 46, 32, 0)),
        ("20:45:31.133", t(20, 45, 31, 133_000_000)),
        ("19:44", t(19, 44, 0, 0)),
    ]
}

#[test]
fn test_odt_first_attempt() {
    for (s, want) in odt_cases() {
        assert_eq!(first::odt_attempt(s).unwrap(), want, "{}", s);
    }
}

#[test]
fn test_odt_second_attempt() {
    for (s, want) in odt_cases() {
        assert_eq!(second::odt_attempt(s).unwrap(), want, "{}", s);
    }
}

#[test]
fn test_odt_third_attempt() {
    for (s, want) in odt_cases() {
        assert_eq!(third::odt_attempt(s).unwrap(), want, "{}", s);
    }
}

#[test]
fn test_odt_fourth_attempt() {
    for (s, want) in odt_cases() {
        assert_eq!(fourth::odt_attempt(s).unwrap(), want, "{}", s);
    }
}

#[test]
fn test_pdt_first_attempt() {
    for (s, want) in pdt_cases() {
        assert_eq!(first::pdt_attempt(s).unwrap(), want, "{}", s);
    }
}

#[test]
fn test_pdt_second_attempt() {
    for (s, want) in pdt_cases() {
        assert_eq!(second::pdt_attempt(s).unwrap(), want, "{}", s);
    }
}

#[test]
fn test_pdt_third_attempt() {
    for (s, want) in pdt_cases() {
        assert_eq!(third::pdt_attempt(s).unwrap(), want, "{}", s);
    }
}

#[test]
fn test_pdt_fourth_attempt() {
    for (s, want) in pdt_cases() {
        assert_eq!(fourth::pdt_attempt(s).unwrap(), want, "{}", s);
    }
}

#[test]
fn test_time_first_attempt() {
    for (s, want) in time_cases() {
        assert_eq!(first::time_attempt(s).unwrap(), want, "{}", s);
    }
}

#[test]
fn test_time_second_attempt() {
    for (s, want) in time_cases() {
        assert_eq!(second::time_attempt(s).unwrap(), want, "{}", s);
    }
}

#[test]
fn test_time_third_attempt() {
    for (s, want) in time_cases() {
        assert_eq!(third::time_attempt(s).unwrap(), want, "{}", s);
    }
}
