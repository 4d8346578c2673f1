use since::date::CalendarDate;
use since::elapsed::{elapsed, DayImpl, Duration, FormatType, MonthImpl, YearImpl};

fn date(year: YearImpl, month: MonthImpl, day: DayImpl) -> CalendarDate {
    CalendarDate::new(year, month, day).unwrap()
}

fn duration(
    from_year: YearImpl,
    from_month: MonthImpl,
    from_day: DayImpl,
    to_year: YearImpl,
    to_month: MonthImpl,
    to_day: DayImpl,
) -> Result<Duration, String> {
    elapsed(
        &date(from_year, from_month, from_day),
        &date(to_year, to_month, to_day),
    )
}

fn year_month_format(
    from_year: YearImpl,
    from_month: MonthImpl,
    from_day: DayImpl,
    to_year: YearImpl,
    to_month: MonthImpl,
    to_day: DayImpl,
) -> String {
    duration(from_year, from_month, from_day, to_year, to_month, to_day)
        .unwrap()
        .format(&FormatType::YearMonth)
}

fn days_format(
    from_year: YearImpl,
    from_month: MonthImpl,
    from_day: DayImpl,
    to_year: YearImpl,
    to_month: MonthImpl,
    to_day: DayImpl,
) -> String {
    duration(from_year, from_month, from_day, to_year, to_month, to_day)
        .unwrap()
        .format(&FormatType::Day)
}

fn year_day_format(
    from_year: YearImpl,
    from_month: MonthImpl,
    from_day: DayImpl,
    to_year: YearImpl,
    to_month: MonthImpl,
    to_day: DayImpl,
) -> String {
    duration(from_year, from_month, from_day, to_year, to_month, to_day)
        .unwrap()
        .format(&FormatType::YearDay)
}

#[test]
fn year_month_format_test() {
    let year = 2020;
    assert_eq!("0 days", year_month_format(year, 2, 3, year, 2, 4));
    assert_eq!("27 days", year_month_format(year, 2, 3, year, 3, 2));
    assert_eq!("1 month 27 days", year_month_format(year, 2, 3, year, 4, 2));
    assert_eq!("5 months 27 days", year_month_format(year, 2, 3, year, 8, 2));
    assert_eq!("1 year 28 days", year_month_format(2020, 1, 3, 2021, 2, 1));
    assert_eq!(
        "2 years 5 months 26 days",
        year_month_format(2018, 2, 3, 2020, 8, 2)
    );
}

#[test]
fn days_format_test() {
    assert_eq!("0 days", days_format(2020, 2, 1, 2020, 2, 1));
    assert_eq!("0 days", days_format(2020, 2, 1, 2020, 2, 2));
    assert_eq!("6 days", days_format(2020, 2, 3, 2020, 2, 10));
    assert_eq!("35 days", days_format(2020, 2, 3, 2020, 3, 10));
    assert_eq!("37 days", days_format(2020, 3, 3, 2020, 4, 10));
    assert_eq!("37 days", days_format(2020, 12, 3, 2021, 1, 10));
    assert_eq!("393 days", days_format(2020, 1, 3, 2021, 1, 31));
}

#[test]
fn to_string() {
    assert_eq!("0 days", duration(2020, 1, 1, 2020, 1, 1).unwrap().to_string());
    assert_eq!("0 days", duration(2020, 1, 1, 2020, 1, 2).unwrap().to_string());
    assert_eq!("1 day", duration(2020, 1, 1, 2020, 1, 3).unwrap().to_string());
    assert_eq!("2 days", duration(2020, 1, 1, 2020, 1, 4).unwrap().to_string());
    assert_eq!(
        "1 month 1 day (30 days)",
        duration(2020, 1, 30, 2020, 3, 1).unwrap().to_string()
    );
    assert_eq!(
        "1 month 2 days (31 days)",
        duration(2020, 1, 30, 2020, 3, 2).unwrap().to_string()
    );
    assert_eq!(
        "2 months 12 days (72 days)",
        duration(2020, 1, 30, 2020, 4, 12).unwrap().to_string()
    );
    assert_eq!(
        "1 year 12 days (377 days)",
        duration(2020, 12, 30, 2022, 1, 12).unwrap().to_string()
    );
    assert_eq!(
        "2 years 2 months 12 days (801 days)",
        duration(2020, 12, 30, 2023, 3, 12).unwrap().to_string()
    );
    assert_eq!(
        "11 months 58 days (393 days)",
        duration(2020, 1, 3, 2021, 01, 31).unwrap().to_string()
    );
}

#[test]
fn year_days_format_test() {
    assert_eq!("0 days", year_day_format(2020, 1, 1, 2020, 1, 1));
    assert_eq!("0 days", year_day_format(2020, 1, 1, 2020, 1, 2));
    assert_eq!("1 day", year_day_format(2020, 1, 1, 2020, 1, 3));
    assert_eq!("2 days", year_day_format(2020, 1, 1, 2020, 1, 4));
    assert_eq!("30 days", year_day_format(2020, 1, 30, 2020, 3, 1));
    assert_eq!("31 days", year_day_format(2020, 1, 30, 2020, 3, 2));
    assert_eq!("72 days", year_day_format(2020, 1, 30, 2020, 4, 12));
    assert_eq!("1 year 12 days", year_day_format(2020, 12, 30, 2022, 1, 12));
    assert_eq!("2 years 71 days", year_day_format(2020, 12, 30, 2023, 3, 12));
    assert_eq!("1 year 28 days", year_day_format(2020, 1, 3, 2021, 01, 31));
}

#[test]
fn incorrect_date_order() {
    let duration = duration(2021, 1, 1, 2020, 1, 1);
    match duration {
        Ok(_) => {
            panic!("error expected");
        }
        Err(error_message) => {
            assert_eq!(
                "'from' date should be less or equal to 'to' date",
                error_message
            )
        }
    }
}

#[test]
fn equal_dates_format_as_zero_days_in_every_mode() {
    for mode in [
        FormatType::Day,
        FormatType::YearMonth,
        FormatType::YearDay,
        FormatType::Default,
    ] {
        assert_eq!(
            "0 days",
            duration(2021, 7, 14, 2021, 7, 14).unwrap().format(&mode)
        );
    }
}

#[test]
fn adjacent_dates_format_as_zero_days_in_every_mode() {
    for mode in [
        FormatType::Day,
        FormatType::YearMonth,
        FormatType::YearDay,
        FormatType::Default,
    ] {
        assert_eq!(
            "0 days",
            duration(2020, 4, 30, 2020, 5, 1).unwrap().format(&mode)
        );
        assert_eq!(
            "0 days",
            duration(2020, 12, 31, 2021, 1, 1).unwrap().format(&mode)
        );
    }
}

#[test]
fn leap_year_is_counted() {
    assert_eq!("1 day", days_format(2020, 2, 28, 2020, 3, 1));
    assert_eq!("0 days", days_format(2019, 2, 28, 2019, 3, 1));
}

#[test]
fn month_overflow_carries_into_years() {
    assert_eq!(
        "1 year 10 months 35 days (704 days)",
        duration(2020, 1, 15, 2021, 12, 20).unwrap().to_string()
    );
    assert_eq!("1 year 339 days", year_day_format(2020, 1, 15, 2021, 12, 20));
}

#[test]
fn decade_span_renders_each_mode() {
    assert_eq!("3652 days", days_format(2020, 1, 1, 2030, 1, 1));
    assert_eq!(
        "9 years 11 months 30 days",
        year_month_format(2020, 1, 1, 2030, 1, 1)
    );
    assert_eq!("10 years 2 days", year_day_format(2020, 1, 1, 2030, 1, 1));
    assert_eq!(
        "9 years 11 months 30 days (3652 days)",
        duration(2020, 1, 1, 2030, 1, 1).unwrap().to_string()
    );
}

#[test]
fn ordering_error_only_when_from_is_later() {
    assert!(duration(2020, 6, 15, 2020, 6, 15).is_ok());
    assert!(duration(2020, 6, 15, 2020, 6, 16).is_ok());
    assert!(duration(2020, 6, 16, 2020, 6, 15).is_err());
    assert!(duration(2020, 6, 15, 2020, 7, 1).is_ok());
    assert!(duration(2020, 7, 1, 2020, 6, 15).is_err());
}

#[test]
fn total_days_is_monotone_in_to() {
    let from = date(2020, 2, 27);
    let mut previous: u32 = 0;
    for (to_year, to_month, to_day) in [
        (2020, 2, 27),
        (2020, 2, 28),
        (2020, 2, 29),
        (2020, 3, 1),
        (2020, 12, 31),
        (2021, 1, 1),
        (2024, 2, 29),
    ] {
        let rendered = elapsed(&from, &date(to_year, to_month, to_day))
            .unwrap()
            .format(&FormatType::Day);
        let count: u32 = rendered
            .strip_suffix(" days")
            .or(rendered.strip_suffix(" day"))
            .unwrap()
            .parse()
            .unwrap();
        assert!(previous <= count);
        previous = count;
    }
}

#[test]
fn rejects_dates_outside_the_calendar() {
    assert!(CalendarDate::new(2020, 2, 30).is_none());
    assert!(CalendarDate::new(2019, 2, 29).is_none());
    assert!(CalendarDate::new(2020, 2, 29).is_some());
    assert!(CalendarDate::new(2020, 13, 1).is_none());
    assert!(CalendarDate::new(2020, 0, 1).is_none());
    assert!(CalendarDate::new(2020, 1, 0).is_none());
    assert!(CalendarDate::new(2020, 4, 31).is_none());
    assert!(CalendarDate::new(-1, 1, 1).is_none());
    assert!(CalendarDate::new(10000, 1, 1).is_none());
}
