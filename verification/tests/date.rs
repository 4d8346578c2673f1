use since::date::{
    day_number, days_before_year, days_in_month, days_in_year, is_leap_year, today, CalendarDate,
    MAX_YEAR, MIN_YEAR,
};

fn date(year: i32, month: u32, day: u32) -> CalendarDate {
    CalendarDate::new(year, month, day).unwrap()
}

#[test]
fn leap_year_rule() {
    assert!(is_leap_year(2020));
    assert!(!is_leap_year(2019));
    assert!(!is_leap_year(1900));
    assert!(is_leap_year(2000));
    assert!(is_leap_year(0));
}

#[test]
fn month_lengths() {
    let lengths: Vec<u32> = (1..=12).map(|m| days_in_month(2019, m)).collect();
    assert_eq!(vec![31, 28, 31, 30, 31, 30, 31, 31, 30, 31, 30, 31], lengths);
    assert_eq!(29, days_in_month(2020, 2));
    assert_eq!(366, days_in_year(2020));
    assert_eq!(365, days_in_year(2019));
}

#[test]
fn day_numbers_count_from_year_zero() {
    assert_eq!(0, day_number(&date(0, 1, 1)));
    assert_eq!(365, day_number(&date(0, 12, 31)));
    assert_eq!(366, day_number(&date(1, 1, 1)));
    assert_eq!(719528, day_number(&date(1970, 1, 1)));
    assert_eq!(737850, day_number(&date(2020, 3, 1)));
    assert_eq!(3652424, day_number(&date(MAX_YEAR, 12, 31)));
    assert_eq!(737790, days_before_year(2020));
}

#[test]
fn lexicographic_order_on_dates() {
    let earlier = date(2020, 12, 31);
    let later = date(2021, 1, 1);
    assert!(earlier.lt(&later));
    assert!(earlier.le(&later));
    assert!(!later.le(&earlier));
    assert!(earlier.le(&earlier));
    assert!(!earlier.lt(&earlier));
    assert!(date(2020, 3, 2).lt(&date(2020, 4, 1)));
    assert!(date(2020, 3, 2).lt(&date(2020, 3, 3)));
}

#[test]
fn today_is_a_well_formed_date() {
    let d = today().unwrap();
    assert!((MIN_YEAR..=MAX_YEAR).contains(&d.year));
    assert!((1..=12).contains(&d.month));
    assert!(d.day >= 1 && d.day <= days_in_month(d.year, d.month));
}
