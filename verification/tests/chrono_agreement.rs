use chrono::{Datelike, Duration, NaiveDate};
use vivace::calendar::french_revolutionary::revolutionary_date;
use vivace::calendar::julian::julian_shift;
use vivace::civil::{
    absolute_from_gregorian, days_in_gregorian_month, gregorian_from_absolute,
    is_gregorian_leap_year, CivilDate, CivilDateTime,
};

fn sample_years() -> Vec<i32> {
    let mut years: Vec<i32> = vec![-9999, -9998, -4713, -401, -400, -101, -100, -5, -4, -1, 0, 1];
    years.extend([4, 100, 399, 400, 1582, 1600, 1700, 1792, 1899, 1900, 1999, 2000]);
    years.extend([2023, 2024, 2025, 2100, 2400, 5000, 9998, 9999]);
    years
}

fn naive(date: CivilDate) -> NaiveDate {
    NaiveDate::from_ymd_opt(date.year, date.month, date.day).unwrap()
}

#[test]
fn absolute_day_is_the_day_count_from_the_common_era() {
    for year in sample_years() {
        for month in 1..=12u32 {
            for day in 1..=days_in_gregorian_month(year, month) {
                let expected = naive(CivilDate { year, month, day }).num_days_from_ce() as i64;
                assert_eq!(absolute_from_gregorian(year, month, day), expected);
            }
        }
    }
}

#[test]
fn date_of_an_absolute_day_agrees() {
    let mut abs: i64 = -3_652_424;
    while abs <= 3_652_059 {
        let date = gregorian_from_absolute(abs);
        let expected = NaiveDate::from_num_days_from_ce_opt(abs as i32).unwrap();
        assert_eq!(
            (date.year, date.month, date.day),
            (expected.year(), expected.month(), expected.day())
        );
        abs += 997;
    }
}

#[test]
fn leap_years_and_month_lengths_agree() {
    for year in -9999..=9999 {
        let expected = NaiveDate::from_ymd_opt(year, 1, 1).unwrap().leap_year();
        assert_eq!(is_gregorian_leap_year(year), expected);
        assert_eq!(NaiveDate::from_ymd_opt(year, 2, 29).is_some(), expected);
        assert_eq!(days_in_gregorian_month(year, 2), if expected { 29 } else { 28 });
    }
}

#[test]
fn well_formed_dates_are_the_dates_that_exist() {
    for year in [-9999, -1, 0, 1, 1900, 2000, 2023, 2024, 9999] {
        for month in 0..=13u32 {
            for day in 0..=32u32 {
                let date = CivilDate { year, month, day };
                let exists = NaiveDate::from_ymd_opt(year, month, day).is_some();
                assert_eq!(date.is_well_formed(), exists);
            }
        }
    }
    assert!(!CivilDate { year: 10_000, month: 1, day: 1 }.is_well_formed());
    assert!(!CivilDate { year: -10_000, month: 12, day: 31 }.is_well_formed());
}

#[test]
fn well_formed_moments() {
    let good = CivilDateTime {
        date: CivilDate { year: 2024, month: 2, day: 29 },
        hour: 23,
        minute: 59,
        second: 59,
        nanosecond: 1_999_999_999,
        utc_offset_seconds: -86_399,
    };
    assert!(good.is_well_formed());
    assert!(!CivilDateTime { hour: 24, ..good }.is_well_formed());
    assert!(!CivilDateTime { minute: 60, ..good }.is_well_formed());
    assert!(!CivilDateTime { second: 60, ..good }.is_well_formed());
    assert!(!CivilDateTime { nanosecond: 2_000_000_000, ..good }.is_well_formed());
    assert!(!CivilDateTime { second: 58, ..good }.is_well_formed());
    assert!(CivilDateTime { second: 58, nanosecond: 999_999_999, ..good }.is_well_formed());
    assert!(!CivilDateTime { utc_offset_seconds: 86_400, ..good }.is_well_formed());
    assert!(!CivilDateTime { utc_offset_seconds: -86_400, ..good }.is_well_formed());
    let bad_date = CivilDate { year: 2023, month: 2, day: 29 };
    assert!(!CivilDateTime { date: bad_date, ..good }.is_well_formed());
}

#[test]
fn julian_shift_is_thirteen_days_back() {
    for year in sample_years() {
        for month in 1..=12u32 {
            for day in [1u32, 13, 14, 28] {
                let date = CivilDate { year, month, day };
                let expected = naive(date) - Duration::days(13);
                let shifted = julian_shift(&date);
                assert_eq!(
                    (shifted.year, shifted.month, shifted.day),
                    (expected.year(), expected.month(), expected.day())
                );
            }
        }
    }
}

#[test]
fn revolutionary_date_counts_days_from_22_september() {
    for year in sample_years() {
        for month in 1..=12u32 {
            for day in 1..=days_in_gregorian_month(year, month) {
                let date = CivilDate { year, month, day };
                let this_year = NaiveDate::from_ymd_opt(year, 9, 22).unwrap();
                let (start, rev_year) = if naive(date) >= this_year {
                    (this_year, year - 1792 + 1)
                } else {
                    (NaiveDate::from_ymd_opt(year - 1, 9, 22).unwrap(), year - 1792)
                };
                let days = (naive(date) - start).num_days();
                let r = revolutionary_date(&date);
                assert_eq!(r.month_index as i64, days / 30);
                assert_eq!(r.day_in_month as i64, days % 30 + 1);
                assert_eq!(r.year, rev_year);
            }
        }
    }
}
