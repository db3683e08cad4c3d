use vivace::civil::{
    absolute_from_gregorian, days_in_gregorian_month, floor_div, floor_mod,
    gregorian_from_absolute, is_gregorian_leap_year, CivilDate, MAX_ABSOLUTE, MIN_ABSOLUTE,
};

#[test]
fn day_one_is_first_january_of_year_one() {
    assert_eq!(absolute_from_gregorian(1, 1, 1), 1);
    assert_eq!(gregorian_from_absolute(1), CivilDate { year: 1, month: 1, day: 1 });
}

#[test]
fn day_zero_is_last_december_of_year_zero() {
    assert_eq!(absolute_from_gregorian(0, 12, 31), 0);
    assert_eq!(gregorian_from_absolute(0), CivilDate { year: 0, month: 12, day: 31 });
}

#[test]
fn known_absolute_days() {
    assert_eq!(absolute_from_gregorian(1970, 1, 1), 719_163);
    assert_eq!(absolute_from_gregorian(2024, 2, 29), 738_945);
    assert_eq!(absolute_from_gregorian(2024, 10, 3), 739_162);
    assert_eq!(absolute_from_gregorian(9999, 12, 31), 3_652_059);
    assert_eq!(absolute_from_gregorian(-9999, 1, 1), -3_652_424);
}

#[test]
fn known_dates_of_absolute_days() {
    assert_eq!(gregorian_from_absolute(719_163), CivilDate { year: 1970, month: 1, day: 1 });
    assert_eq!(gregorian_from_absolute(738_945), CivilDate { year: 2024, month: 2, day: 29 });
    assert_eq!(gregorian_from_absolute(3_652_059), CivilDate { year: 9999, month: 12, day: 31 });
    assert_eq!(gregorian_from_absolute(-3_652_424), CivilDate { year: -9999, month: 1, day: 1 });
}

#[test]
fn leap_years_follow_the_four_hundred_year_rule() {
    assert!(is_gregorian_leap_year(2024));
    assert!(is_gregorian_leap_year(2000));
    assert!(!is_gregorian_leap_year(1900));
    assert!(!is_gregorian_leap_year(2023));
    assert!(is_gregorian_leap_year(0));
    assert!(is_gregorian_leap_year(-4));
    assert!(!is_gregorian_leap_year(-100));
    assert!(is_gregorian_leap_year(-400));
}

#[test]
fn month_lengths() {
    let common: Vec<u32> = (1..=12).map(|m| days_in_gregorian_month(2023, m)).collect();
    assert_eq!(common, vec![31, 28, 31, 30, 31, 30, 31, 31, 30, 31, 30, 31]);
    assert_eq!(days_in_gregorian_month(2024, 2), 29);
    assert_eq!(days_in_gregorian_month(1900, 2), 28);
    assert_eq!(days_in_gregorian_month(2024, 0), 30);
    assert_eq!(days_in_gregorian_month(2024, 13), 30);
}

#[test]
fn round_trip_from_every_day_of_four_centuries() {
    let first = absolute_from_gregorian(1800, 1, 1);
    let last = absolute_from_gregorian(2200, 12, 31);
    let mut abs = first;
    while abs <= last {
        let date = gregorian_from_absolute(abs);
        assert_eq!(absolute_from_gregorian(date.year, date.month, date.day), abs);
        abs += 1;
    }
}

#[test]
fn round_trip_from_every_date_of_some_years() {
    for year in [-9999, -401, -1, 0, 1, 4, 100, 400, 1582, 1900, 2000, 2024, 9999] {
        for month in 1..=12u32 {
            for day in 1..=days_in_gregorian_month(year, month) {
                let abs = absolute_from_gregorian(year, month, day);
                assert_eq!(gregorian_from_absolute(abs), CivilDate { year, month, day });
            }
        }
    }
}

#[test]
fn absolute_days_run_on_across_year_ends() {
    for year in [-9999, -1, 0, 1, 1999, 2023, 2024, 9998] {
        assert_eq!(
            absolute_from_gregorian(year, 12, 31) + 1,
            absolute_from_gregorian(year + 1, 1, 1)
        );
    }
}

#[test]
fn ends_of_the_accepted_range() {
    assert_eq!(absolute_from_gregorian(i32::MIN, 1, 1), MIN_ABSOLUTE);
    assert_eq!(absolute_from_gregorian(i32::MAX, 12, 31), MAX_ABSOLUTE);
    assert_eq!(
        gregorian_from_absolute(MIN_ABSOLUTE),
        CivilDate { year: i32::MIN, month: 1, day: 1 }
    );
    assert_eq!(
        gregorian_from_absolute(MAX_ABSOLUTE),
        CivilDate { year: i32::MAX, month: 12, day: 31 }
    );
}

#[test]
fn round_trip_far_from_year_one() {
    for abs in [
        MIN_ABSOLUTE + 1,
        -700_000_000_000,
        -17_800_000,
        -17_700_000,
        -4_000_000,
        4_000_000,
        700_000_000_000,
        MAX_ABSOLUTE - 1,
    ] {
        let date = gregorian_from_absolute(abs);
        assert!(1 <= date.month && date.month <= 12);
        assert!(1 <= date.day && date.day <= days_in_gregorian_month(date.year, date.month));
        assert_eq!(absolute_from_gregorian(date.year, date.month, date.day), abs);
    }
}

#[test]
fn later_dates_have_later_absolute_days() {
    let mut previous = absolute_from_gregorian(1999, 12, 31);
    for year in 2000..=2004 {
        for month in 1..=12u32 {
            for day in 1..=days_in_gregorian_month(year, month) {
                let abs = absolute_from_gregorian(year, month, day);
                assert_eq!(abs, previous + 1);
                previous = abs;
            }
        }
    }
}

#[test]
fn floor_division_rounds_down() {
    assert_eq!(floor_div(7, 2), 3);
    assert_eq!(floor_div(-7, 2), -4);
    assert_eq!(floor_div(-8, 2), -4);
    assert_eq!(floor_div(0, 5), 0);
    assert_eq!(floor_div(i64::MIN, 1), i64::MIN);
    assert_eq!(floor_mod(7, 2), 1);
    assert_eq!(floor_mod(-7, 2), 1);
    assert_eq!(floor_mod(-1, 19), 18);
    assert_eq!(floor_mod(38, 19), 0);
}
