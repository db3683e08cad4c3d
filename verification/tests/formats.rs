use vivace::calendar::buddhist::{buddhist_entry, BuddhistCalendar};
use vivace::calendar::formatted_entry;
use vivace::calendar::gregorian::{pattern_for, GregorianCalendar};
use vivace::calendar::julian::{julian_shift, JulianCalendar};
use vivace::calendar::Calendar;
use vivace::civil::{days_in_gregorian_month, CivilDate, CivilDateTime};
use vivace::models::UserSettings;
use vivace::utils::resolve_date_format;

fn afternoon(year: i32, month: u32, day: u32) -> CivilDateTime {
    CivilDateTime {
        date: CivilDate { year, month, day },
        hour: 13,
        minute: 5,
        second: 9,
        nanosecond: 0,
        utc_offset_seconds: 3600,
    }
}

fn settings_with(date_format: Option<&str>, show_seconds: Option<bool>) -> UserSettings {
    let mut settings = UserSettings::default();
    settings.date_format = date_format.map(|s| s.to_string());
    settings.show_seconds = show_seconds;
    settings
}

const MONTHS: [&str; 12] = [
    "January",
    "February",
    "March",
    "April",
    "May",
    "June",
    "July",
    "August",
    "September",
    "October",
    "November",
    "December",
];

fn four_digit_year(year: i32) -> String {
    if year < 0 {
        format!("-{:04}", -(year as i64))
    } else if year > 9999 {
        format!("+{:04}", year)
    } else {
        format!("{:04}", year)
    }
}

fn sample_years() -> Vec<i32> {
    vec![-9999, -9998, -1000, -999, -100, -10, -1, 0, 1, 9, 10, 99, 100, 999, 1000, 2024, 9999]
}

#[test]
fn month_and_day_are_written_by_name_and_in_two_digits() {
    for year in sample_years() {
        for month in 1..=12u32 {
            for day in 1..=days_in_gregorian_month(year, month) {
                let entry = BuddhistCalendar.convert(&afternoon(year, month, day), None).unwrap();
                let expected =
                    format!("{} {:02}, {} BE", MONTHS[month as usize - 1], day, year + 543);
                assert_eq!(entry.date, expected);
            }
        }
    }
}

#[test]
fn year_is_written_in_four_digits_or_with_a_sign() {
    for year in sample_years() {
        for month in 1..=12u32 {
            for day in 1..=days_in_gregorian_month(year, month) {
                let shifted = julian_shift(&CivilDate { year, month, day });
                let entry = JulianCalendar.convert(&afternoon(year, month, day), None).unwrap();
                let expected = format!(
                    "{} {:02}, {}",
                    MONTHS[shifted.month as usize - 1],
                    shifted.day,
                    four_digit_year(shifted.year)
                );
                assert_eq!(entry.date, expected);
            }
        }
    }
}

#[test]
fn years_with_a_sign_or_with_leading_zeros() {
    let julian = |year, month, day| {
        JulianCalendar.convert(&afternoon(year, month, day), None).unwrap().date
    };
    assert_eq!(julian(-9999, 1, 1), "December 19, -10000");
    assert_eq!(julian(-9999, 1, 14), "January 01, -9999");
    assert_eq!(julian(-1, 6, 30), "June 17, -0001");
    assert_eq!(julian(0, 1, 1), "December 19, -0001");
    assert_eq!(julian(0, 7, 4), "June 21, 0000");
    assert_eq!(julian(9, 7, 4), "June 21, 0009");
    assert_eq!(julian(99, 7, 4), "June 21, 0099");
    assert_eq!(julian(999, 7, 4), "June 21, 0999");
    assert_eq!(julian(1000, 7, 4), "June 21, 1000");
    assert_eq!(julian(9999, 12, 31), "December 18, 9999");
}

#[test]
fn fixed_patterns_do_not_depend_on_the_time_of_day() {
    let mut late = afternoon(2024, 3, 1);
    late.hour = 23;
    late.minute = 59;
    late.second = 59;
    late.nanosecond = 1_999_999_999;
    late.utc_offset_seconds = -86_399;
    let entry = JulianCalendar.convert(&late, None).unwrap();
    assert_eq!(entry.date, "February 17, 2024");
    let entry = BuddhistCalendar.convert(&late, None).unwrap();
    assert_eq!(entry.date, "March 01, 2567 BE");
    let mut early = afternoon(2024, 3, 1);
    early.hour = 0;
    early.minute = 0;
    early.second = 0;
    early.utc_offset_seconds = 86_399;
    let entry = JulianCalendar.convert(&early, None).unwrap();
    assert_eq!(entry.date, "February 17, 2024");
    let entry = BuddhistCalendar.convert(&early, None).unwrap();
    assert_eq!(entry.date, "March 01, 2567 BE");
}

#[test]
fn presets_without_seconds() {
    assert_eq!(resolve_date_format(Some("military"), false), "%A, %B %d, %Y %H:%M");
    assert_eq!(resolve_date_format(Some("standard"), false), "%A, %B %d, %Y %I:%M %p");
    assert_eq!(resolve_date_format(None, false), "%A, %B %d, %Y");
    assert_eq!(resolve_date_format(Some("anything else"), false), "%A, %B %d, %Y");
    assert_eq!(resolve_date_format(Some(""), false), "%A, %B %d, %Y");
}

#[test]
fn presets_with_seconds() {
    assert_eq!(resolve_date_format(Some("military"), true), "%A, %B %d, %Y %H:%M:%S");
    assert_eq!(resolve_date_format(Some("standard"), true), "%A, %B %d, %Y %I:%M %p:%S");
    assert_eq!(resolve_date_format(Some("unknown"), true), "%A, %B %d, %Y");
}

#[test]
fn custom_pattern_loses_its_prefix() {
    assert_eq!(resolve_date_format(Some("custom:%Y-%m-%d"), false), "%Y-%m-%d");
    assert_eq!(resolve_date_format(Some("custom:"), false), "");
    assert_eq!(resolve_date_format(Some("custom:custom:%d"), false), "%d");
    assert_eq!(resolve_date_format(Some("custom:custom"), false), "custom");
    assert_eq!(resolve_date_format(Some("custom:é %H"), false), "é %H");
}

#[test]
fn prefix_must_stand_at_the_start() {
    assert_eq!(resolve_date_format(Some(" custom:%H"), true), "%A, %B %d, %Y");
    assert_eq!(resolve_date_format(Some("Custom:%H"), true), "%A, %B %d, %Y");
    assert_eq!(resolve_date_format(Some("custom"), true), "%A, %B %d, %Y");
}

#[test]
fn custom_pattern_and_seconds() {
    assert_eq!(resolve_date_format(Some("custom:%H"), true), "%H:%S");
    assert_eq!(resolve_date_format(Some("custom:%I %p"), true), "%I %p:%S");
    assert_eq!(resolve_date_format(Some("custom:%H:%M:%S"), true), "%H:%M:%S");
    assert_eq!(resolve_date_format(Some("custom:%S"), true), "%S");
    assert_eq!(resolve_date_format(Some("custom:%M"), true), "%M");
    assert_eq!(resolve_date_format(Some("custom:%"), true), "%");
    assert_eq!(resolve_date_format(Some("custom:%H"), false), "%H");
}

#[test]
fn pattern_for_settings() {
    assert_eq!(pattern_for(None), "%A, %B %d, %Y");
    assert_eq!(pattern_for(Some(&UserSettings::default())), "%A, %B %d, %Y %H:%M:%S");
    assert_eq!(pattern_for(Some(&settings_with(None, None))), "%A, %B %d, %Y");
    assert_eq!(pattern_for(Some(&settings_with(None, Some(true)))), "%A, %B %d, %Y");
    assert_eq!(
        pattern_for(Some(&settings_with(Some("military"), None))),
        "%A, %B %d, %Y %H:%M"
    );
    assert_eq!(
        pattern_for(Some(&settings_with(Some("standard"), Some(false)))),
        "%A, %B %d, %Y %I:%M %p"
    );
}

#[test]
fn gregorian_without_settings() {
    let entry = GregorianCalendar.convert(&afternoon(2024, 1, 1), None).unwrap();
    assert_eq!(entry.system, "Gregorian");
    assert_eq!(entry.date, "Monday, January 01, 2024");
    assert_eq!(entry.additional_info, None);
}

#[test]
fn gregorian_with_fresh_settings() {
    let settings = UserSettings::default();
    let entry = GregorianCalendar.convert(&afternoon(2024, 1, 1), Some(&settings)).unwrap();
    assert_eq!(entry.date, "Monday, January 01, 2024 13:05:09");
}

#[test]
fn gregorian_on_the_twelve_hour_clock() {
    let settings = settings_with(Some("standard"), Some(false));
    let entry = GregorianCalendar.convert(&afternoon(2024, 7, 4), Some(&settings)).unwrap();
    assert_eq!(entry.date, "Thursday, July 04, 2024 01:05 PM");
    let settings = settings_with(Some("standard"), Some(true));
    let entry = GregorianCalendar.convert(&afternoon(2024, 7, 4), Some(&settings)).unwrap();
    assert_eq!(entry.date, "Thursday, July 04, 2024 01:05 PM:09");
}

#[test]
fn gregorian_with_a_custom_pattern() {
    let settings = settings_with(Some("custom:%Y-%m-%d %H"), Some(true));
    let entry = GregorianCalendar.convert(&afternoon(2024, 1, 1), Some(&settings)).unwrap();
    assert_eq!(entry.date, "2024-01-01 13:09");
}

#[test]
fn formatter_differs_from_its_pattern() {
    let settings = settings_with(Some("custom:%d"), None);
    let entry = GregorianCalendar.convert(&afternoon(2024, 1, 9), Some(&settings)).unwrap();
    assert_eq!(entry.date, "09");
    assert_ne!(entry.date, "%d");
}

#[test]
fn gregorian_shows_the_offset_of_the_moment() {
    let settings = settings_with(Some("custom:%H:%M %z"), None);
    let entry = GregorianCalendar.convert(&afternoon(2024, 1, 1), Some(&settings)).unwrap();
    assert_eq!(entry.date, "13:05 +0100");
    let mut west = afternoon(2024, 1, 1);
    west.utc_offset_seconds = -5 * 3600 - 1800;
    let entry = GregorianCalendar.convert(&west, Some(&settings)).unwrap();
    assert_eq!(entry.date, "13:05 -0530");
}

#[test]
fn gregorian_with_an_empty_pattern() {
    let settings = settings_with(Some("custom:"), None);
    let entry = GregorianCalendar.convert(&afternoon(2024, 1, 1), Some(&settings)).unwrap();
    assert_eq!(entry.date, "");
}

#[test]
fn gregorian_with_an_unknown_specifier_gives_nothing() {
    let settings = settings_with(Some("custom:%?"), None);
    assert!(GregorianCalendar.convert(&afternoon(2024, 1, 1), Some(&settings)).is_none());
    let settings = settings_with(Some("custom:%Y %"), None);
    assert!(GregorianCalendar.convert(&afternoon(2024, 1, 1), Some(&settings)).is_none());
}

#[test]
fn gregorian_twice_gives_the_same_entry() {
    let settings = UserSettings::default();
    let first = GregorianCalendar.convert(&afternoon(2031, 8, 17), Some(&settings)).unwrap();
    let second = GregorianCalendar.convert(&afternoon(2031, 8, 17), Some(&settings)).unwrap();
    assert_eq!(first.date, second.date);
    assert_eq!(first.system, second.system);
}

#[test]
fn julian_shift_crosses_months_and_years() {
    let shift = |year, month, day| julian_shift(&CivilDate { year, month, day });
    assert_eq!(shift(2024, 3, 1), CivilDate { year: 2024, month: 2, day: 17 });
    assert_eq!(shift(2024, 1, 5), CivilDate { year: 2023, month: 12, day: 23 });
    assert_eq!(shift(2024, 3, 13), CivilDate { year: 2024, month: 2, day: 29 });
    assert_eq!(shift(2023, 3, 13), CivilDate { year: 2023, month: 2, day: 28 });
    assert_eq!(shift(2024, 1, 14), CivilDate { year: 2024, month: 1, day: 1 });
    assert_eq!(shift(1, 1, 5), CivilDate { year: 0, month: 12, day: 23 });
    assert_eq!(shift(-9999, 1, 1), CivilDate { year: -10000, month: 12, day: 19 });
}

#[test]
fn julian_entries() {
    let entry = JulianCalendar.convert(&afternoon(2024, 1, 5), None).unwrap();
    assert_eq!(entry.system, "Julian");
    assert_eq!(entry.date, "December 23, 2023");
    let entry = JulianCalendar.convert(&afternoon(2024, 3, 13), None).unwrap();
    assert_eq!(entry.date, "February 29, 2024");
    let entry = JulianCalendar.convert(&afternoon(1, 1, 5), None).unwrap();
    assert_eq!(entry.date, "December 23, 0000");
}

#[test]
fn julian_ignores_the_settings() {
    let settings = settings_with(Some("custom:%?"), Some(true));
    let entry = JulianCalendar.convert(&afternoon(2024, 3, 1), Some(&settings)).unwrap();
    assert_eq!(entry.date, "February 17, 2024");
}

#[test]
fn buddhist_entries() {
    let entry = BuddhistCalendar.convert(&afternoon(2024, 12, 31), None).unwrap();
    assert_eq!(entry.date, "December 31, 2567 BE");
    let entry = BuddhistCalendar.convert(&afternoon(-543, 6, 7), None).unwrap();
    assert_eq!(entry.date, "June 07, 0 BE");
    let entry = BuddhistCalendar.convert(&afternoon(-600, 1, 1), None).unwrap();
    assert_eq!(entry.date, "January 01, -57 BE");
}

#[test]
fn buddhist_entry_from_formatted_month_and_day() {
    let entry = buddhist_entry(Some("January 01".to_string()), 2024).unwrap();
    assert_eq!(entry.system, "Buddhist");
    assert_eq!(entry.date, "January 01, 2567 BE");
    assert_eq!(entry.additional_info, None);
    let entry = buddhist_entry(Some(String::new()), i32::MAX).unwrap();
    assert_eq!(entry.date, ", 2147484190 BE");
    assert!(buddhist_entry(None, 2024).is_none());
}

#[test]
fn entry_from_formatted_text() {
    let entry = formatted_entry("Julian", Some("February 17, 2024".to_string())).unwrap();
    assert_eq!(entry.system, "Julian");
    assert_eq!(entry.date, "February 17, 2024");
    assert_eq!(entry.additional_info, None);
    assert!(formatted_entry("Julian", None).is_none());
}

#[test]
fn leap_second_is_written_as_second_sixty() {
    let mut leap = afternoon(2016, 12, 31);
    leap.hour = 23;
    leap.minute = 59;
    leap.second = 59;
    leap.nanosecond = 1_000_000_000;
    let settings = settings_with(Some("custom:%H:%M:%S"), None);
    let entry = GregorianCalendar.convert(&leap, Some(&settings)).unwrap();
    assert_eq!(entry.date, "23:59:60");
}
