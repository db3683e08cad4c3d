use vivace::calendar::buddhist::BuddhistCalendar;
use vivace::calendar::french_revolutionary::{
    get_french_revolutionary_item, revolutionary_date, FrenchRevolutionaryCalendar,
};
use vivace::calendar::jewish::get_hebrew_month_lengths;
use vivace::calendar::julian::JulianCalendar;
use vivace::calendar::Calendar;
use vivace::civil::{CivilDate, CivilDateTime};
use vivace::utils::resolve_date_format;

fn midnight(year: i32, month: u32, day: u32) -> CivilDateTime {
    CivilDateTime {
        date: CivilDate { year, month, day },
        hour: 0,
        minute: 0,
        second: 0,
        nanosecond: 0,
        utc_offset_seconds: 0,
    }
}

#[test]
fn first_day_of_vendemiaire_is_raisin() {
    let date = CivilDate { year: 2024, month: 9, day: 22 };
    let r = revolutionary_date(&date);
    assert_eq!(r.month_index, 0);
    assert_eq!(r.day_in_month, 1);
    assert_eq!(get_french_revolutionary_item(r.month_index, r.day_in_month), "Raisin");
    let entry = FrenchRevolutionaryCalendar.convert(&midnight(2024, 9, 22), None).unwrap();
    assert_eq!(entry.system, "French Revolutionary");
    assert_eq!(entry.date, "Vendémiaire 1, An 233");
    assert_eq!(entry.additional_info.as_deref(), Some("Raisin"));
}

#[test]
fn buddhist_new_year_2024() {
    let entry = BuddhistCalendar.convert(&midnight(2024, 1, 1), None).unwrap();
    assert_eq!(entry.system, "Buddhist");
    assert_eq!(entry.date, "January 01, 2567 BE");
    assert_eq!(entry.additional_info, None);
}

#[test]
fn julian_is_thirteen_days_behind() {
    let entry = JulianCalendar.convert(&midnight(2024, 3, 1), None).unwrap();
    assert_eq!(entry.system, "Julian");
    assert_eq!(entry.date, "February 17, 2024");
    assert_eq!(entry.additional_info, None);
}

#[test]
fn leap_year_table_has_both_adars() {
    for year in [5776, 5784] {
        let months = get_hebrew_month_lengths(year);
        assert_eq!(months.len(), 13);
        let names: Vec<&str> = months.iter().map(|m| m.1).collect();
        assert!(names.contains(&"Adar I"));
        assert!(names.contains(&"Adar II"));
        assert!(!names.contains(&"Adar"));
    }
}

#[test]
fn common_year_table_has_one_adar() {
    let months = get_hebrew_month_lengths(5785);
    assert_eq!(months.len(), 12);
    let names: Vec<&str> = months.iter().map(|m| m.1).collect();
    assert!(names.contains(&"Adar"));
    assert!(!names.contains(&"Adar I"));
    assert!(!names.contains(&"Adar II"));
}

#[test]
fn military_format_gains_seconds() {
    assert_eq!(resolve_date_format(Some("military"), true), "%A, %B %d, %Y %H:%M:%S");
    assert_eq!(resolve_date_format(Some("military"), false), "%A, %B %d, %Y %H:%M");
}

#[test]
fn seconds_need_an_hour_token() {
    assert_eq!(resolve_date_format(Some("custom:%Y-%m-%d"), true), "%Y-%m-%d");
    assert_eq!(resolve_date_format(None, true), "%A, %B %d, %Y");
}
