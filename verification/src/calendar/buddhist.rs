//! The Buddhist era: the civil month and day, with the year counted from 543
//! years earlier.

use crate::calendar::Calendar;
use crate::civil::{CivilDate, CivilDateTime};
use crate::models::{
    optional_calendar_text, optional_text, CalendarDate, CalendarText, UserSettings,
};
use crate::strftime::{format_moment, month_day_text, MONTH_DAY_PATTERN};
use crate::text::{decimal_text, push_decimal};
use vstd::prelude::*;
use vstd::string::*;

verus! {

/// Years by which the Buddhist era is ahead of the civil one.
pub const BUDDHIST_ERA_OFFSET: i32 = 543;

/// How a date is written in the Buddhist era: month and day as in the civil
/// calendar, then the Buddhist year and the letters BE.
pub open spec fn buddhist_date_text(date: CivilDate) -> Seq<char> {
    month_day_text(date) + ", "@ + decimal_text(date.year + BUDDHIST_ERA_OFFSET) + " BE"@
}

/// The Buddhist entry for the civil year `civil_year`, given the month and
/// day as the formatter wrote them; none where it wrote nothing.
pub open spec fn buddhist_entry_text(month_day: Option<Seq<char>>, civil_year: int) -> Option<
    CalendarText,
> {
    match month_day {
        Some(text) => Some(
            CalendarText {
                system: "Buddhist"@,
                date: text + ", "@ + decimal_text(civil_year + BUDDHIST_ERA_OFFSET) + " BE"@,
                additional_info: None,
            },
        ),
        None => None,
    }
}

/// Makes the Buddhist entry from what the formatter gave for month and day.
pub fn buddhist_entry(month_day: Option<String>, civil_year: i32) -> (entry: Option<CalendarDate>)
    ensures
        optional_calendar_text(entry) == buddhist_entry_text(
            optional_text(month_day),
            civil_year as int,
        ),
{
    match month_day {
        Some(text) => {
            let buddhist_year: i64 = civil_year as i64 + BUDDHIST_ERA_OFFSET as i64;
            let mut date = text;
            date.append(", ");
            push_decimal(&mut date, buddhist_year);
            date.append(" BE");
            Some(CalendarDate { system: String::from_str("Buddhist"), date, additional_info: None })
        },
        None => None,
    }
}

/// Converter to the Buddhist era.
pub struct BuddhistCalendar;

impl Calendar for BuddhistCalendar {
    open spec fn converted(
        &self,
        date: &CivilDateTime,
        settings: Option<&UserSettings>,
    ) -> Option<CalendarText> {
        Some(
            CalendarText {
                system: "Buddhist"@,
                date: buddhist_date_text(date.date),
                additional_info: None,
            },
        )
    }

    fn convert(&self, date: &CivilDateTime, settings: Option<&UserSettings>) -> (result: Option<
        CalendarDate,
    >) {
        buddhist_entry(format_moment(date, MONTH_DAY_PATTERN), date.date.year)
    }
}

} // verus!
