//! The Julian calendar, taken as the civil date less thirteen days. The two
//! calendars are thirteen days apart from March 1900 to February 2100; for
//! other dates the offset is an approximation.

use crate::calendar::{formatted_entry, formatted_entry_text, Calendar};
use crate::civil::{
    absolute_from_gregorian, civil_from_absolute, gregorian_from_absolute,
    lemma_day_of_year_bounds, lemma_days_before_next_year, lemma_days_before_year_increases,
    CivilDate, CivilDateTime,
};
use crate::models::{CalendarDate, CalendarText, UserSettings};
use crate::strftime::{format_moment, long_date_text, LONG_DATE_PATTERN};
use vstd::prelude::*;

verus! {

/// Days by which the Julian calendar is behind the civil one.
pub const JULIAN_OFFSET_DAYS: i64 = 13;

/// The civil date thirteen days before `date`: what the Julian calendar
/// reads on that day.
pub open spec fn julian_date(date: CivilDate) -> CivilDate {
    civil_from_absolute(date.absolute() - JULIAN_OFFSET_DAYS)
}

/// Computes [`julian_date`].
pub fn julian_shift(date: &CivilDate) -> (shifted: CivilDate)
    requires
        date.wf(),
    ensures
        shifted == julian_date(*date),
        shifted.is_valid(),
        shifted.absolute() == date.absolute() - JULIAN_OFFSET_DAYS,
        shifted.year == date.year || shifted.year == date.year - 1,
{
    proof {
        lemma_day_of_year_bounds(*date);
    }
    let abs: i64 = absolute_from_gregorian(date.year, date.month, date.day);
    let shifted = gregorian_from_absolute(abs - JULIAN_OFFSET_DAYS);
    proof {
        lemma_day_of_year_bounds(shifted);
        lemma_days_before_next_year(date.year - 1);
        lemma_days_before_next_year(date.year - 2);
        if shifted.year > date.year {
            lemma_days_before_year_increases(date.year + 1, shifted.year as int);
            lemma_days_before_next_year(date.year as int);
        }
        if shifted.year < date.year - 1 {
            lemma_days_before_year_increases(shifted.year + 1, date.year - 1);
        }
    }
    shifted
}

/// Converter to the Julian calendar.
pub struct JulianCalendar;

impl Calendar for JulianCalendar {
    open spec fn converted(
        &self,
        date: &CivilDateTime,
        settings: Option<&UserSettings>,
    ) -> Option<CalendarText> {
        formatted_entry_text("Julian"@, Some(long_date_text(julian_date(date.date))))
    }

    fn convert(&self, date: &CivilDateTime, settings: Option<&UserSettings>) -> (result: Option<
        CalendarDate,
    >) {
        let shifted = CivilDateTime {
            date: julian_shift(&date.date),
            hour: date.hour,
            minute: date.minute,
            second: date.second,
            nanosecond: date.nanosecond,
            utc_offset_seconds: date.utc_offset_seconds,
        };
        formatted_entry("Julian", format_moment(&shifted, LONG_DATE_PATTERN))
    }
}

} // verus!
