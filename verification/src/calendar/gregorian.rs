//! The civil date itself, written by the pattern that the user chose.

use crate::calendar::{formatted_entry, formatted_entry_text, Calendar};
use crate::civil::CivilDateTime;
use crate::models::{CalendarDate, CalendarText, UserSettings};
use crate::strftime::{format_moment, strftime_text};
use crate::utils::{resolve_date_format, resolved_pattern, DATE_ONLY_PATTERN};
use vstd::prelude::*;
use vstd::string::*;

verus! {

/// The pattern by which the Gregorian date is written: the one that the
/// settings resolve to, or the date alone where there are no settings.
pub open spec fn gregorian_pattern(settings: Option<&UserSettings>) -> Seq<char> {
    match settings {
        Some(s) => resolved_pattern(s.date_format_text(), s.wants_seconds()),
        None => DATE_ONLY_PATTERN@,
    }
}

/// Computes [`gregorian_pattern`].
pub fn pattern_for(settings: Option<&UserSettings>) -> (pattern: String)
    ensures
        pattern@ == gregorian_pattern(settings),
{
    match settings {
        Some(s) => {
            let show_seconds = match s.show_seconds {
                Some(b) => b,
                None => false,
            };
            match &s.date_format {
                Some(format) => resolve_date_format(Some(format.as_str()), show_seconds),
                None => resolve_date_format(None, show_seconds),
            }
        },
        None => String::from_str(DATE_ONLY_PATTERN),
    }
}

/// Converter that writes the civil date by the user's pattern.
pub struct GregorianCalendar;

impl Calendar for GregorianCalendar {
    open spec fn converted(
        &self,
        date: &CivilDateTime,
        settings: Option<&UserSettings>,
    ) -> Option<CalendarText> {
        formatted_entry_text("Gregorian"@, strftime_text(*date, gregorian_pattern(settings)))
    }

    fn convert(&self, date: &CivilDateTime, settings: Option<&UserSettings>) -> (result: Option<
        CalendarDate,
    >) {
        let format_str = pattern_for(settings);
        formatted_entry("Gregorian", format_moment(date, format_str.as_str()))
    }
}

} // verus!
