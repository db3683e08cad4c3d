//! The calendar converters and the contract that they share.

pub mod buddhist;
pub mod french_revolutionary;
pub mod gregorian;
pub mod hebrew_year;
pub mod jewish;
pub mod julian;

use crate::civil::CivilDateTime;
use crate::models::{
    optional_calendar_text, optional_text, CalendarDate, CalendarText, UserSettings,
};
use vstd::prelude::*;
use vstd::string::*;

verus! {

/// A calendar system into which a civil date and time can be converted.
pub trait Calendar {
    /// What [`Calendar::convert`] gives for `date` under `settings`.
    spec fn converted(
        &self,
        date: &CivilDateTime,
        settings: Option<&UserSettings>,
    ) -> Option<CalendarText>;

    /// Converts `date` for display. The result is `None` only where the
    /// formatter has no text for the date under the pattern in use.
    fn convert(&self, date: &CivilDateTime, settings: Option<&UserSettings>) -> (result: Option<
        CalendarDate,
    >)
        requires
            date.wf(),
        ensures
            optional_calendar_text(result) == self.converted(date, settings),
    ;
}

/// The entry of the calendar `system` whose date is the text `formatted`, or
/// none where there is no such text.
pub open spec fn formatted_entry_text(system: Seq<char>, formatted: Option<Seq<char>>) -> Option<
    CalendarText,
> {
    match formatted {
        Some(date) => Some(CalendarText { system, date, additional_info: None }),
        None => None,
    }
}

/// Makes the entry of the calendar `system` from what the formatter gave.
pub fn formatted_entry(system: &str, formatted: Option<String>) -> (entry: Option<CalendarDate>)
    ensures
        optional_calendar_text(entry) == formatted_entry_text(system@, optional_text(formatted)),
{
    match formatted {
        Some(date) => Some(
            CalendarDate { system: String::from_str(system), date, additional_info: None },
        ),
        None => None,
    }
}

} // verus!
