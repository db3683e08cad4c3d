//! Rendering a moment by a strftime pattern, which is left to chrono.

use crate::civil::{CivilDate, CivilDateTime, MAX_YEAR, MIN_YEAR};
use crate::models::optional_text;
use crate::text::{decimal_digits, digit_char};
use chrono::{FixedOffset, NaiveDate, NaiveTime, TimeZone};
use std::fmt::Write;
use vstd::prelude::*;

verus! {

/// The pattern for the month by name and the day of the month.
pub const MONTH_DAY_PATTERN: &'static str = "%B %d";

/// The pattern for the month by name, the day of the month and the year.
pub const LONG_DATE_PATTERN: &'static str = "%B %d, %Y";

/// The names that `%B` stands for, January first.
pub const ENGLISH_MONTHS: [&'static str; 12] = [
    "January",
    "February",
    "March",
    "April",
    "May",
    "June",
    "July",
    "August",
    "September",
    "October",
    "November",
    "December",
];

/// What `%d` stands for: the day of the month in two digits.
pub open spec fn two_digit_text(n: int) -> Seq<char> {
    seq![digit_char(n / 10), digit_char(n % 10)]
}

/// The digits of `n`, with zeros in front of fewer than four.
pub open spec fn four_digit_text(n: nat) -> Seq<char> {
    if n < 10 {
        "000"@ + decimal_digits(n)
    } else if n < 100 {
        "00"@ + decimal_digits(n)
    } else if n < 1000 {
        "0"@ + decimal_digits(n)
    } else {
        decimal_digits(n)
    }
}

/// What `%Y` stands for, for a year up to 9999: the year in four digits or
/// more, with a minus sign in front of a year before 0.
pub open spec fn year_text(year: int) -> Seq<char> {
    if year < 0 {
        "-"@ + four_digit_text((-year) as nat)
    } else {
        four_digit_text(year as nat)
    }
}

/// What [`MONTH_DAY_PATTERN`] gives for a date: "January 01".
pub open spec fn month_day_text(date: CivilDate) -> Seq<char> {
    ENGLISH_MONTHS@[date.month - 1]@ + " "@ + two_digit_text(date.day as int)
}

/// What [`LONG_DATE_PATTERN`] gives for a date: "January 01, 2024".
pub open spec fn long_date_text(date: CivilDate) -> Seq<char> {
    month_day_text(date) + ", "@ + year_text(date.year as int)
}

/// A moment that chrono can hold for certain: an existing date of the
/// supported years or of the year before them, with a valid time and
/// offset.
pub open spec fn formattable(moment: CivilDateTime) -> bool {
    &&& moment.date.is_valid()
    &&& MIN_YEAR - 1 <= moment.date.year <= MAX_YEAR
    &&& moment.time_is_valid()
}

/// The text that chrono writes for `moment` under the strftime pattern
/// `pattern`, or `None` where it writes none: the pattern holds a specifier
/// that chrono does not know, or `moment` is no date, time and offset that
/// chrono can hold.
///
/// The patterns are a language of their own, and a pattern may ask for what
/// chrono computes, such as the weekday. So the text has a name here and no
/// definition, but for the two patterns above, which write fields of the
/// date as they are.
pub uninterp spec fn strftime_text(moment: CivilDateTime, pattern: Seq<char>) -> Option<Seq<char>>;

/// Formats `moment` with chrono.
///
/// The body makes a `DateTime<FixedOffset>` of the fields of `moment`, by
/// `NaiveDate::from_ymd_opt`, `NaiveTime::from_hms_nano_opt`,
/// `FixedOffset::east_opt` and `TimeZone::from_local_datetime`, and writes
/// what `DateTime::format` gives for `pattern`. Verus does not read the body.
/// The contract claims of chrono:
///
/// - that what is written, or that nothing is, depends on those fields and
///   on the pattern alone: chrono reads neither the clock nor the
///   environment on the way, and `format` takes no locale;
/// - that a formattable moment is written under the two patterns named
///   above as chrono documents `%B`, `%d` and `%Y`: the month by its English
///   name, the day in two digits, the year in four digits or more with a
///   minus sign before 0, and what stands between the specifiers as it
///   stands.
#[verifier::external_body]
pub(crate) fn format_moment(moment: &CivilDateTime, pattern: &str) -> (text: Option<String>)
    ensures
        optional_text(text) == strftime_text(*moment, pattern@),
        formattable(*moment) && pattern@ == MONTH_DAY_PATTERN@ ==> optional_text(text) == Some(
            month_day_text(moment.date),
        ),
        formattable(*moment) && pattern@ == LONG_DATE_PATTERN@ ==> optional_text(text) == Some(
            long_date_text(moment.date),
        ),
{
    let date = NaiveDate::from_ymd_opt(moment.date.year, moment.date.month, moment.date.day)?;
    let time =
        NaiveTime::from_hms_nano_opt(moment.hour, moment.minute, moment.second, moment.nanosecond)?;
    let zone = FixedOffset::east_opt(moment.utc_offset_seconds)?;
    let stamp = zone.from_local_datetime(&date.and_time(time)).single()?;
    let mut text = String::new();
    match write!(text, "{}", stamp.format(pattern)) {
        Ok(()) => Some(text),
        Err(_) => None,
    }
}

} // verus!
