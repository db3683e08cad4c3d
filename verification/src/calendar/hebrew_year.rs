//! The start of a Hebrew year, from the mean new moon of its first month.
//!
//! The arithmetic follows the classical elapsed-days scheme. Time is counted
//! in parts, 1080 to the hour. The constants below encode one particular
//! historical model of the moon; changing any of them changes the dates.

use crate::civil::{
    days_before_year, floor_div, floor_mod, lemma_day_of_year_bounds,
    lemma_days_before_next_year, CivilDate, MAX_YEAR, MIN_YEAR,
};
use vstd::prelude::*;

verus! {

/// Offset from the internal day count to absolute days.
pub const HEBREW_EPOCH: i64 = -1_373_429;

/// Years in one Metonic cycle.
pub const CYCLE_YEARS: i64 = 19;

/// Months in one Metonic cycle: twelve common years and seven leap years.
pub const CYCLE_MONTHS: i64 = 235;

/// Months in a common year.
pub const COMMON_YEAR_MONTHS: i64 = 12;

/// Parts in a day: 24 hours of 1080 parts.
pub const PARTS_PER_DAY: i64 = 25_920;

/// Parts in an hour.
pub const PARTS_PER_HOUR: i64 = 1080;

/// Parts of the first new moon beyond its hour.
pub const FIRST_MOLAD_PARTS: i64 = 204;

/// Whole days in a lunar month.
pub const MONTH_DAYS: i64 = 29;

/// Hours of a lunar month beyond its whole days.
pub const MONTH_HOURS: i64 = 12;

/// Parts of a lunar month beyond its whole days and hours.
pub const MONTH_PARTS: i64 = 793;

/// A new moon at or after this many parts into the day is a late one: noon,
/// eighteen hours after the day began at nightfall.
pub const LATE_MOLAD: i64 = 19_440;

/// Threshold of the Tuesday rule: 9 hours and 204 parts.
pub const TUESDAY_LIMIT: i64 = 9_924;

/// Threshold of the Monday rule: 15 hours and 589 parts.
pub const MONDAY_LIMIT: i64 = 16_789;

/// A year is a leap year when it is the 3rd, 6th, 8th, 11th, 14th, 17th or
/// 19th of its cycle.
pub open spec fn is_hebrew_leap(year: int) -> bool {
    let r = year % 19;
    r == 0 || r == 3 || r == 6 || r == 8 || r == 11 || r == 14 || r == 17
}

/// Months that have gone by before the year `year` begins.
pub open spec fn months_elapsed(year: int) -> int {
    let y = year - 1;
    CYCLE_MONTHS * (y / 19) + COMMON_YEAR_MONTHS * (y % 19) + (7 * (y % 19) + 1) / 19
}

/// Parts that have gone by at the new moon of the year's first month.
pub open spec fn parts_elapsed(year: int) -> int {
    FIRST_MOLAD_PARTS + MONTH_PARTS * months_elapsed(year) + PARTS_PER_HOUR * (MONTH_HOURS
        * months_elapsed(year))
}

/// The day on which that new moon falls.
#[verifier::opaque]
pub open spec fn molad_day(year: int) -> int {
    1 + MONTH_DAYS * months_elapsed(year) + parts_elapsed(year) / (PARTS_PER_DAY as int)
}

/// How far into its day that new moon falls, in parts.
#[verifier::opaque]
pub open spec fn molad_parts(year: int) -> int {
    parts_elapsed(year) % (PARTS_PER_DAY as int)
}

/// The day on which a year begins whose new moon falls on `day`, `parts`
/// into that day. Four rules apply in turn, each to the day that the rule
/// before it left; the weekday of a day is its remainder by 7.
///
/// 1. A late new moon defers the year by a day.
/// 2. In a common year, weekday 2 with the new moon at or past the Tuesday
///    limit defers it by a day.
/// 3. After a leap year, weekday 1 with the new moon at or past the Monday
///    limit defers it by a day.
/// 4. No year begins on weekday 0, 3 or 5: such a day defers it once more.
#[verifier::opaque]
pub open spec fn postponed_day(day: int, parts: int, leap: bool, after_leap: bool) -> int {
    let first = if parts >= LATE_MOLAD {
        day + 1
    } else {
        day
    };
    let second = if first % 7 == 2 && parts >= TUESDAY_LIMIT && !leap {
        first + 1
    } else {
        first
    };
    let third = if second % 7 == 1 && parts >= MONDAY_LIMIT && after_leap {
        second + 1
    } else {
        second
    };
    if third % 7 == 0 || third % 7 == 3 || third % 7 == 5 {
        third + 1
    } else {
        third
    }
}

/// The absolute day on which the Hebrew year `year` begins.
#[verifier::opaque]
pub open spec fn hebrew_year_start(year: int) -> int {
    HEBREW_EPOCH + postponed_day(
        molad_day(year),
        molad_parts(year),
        is_hebrew_leap(year),
        is_hebrew_leap(year - 1),
    ) + 1
}

/// Number of days in the Hebrew year `year`.
pub open spec fn hebrew_year_length(year: int) -> int {
    hebrew_year_start(year + 1) - hebrew_year_start(year)
}

/// Tests whether the Hebrew year `year` is a leap year.
pub fn is_jewish_leap_year(year: i32) -> (r: bool)
    ensures
        r == is_hebrew_leap(year as int),
{
    is_leap_wide(year as i64)
}

fn is_leap_wide(year: i64) -> (r: bool)
    ensures
        r == is_hebrew_leap(year as int),
{
    let r: i64 = floor_mod(year, CYCLE_YEARS);
    r == 0 || r == 3 || r == 6 || r == 8 || r == 11 || r == 14 || r == 17
}

#[verifier::rlimit(30)]
fn year_start_wide(year: i64) -> (start: i64)
    requires
        -0x1_0000_0000 <= year <= 0x1_0000_0000,
    ensures
        start == hebrew_year_start(year as int),
{
    proof {
        reveal(hebrew_year_start);
        reveal(molad_day);
        reveal(molad_parts);
        reveal(postponed_day);
    }
    let y: i64 = year - 1;
    let cycles: i64 = floor_div(y, CYCLE_YEARS);
    let year_in_cycle: i64 = floor_mod(y, CYCLE_YEARS);
    let months: i64 = CYCLE_MONTHS * cycles + COMMON_YEAR_MONTHS * year_in_cycle + (7
        * year_in_cycle + 1) / 19;
    let parts_total: i64 = FIRST_MOLAD_PARTS + MONTH_PARTS * months + PARTS_PER_HOUR * (MONTH_HOURS
        * months);
    let mut day: i64 = 1 + MONTH_DAYS * months + floor_div(parts_total, PARTS_PER_DAY);
    let parts: i64 = floor_mod(parts_total, PARTS_PER_DAY);
    if parts >= LATE_MOLAD {
        day = day + 1;
    }
    let mut day_of_week: i64 = floor_mod(day, 7);
    if day_of_week == 2 && parts >= TUESDAY_LIMIT && !is_leap_wide(year) {
        day = day + 1;
        day_of_week = floor_mod(day, 7);
    }
    if day_of_week == 1 && parts >= MONDAY_LIMIT && is_leap_wide(year - 1) {
        day = day + 1;
        day_of_week = floor_mod(day, 7);
    }
    if day_of_week == 0 || day_of_week == 3 || day_of_week == 5 {
        day = day + 1;
    }
    HEBREW_EPOCH + day + 1
}

/// Computes [`hebrew_year_start`]: the absolute day of 1 Tishrei of `year`.
pub fn hebrew_calendar_elapsed_days(year: i32) -> (start: i64)
    ensures
        start == hebrew_year_start(year as int),
{
    year_start_wide(year as i64)
}

/// Computes [`hebrew_year_length`].
pub fn hebrew_year_days(year: i32) -> (length: i64)
    ensures
        length == hebrew_year_length(year as int),
        352 <= length <= 385,
{
    proof {
        lemma_hebrew_year_length(year as int);
    }
    year_start_wide(year as i64 + 1) - year_start_wide(year as i64)
}

/// A leap year has thirteen months, a common year twelve.
pub proof fn lemma_months_in_year(year: int)
    ensures
        months_elapsed(year + 1) - months_elapsed(year) == if is_hebrew_leap(year) {
            13int
        } else {
            12int
        },
{
    let y = year - 1;
    let r = y % 19;
    assert(year % 19 == (r + 1) % 19);
    if r == 18 {
        assert((y + 1) / 19 == y / 19 + 1);
        assert((y + 1) % 19 == 0);
    } else {
        assert((y + 1) / 19 == y / 19);
        assert((y + 1) % 19 == r + 1);
    }
}

/// Lengths of a common year, from the new moons at its two ends. Twelve
/// lunar months are 354 days and 9516 parts.
#[verifier::rlimit(30)]
proof fn lemma_common_year_length(
    day: int,
    parts: int,
    next_day: int,
    next_parts: int,
    after_leap: bool,
    before_leap: bool,
)
    requires
        0 <= parts < 25920,
        after_leap || before_leap,
        next_day == day + 348 + (parts + 165036) / 25920,
        next_parts == (parts + 165036) % 25920,
    ensures
        352 <= postponed_day(next_day, next_parts, before_leap, false) - postponed_day(
            day,
            parts,
            false,
            after_leap,
        ) <= 357,
        postponed_day(next_day, next_parts, before_leap, false) - postponed_day(
            day,
            parts,
            false,
            after_leap,
        ) != 356,
{
    reveal(postponed_day);
    let w = day % 7;
    assert(next_day % 7 == (w + 5 + (parts + 165036) / 25920) % 7);
    assert((day + 1) % 7 == (w + 1) % 7);
    assert((day + 2) % 7 == (w + 2) % 7);
    assert((next_day + 1) % 7 == (next_day % 7 + 1) % 7);
    assert((next_day + 2) % 7 == (next_day % 7 + 2) % 7);
}

/// Lengths of a leap year, from the new moons at its two ends. Thirteen
/// lunar months are 383 days and 23269 parts.
#[verifier::rlimit(30)]
proof fn lemma_leap_year_length(day: int, parts: int, next_day: int, next_parts: int)
    requires
        0 <= parts < 25920,
        next_day == day + 377 + (parts + 178789) / 25920,
        next_parts == (parts + 178789) % 25920,
    ensures
        383 <= postponed_day(next_day, next_parts, false, true) - postponed_day(
            day,
            parts,
            true,
            false,
        ) <= 385,
{
    reveal(postponed_day);
    let w = day % 7;
    assert(next_day % 7 == (w + 6 + (parts + 178789) / 25920) % 7);
    assert((day + 1) % 7 == (w + 1) % 7);
    assert((day + 2) % 7 == (w + 2) % 7);
    assert((next_day + 1) % 7 == (next_day % 7 + 1) % 7);
    assert((next_day + 2) % 7 == (next_day % 7 + 2) % 7);
}

/// Leap years never follow one another, and every common year has a leap
/// year beside it.
pub proof fn lemma_leap_neighbours(year: int)
    ensures
        is_hebrew_leap(year) ==> !is_hebrew_leap(year - 1) && !is_hebrew_leap(year + 1),
        !is_hebrew_leap(year) ==> is_hebrew_leap(year - 1) || is_hebrew_leap(year + 1),
{
    let r = year % 19;
    assert((year + 1) % 19 == (r + 1) % 19);
    assert((year - 1) % 19 == (r + 18) % 19);
}

/// The new moon of the next year, from that of this year.
proof fn lemma_next_molad(year: int)
    ensures
        0 <= molad_parts(year) < 25920,
        is_hebrew_leap(year) ==> molad_day(year + 1) == molad_day(year) + 377 + (molad_parts(year)
            + 178789) / 25920,
        is_hebrew_leap(year) ==> molad_parts(year + 1) == (molad_parts(year) + 178789) % 25920,
        !is_hebrew_leap(year) ==> molad_day(year + 1) == molad_day(year) + 348 + (molad_parts(year)
            + 165036) / 25920,
        !is_hebrew_leap(year) ==> molad_parts(year + 1) == (molad_parts(year) + 165036) % 25920,
{
    reveal(molad_day);
    reveal(molad_parts);
    lemma_months_in_year(year);
    let m = months_elapsed(year);
    let m2 = months_elapsed(year + 1);
    assert(parts_elapsed(year) == 204 + 13753 * m);
    assert(parts_elapsed(year + 1) == 204 + 13753 * m2);
}

/// The length of a Hebrew year. A leap year has 383, 384 or 385 days. A
/// common year has 353, 354 or 355 days, or else 352 or 357.
pub proof fn lemma_hebrew_year_length(year: int)
    ensures
        is_hebrew_leap(year) ==> 383 <= hebrew_year_length(year) <= 385,
        !is_hebrew_leap(year) ==> 352 <= hebrew_year_length(year) <= 357 && hebrew_year_length(
            year,
        ) != 356,
{
    reveal(hebrew_year_start);
    lemma_leap_neighbours(year);
    lemma_next_molad(year);
    if is_hebrew_leap(year) {
        lemma_leap_year_length(
            molad_day(year),
            molad_parts(year),
            molad_day(year + 1),
            molad_parts(year + 1),
        );
    } else {
        lemma_common_year_length(
            molad_day(year),
            molad_parts(year),
            molad_day(year + 1),
            molad_parts(year + 1),
            is_hebrew_leap(year - 1),
            is_hebrew_leap(year + 1),
        );
    }
}

/// A Hebrew year has 353, 354, 355, 383, 384 or 385 days, unless it is one
/// of the common years that run to 352 or to 357 days.
pub proof fn lemma_regular_year_length(year: int)
    requires
        hebrew_year_length(year) != 352,
        hebrew_year_length(year) != 357,
    ensures
        is_regular_year_length(hebrew_year_length(year)),
{
    lemma_hebrew_year_length(year);
}

/// Every Hebrew year begins after the year before it.
pub proof fn lemma_year_start_increases(year: int)
    ensures
        hebrew_year_start(year + 1) > hebrew_year_start(year),
{
    lemma_hebrew_year_length(year);
}

/// Number of leap years among the `count` years that begin with `first`.
pub open spec fn leap_years_from(first: int, count: nat) -> nat
    decreases count,
{
    if count == 0 {
        0
    } else {
        let last: nat = if is_hebrew_leap(first + count - 1) {
            1
        } else {
            0
        };
        leap_years_from(first, (count - 1) as nat) + last
    }
}

/// Moving a window of nineteen years by one year keeps its number of leap
/// years: the year that leaves and the year that enters are alike.
proof fn lemma_leap_window_shift(first: int, count: nat)
    ensures
        leap_years_from(first + 1, count) + (if is_hebrew_leap(first) {
            1nat
        } else {
            0nat
        }) == leap_years_from(first, count) + (if is_hebrew_leap(first + count) {
            1nat
        } else {
            0nat
        }),
    decreases count,
{
    if count > 0 {
        lemma_leap_window_shift(first, (count - 1) as nat);
    }
}

/// The years 0 to 18 hold seven leap years: 0, 3, 6, 8, 11, 14 and 17.
proof fn lemma_leap_years_of_first_cycle()
    ensures
        leap_years_from(0, 19) == 7,
{
    assert(leap_years_from(0, 0) == 0);
    assert(leap_years_from(0, 1) == 1);
    assert(leap_years_from(0, 2) == 1);
    assert(leap_years_from(0, 3) == 1);
    assert(leap_years_from(0, 4) == 2);
    assert(leap_years_from(0, 5) == 2);
    assert(leap_years_from(0, 6) == 2);
    assert(leap_years_from(0, 7) == 3);
    assert(leap_years_from(0, 8) == 3);
    assert(leap_years_from(0, 9) == 4);
    assert(leap_years_from(0, 10) == 4);
    assert(leap_years_from(0, 11) == 4);
    assert(leap_years_from(0, 12) == 5);
    assert(leap_years_from(0, 13) == 5);
    assert(leap_years_from(0, 14) == 5);
    assert(leap_years_from(0, 15) == 6);
    assert(leap_years_from(0, 16) == 6);
    assert(leap_years_from(0, 17) == 6);
    assert(leap_years_from(0, 18) == 7);
}

/// Any nineteen consecutive years hold exactly seven leap years.
pub proof fn lemma_seven_leap_years_in_nineteen(first: int)
    ensures
        leap_years_from(first, 19) == 7,
    decreases
            if first >= 0 {
                first
            } else {
                -first
            },
{
    if first == 0 {
        lemma_leap_years_of_first_cycle();
    } else if first > 0 {
        lemma_seven_leap_years_in_nineteen(first - 1);
        lemma_leap_window_shift(first - 1, 19);
        assert((first - 1 + 19) % 19 == (first - 1) % 19);
    } else {
        lemma_seven_leap_years_in_nineteen(first + 1);
        lemma_leap_window_shift(first, 19);
        assert((first + 19) % 19 == first % 19);
    }
}

/// Whether a year can have `length` days under the rules of the calendar.
pub open spec fn is_regular_year_length(length: int) -> bool {
    length == 353 || length == 354 || length == 355 || length == 383 || length == 384 || length
        == 385
}

/// A year is 235/19 months long on average.
proof fn lemma_months_elapsed_bounds(year: int)
    ensures
        19 * months_elapsed(year) <= 235 * (year - 1) + 1 <= 19 * months_elapsed(year) + 18,
{
}

/// A month is 765433/25920 days long on average.
proof fn lemma_molad_day_bounds(year: int)
    ensures
        25920 * (molad_day(year) - 1) <= 204 + 765433 * months_elapsed(year),
        25920 * (molad_day(year) - 1) > 204 + 765433 * months_elapsed(year) - 25920,
{
    reveal(molad_day);
    let m = months_elapsed(year);
    assert(parts_elapsed(year) == 204 + 13753 * m);
}

/// The rules defer a year by three days at most.
proof fn lemma_postponed_day_bounds(day: int, parts: int, leap: bool, after_leap: bool)
    ensures
        day <= postponed_day(day, parts, leap, after_leap) <= day + 3,
{
    reveal(postponed_day);
}

/// The start of a year lies close to a straight line.
proof fn lemma_year_start_near_line(year: int)
    ensures
        492480 * (hebrew_year_start(year) - HEBREW_EPOCH - 5) <= 3876 + 765433 * (235 * (year - 1)
            + 1),
        492480 * (hebrew_year_start(year) - HEBREW_EPOCH - 1) > 3876 + 765433 * (235 * (year - 1)
            - 17) - 492480,
{
    reveal(hebrew_year_start);
    lemma_months_elapsed_bounds(year);
    lemma_molad_day_bounds(year);
    lemma_postponed_day_bounds(
        molad_day(year),
        molad_parts(year),
        is_hebrew_leap(year),
        is_hebrew_leap(year - 1),
    );
}

/// Within the supported range, the Hebrew year that is 3760 ahead of a civil
/// year begins before that civil year does, and the Hebrew year that is 3762
/// ahead begins after it has ended.
pub proof fn lemma_hebrew_years_around(civil_year: int)
    requires
        MIN_YEAR <= civil_year <= MAX_YEAR,
    ensures
        hebrew_year_start(civil_year + 3760) <= days_before_year(civil_year),
        days_before_year(civil_year + 1) < hebrew_year_start(civil_year + 3762),
{
    lemma_year_start_near_line(civil_year + 3760);
    lemma_year_start_near_line(civil_year + 3762);
}

/// An earlier year begins on an earlier day.
pub proof fn lemma_year_starts_ordered(a: int, b: int)
    requires
        a < b,
    ensures
        hebrew_year_start(a) < hebrew_year_start(b),
    decreases b - a,
{
    lemma_year_start_increases(b - 1);
    if a < b - 1 {
        lemma_year_starts_ordered(a, b - 1);
    }
}

/// Whether the absolute day `abs` falls within the Hebrew year `year`.
pub open spec fn year_contains(year: int, abs: int) -> bool {
    hebrew_year_start(year) <= abs < hebrew_year_start(year + 1)
}

/// The Hebrew year within which the absolute day `abs` falls.
pub open spec fn hebrew_year_containing(abs: int) -> int {
    choose|year: int| year_contains(year, abs)
}

/// A day falls within one Hebrew year only.
pub proof fn lemma_containing_year_unique(abs: int, year: int)
    requires
        year_contains(year, abs),
    ensures
        hebrew_year_containing(abs) == year,
{
    let found = hebrew_year_containing(abs);
    assert(year_contains(found, abs));
    if found < year {
        lemma_year_starts_ordered(found, year);
        if found + 1 < year {
            lemma_year_starts_ordered(found + 1, year);
        }
    }
    if year < found {
        lemma_year_starts_ordered(year, found);
        if year + 1 < found {
            lemma_year_starts_ordered(year + 1, found);
        }
    }
}

/// Every date of the supported range falls within a Hebrew year, which is
/// 3760 or 3761 ahead of its civil year.
pub proof fn lemma_hebrew_year_of_date(date: CivilDate)
    requires
        date.wf(),
    ensures
        year_contains(hebrew_year_containing(date.absolute()), date.absolute()),
        hebrew_year_containing(date.absolute()) == date.year + 3760 || hebrew_year_containing(
            date.absolute(),
        ) == date.year + 3761,
{
    lemma_hebrew_years_around(date.year as int);
    lemma_day_of_year_bounds(date);
    lemma_days_before_next_year(date.year as int);
    let abs = date.absolute();
    if abs < hebrew_year_start(date.year + 3761) {
        lemma_containing_year_unique(abs, date.year + 3760);
    } else {
        lemma_containing_year_unique(abs, date.year + 3761);
    }
}

} // verus!
