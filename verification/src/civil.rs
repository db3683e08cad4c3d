//! Civil (proleptic Gregorian) dates and absolute-day arithmetic.
//!
//! An absolute day is a signed count of days in which day 1 is 1 January of
//! year 1. Every calendar in this crate is computed from that count.

use vstd::prelude::*;

verus! {

/// First year of the supported range.
pub const MIN_YEAR: i32 = -9999;

/// Last year of the supported range.
pub const MAX_YEAR: i32 = 9999;

/// Absolute day of 1 January of the earliest year that an `i32` can hold.
pub const MIN_ABSOLUTE: i64 = -784_352_296_670;

/// Absolute day of 31 December of the latest year that an `i32` can hold.
pub const MAX_ABSOLUTE: i64 = 784_352_295_939;

/// The 4/100/400 rule.
pub open spec fn is_leap(year: int) -> bool {
    (year % 4 == 0 && year % 100 != 0) || year % 400 == 0
}

/// Length of a month. A month number outside 1..=12 counts as 30 days.
pub open spec fn month_length(year: int, month: int) -> int {
    if month == 1 || month == 3 || month == 5 || month == 7 || month == 8 || month == 10 || month
        == 12 {
        31
    } else if month == 2 {
        if is_leap(year) {
            29
        } else {
            28
        }
    } else {
        30
    }
}

/// Days of `year` that lie before the first day of `month`.
pub open spec fn days_before_month(year: int, month: int) -> int
    decreases month,
{
    if month <= 1 {
        0
    } else {
        days_before_month(year, month - 1) + month_length(year, month - 1)
    }
}

/// Days that lie before 1 January of `year`, counted from 1 January of year 1.
pub open spec fn days_before_year(year: int) -> int {
    365 * (year - 1) + (year - 1) / 4 - (year - 1) / 100 + (year - 1) / 400
}

/// Number of days in `year`.
pub open spec fn year_length(year: int) -> int {
    if is_leap(year) {
        366
    } else {
        365
    }
}

/// The absolute day of a civil date.
pub open spec fn absolute_day(year: int, month: int, day: int) -> int {
    day + days_before_month(year, month) + days_before_year(year)
}

/// Month in 1..=12 and day within that month.
pub open spec fn valid_civil(year: int, month: int, day: int) -> bool {
    1 <= month <= 12 && 1 <= day <= month_length(year, month)
}

/// A date of the proleptic Gregorian calendar.
#[derive(Clone, Copy, Debug, PartialEq, Eq, Structural)]
pub struct CivilDate {
    pub year: i32,
    pub month: u32,
    pub day: u32,
}

impl CivilDate {
    /// The month exists and the day lies within it.
    pub open spec fn is_valid(self) -> bool {
        valid_civil(self.year as int, self.month as int, self.day as int)
    }

    /// A valid date within the supported range of years.
    pub open spec fn wf(self) -> bool {
        self.is_valid() && MIN_YEAR <= self.year <= MAX_YEAR
    }

    /// The absolute day of this date.
    pub open spec fn absolute(self) -> int {
        absolute_day(self.year as int, self.month as int, self.day as int)
    }

    /// Tests whether the date is well formed.
    pub fn is_well_formed(&self) -> (ok: bool)
        ensures
            ok == self.wf(),
    {
        MIN_YEAR <= self.year && self.year <= MAX_YEAR && 1 <= self.month && self.month <= 12 && 1
            <= self.day && self.day <= days_in_gregorian_month(self.year, self.month)
    }
}

/// A civil date with the time of day and the local offset from UTC: the
/// wall-clock reading that the converters work from.
#[derive(Clone, Copy, Debug, PartialEq, Eq, Structural)]
pub struct CivilDateTime {
    pub date: CivilDate,
    pub hour: u32,
    pub minute: u32,
    pub second: u32,
    /// Nanoseconds past the second. A value of a thousand million or more
    /// marks a leap second, and goes with second 59 only.
    pub nanosecond: u32,
    /// Local time minus UTC, in seconds.
    pub utc_offset_seconds: i32,
}

impl CivilDateTime {
    /// The time of day exists and the offset is less than a day.
    pub open spec fn time_is_valid(self) -> bool {
        &&& self.hour < 24
        &&& self.minute < 60
        &&& self.second < 60
        &&& self.nanosecond < 2_000_000_000
        &&& (self.nanosecond >= 1_000_000_000 ==> self.second == 59)
        &&& -86_400 < self.utc_offset_seconds < 86_400
    }

    /// The date is well formed and the time and the offset are in range.
    pub open spec fn wf(self) -> bool {
        self.date.wf() && self.time_is_valid()
    }

    /// Tests whether the date, the time and the offset are well formed.
    pub fn is_well_formed(&self) -> (ok: bool)
        ensures
            ok == self.wf(),
    {
        self.date.is_well_formed() && self.hour < 24 && self.minute < 60 && self.second < 60
            && self.nanosecond < 2_000_000_000 && (self.nanosecond < 1_000_000_000 || self.second
            == 59) && -86_400 < self.utc_offset_seconds && self.utc_offset_seconds < 86_400
    }
}

/// Quotient rounded towards negative infinity.
pub fn floor_div(a: i64, b: i64) -> (q: i64)
    requires
        b > 0,
    ensures
        q == a as int / b as int,
{
    assert(i64::MIN <= a as int / b as int <= i64::MAX) by (nonlinear_arith)
        requires
            b > 0,
            i64::MIN <= a <= i64::MAX,
    ;
    match a.checked_div_euclid(b) {
        Some(q) => q,
        None => 0,
    }
}

/// Remainder that goes with [`floor_div`]; never negative.
pub fn floor_mod(a: i64, b: i64) -> (r: i64)
    requires
        b > 0,
    ensures
        r == a as int % b as int,
        0 <= r < b,
{
    assert(0 <= (a as int) % (b as int) && (a as int) % (b as int) < b) by (nonlinear_arith)
        requires
            b > 0,
    ;
    match a.checked_rem_euclid(b) {
        Some(r) => r,
        None => 0,
    }
}

/// Tests whether the civil year `year` is a leap year.
pub fn is_gregorian_leap_year(year: i32) -> (r: bool)
    ensures
        r == is_leap(year as int),
{
    let y: i64 = year as i64;
    (floor_mod(y, 4) == 0 && floor_mod(y, 100) != 0) || floor_mod(y, 400) == 0
}

/// Computes [`month_length`].
pub fn days_in_gregorian_month(year: i32, month: u32) -> (r: u32)
    ensures
        r == month_length(year as int, month as int),
        28 <= r <= 31,
{
    match month {
        1 | 3 | 5 | 7 | 8 | 10 | 12 => 31,
        4 | 6 | 9 | 11 => 30,
        2 => if is_gregorian_leap_year(year) {
            29
        } else {
            28
        },
        _ => 30,
    }
}

/// No month before `month` is longer than 31 days.
proof fn lemma_days_before_month_bounds(year: int, month: int)
    ensures
        0 <= days_before_month(year, month),
        month >= 1 ==> days_before_month(year, month) <= 31 * (month - 1),
    decreases month,
{
    if month > 1 {
        lemma_days_before_month_bounds(year, month - 1);
    }
}

/// Computes [`absolute_day`]. The count is defined for every month and day
/// number, though only a valid date stands for a day.
pub fn absolute_from_gregorian(year: i32, month: u32, day: u32) -> (n: i64)
    ensures
        n == absolute_day(year as int, month as int, day as int),
{
    let y: i64 = year as i64;
    let mut n: i64 = day as i64;
    let mut mm: u32 = 1;
    while mm < month
        invariant
            1 <= mm,
            mm <= month || mm == 1,
            n == day + days_before_month(year as int, mm as int),
            0 <= days_before_month(year as int, mm as int) <= 31 * (mm - 1),
        decreases month - mm,
    {
        proof {
            lemma_days_before_month_bounds(year as int, mm as int + 1);
        }
        n = n + days_in_gregorian_month(year, mm) as i64;
        mm = mm + 1;
    }
    n = n + 365 * (y - 1);
    n = n + floor_div(y - 1, 4);
    n = n - floor_div(y - 1, 100);
    n = n + floor_div(y - 1, 400);
    n
}

/// The valid date that falls on the absolute day `abs`.
pub open spec fn civil_from_absolute(abs: int) -> CivilDate {
    choose|d: CivilDate| d.is_valid() && d.absolute() == abs
}

/// Each year begins where the year before it ends.
pub proof fn lemma_days_before_next_year(year: int)
    ensures
        days_before_year(year + 1) == days_before_year(year) + year_length(year),
{
}

/// Later years begin on later days.
pub proof fn lemma_days_before_year_increases(a: int, b: int)
    requires
        a <= b,
    ensures
        days_before_year(a) + 365 * (b - a) <= days_before_year(b),
    decreases b - a,
{
    if a < b {
        lemma_days_before_year_increases(a, b - 1);
        lemma_days_before_next_year(b - 1);
    }
}

/// The months of a year add up to the length of the year, and each month
/// begins after the one before it.
pub proof fn lemma_days_before_month_values(year: int)
    ensures
        days_before_month(year, 1) == 0,
        days_before_month(year, 2) == 31,
        days_before_month(year, 3) == year_length(year) - 306,
        days_before_month(year, 4) == year_length(year) - 275,
        days_before_month(year, 5) == year_length(year) - 245,
        days_before_month(year, 6) == year_length(year) - 214,
        days_before_month(year, 7) == year_length(year) - 184,
        days_before_month(year, 8) == year_length(year) - 153,
        days_before_month(year, 9) == year_length(year) - 122,
        days_before_month(year, 10) == year_length(year) - 92,
        days_before_month(year, 11) == year_length(year) - 61,
        days_before_month(year, 12) == year_length(year) - 31,
        days_before_month(year, 13) == year_length(year),
{
    reveal_with_fuel(days_before_month, 14);
}

/// A valid date lies within its own year.
pub proof fn lemma_day_of_year_bounds(d: CivilDate)
    requires
        d.is_valid(),
    ensures
        days_before_year(d.year as int) < d.absolute() <= days_before_year(d.year as int)
            + year_length(d.year as int),
        d.day + days_before_month(d.year as int, d.month as int) <= days_before_month(
            d.year as int,
            d.month as int + 1,
        ),
{
    lemma_days_before_month_values(d.year as int);
}

/// Two valid dates on the same absolute day are the same date.
pub proof fn lemma_absolute_injective(a: CivilDate, b: CivilDate)
    requires
        a.is_valid(),
        b.is_valid(),
        a.absolute() == b.absolute(),
    ensures
        a == b,
{
    lemma_day_of_year_bounds(a);
    lemma_day_of_year_bounds(b);
    if a.year < b.year {
        lemma_days_before_next_year(a.year as int);
        lemma_days_before_year_increases(a.year as int + 1, b.year as int);
    }
    if b.year < a.year {
        lemma_days_before_next_year(b.year as int);
        lemma_days_before_year_increases(b.year as int + 1, a.year as int);
    }
    assert(a.year == b.year);
    lemma_days_before_month_values(a.year as int);
}

/// Taking a valid date to its absolute day and back gives the date again.
pub proof fn lemma_civil_round_trip(d: CivilDate)
    requires
        d.is_valid(),
    ensures
        civil_from_absolute(d.absolute()) == d,
{
    let back = civil_from_absolute(d.absolute());
    assert(back.is_valid() && back.absolute() == d.absolute());
    lemma_absolute_injective(back, d);
}

/// An earlier valid date has a smaller absolute day.
pub proof fn lemma_absolute_monotonic(a: CivilDate, b: CivilDate)
    requires
        a.is_valid(),
        b.is_valid(),
        a.year < b.year || (a.year == b.year && (a.month < b.month || (a.month == b.month && a.day
            < b.day))),
    ensures
        a.absolute() < b.absolute(),
{
    lemma_day_of_year_bounds(a);
    lemma_day_of_year_bounds(b);
    if a.year < b.year {
        lemma_days_before_next_year(a.year as int);
        lemma_days_before_year_increases(a.year as int + 1, b.year as int);
    } else {
        lemma_days_before_month_values(a.year as int);
    }
}

/// Finds the date that falls on the absolute day `abs`, which must be a day
/// of a year that an `i32` can hold.
///
/// The year is first estimated from the average length of a year. The
/// estimate is moved forward while the next year begins on or before `abs`;
/// the months of that year are then walked. Only for days some forty
/// thousand years before year 1 or earlier is the estimate too late, and
/// moved back first.
pub fn gregorian_from_absolute(abs: i64) -> (d: CivilDate)
    requires
        MIN_ABSOLUTE <= abs <= MAX_ABSOLUTE,
    ensures
        d.is_valid(),
        d.absolute() == abs,
        d == civil_from_absolute(abs as int),
{
    let estimate: i64 = floor_div(4 * (abs - 1) + 3, 1461);
    let mut year: i32 = estimate as i32;
    while absolute_from_gregorian(year, 1, 1) > abs
        invariant
            MIN_ABSOLUTE <= abs <= MAX_ABSOLUTE,
        decreases year - i32::MIN,
    {
        proof {
            lemma_first_year_begins_at_minimum();
            lemma_days_before_year_increases(i32::MIN as int, year as int);
        }
        year = year - 1;
    }
    while year < i32::MAX && absolute_from_gregorian(year + 1, 1, 1) <= abs
        invariant
            MIN_ABSOLUTE <= abs <= MAX_ABSOLUTE,
            days_before_year(year as int) < abs,
        decreases i32::MAX - year,
    {
        year = year + 1;
    }
    proof {
        lemma_days_before_month_values(year as int);
        lemma_days_before_next_year(year as int);
        lemma_last_year_ends_at_maximum();
    }
    let day_of_year: i64 = abs - absolute_from_gregorian(year, 1, 1) + 1;
    let mut m: u32 = 1;
    let mut day_remaining: u32 = day_of_year as u32;
    while day_remaining > days_in_gregorian_month(year, m)
        invariant
            1 <= m <= 12,
            1 <= day_remaining,
            day_remaining + days_before_month(year as int, m as int) == day_of_year,
            day_of_year <= year_length(year as int),
        decreases 12 - m,
    {
        proof {
            lemma_days_before_month_values(year as int);
        }
        day_remaining = day_remaining - days_in_gregorian_month(year, m);
        m = m + 1;
    }
    let d = CivilDate { year, month: m, day: day_remaining };
    proof {
        lemma_civil_round_trip(d);
    }
    d
}

/// [`MIN_ABSOLUTE`] is the first day of the earliest year.
proof fn lemma_first_year_begins_at_minimum()
    ensures
        days_before_year(i32::MIN as int) + 1 == MIN_ABSOLUTE,
{
}

/// [`MAX_ABSOLUTE`] is the last day of the latest year.
proof fn lemma_last_year_ends_at_maximum()
    ensures
        days_before_year(i32::MAX as int) + year_length(i32::MAX as int) == MAX_ABSOLUTE,
{
}

} // verus!
