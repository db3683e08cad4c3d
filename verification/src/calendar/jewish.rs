//! The Hebrew calendar: the months of a year, and the conversion of a civil
//! date into a day of a month in English and in Hebrew.

use crate::calendar::hebrew_year::{
    hebrew_calendar_elapsed_days, hebrew_year_containing, hebrew_year_days, hebrew_year_length,
    hebrew_year_start, is_hebrew_leap, is_jewish_leap_year, is_regular_year_length,
    lemma_containing_year_unique, lemma_hebrew_year_length, lemma_hebrew_years_around,
    year_contains,
};
use crate::calendar::Calendar;
use crate::civil::{
    absolute_from_gregorian, lemma_day_of_year_bounds, CivilDate, CivilDateTime,
};
use crate::models::{CalendarDate, CalendarText, UserSettings};
use crate::text::{
    decimal_digits, decimal_text, push_decimal, push_decimal_digits, unsigned_decimal_string,
};
use std::collections::HashMap;
use vstd::prelude::*;
use vstd::string::*;

verus! {

broadcast use vstd::std_specs::hash::group_hash_axioms;

/// Hebrew letter-numerals for 1 to 30. Fifteen and sixteen are written as
/// nine and six, nine and seven: by tradition, not as ten and five, ten and
/// six, which would spell a divine name.
pub const HEBREW_NUMERALS: [&'static str; 30] = [
    "א׳",
    "ב׳",
    "ג׳",
    "ד׳",
    "ה׳",
    "ו׳",
    "ז׳",
    "ח׳",
    "ט׳",
    "י׳",
    "י״א",
    "י״ב",
    "י״ג",
    "י״ד",
    "ט״ו",
    "ט״ז",
    "י״ז",
    "י״ח",
    "י״ט",
    "כ׳",
    "כ״א",
    "כ״ב",
    "כ״ג",
    "כ״ד",
    "כ״ה",
    "כ״ו",
    "כ״ז",
    "כ״ח",
    "כ״ט",
    "ל׳",
];

/// The Hebrew numeral of `n`: a letter-numeral for 1 to 30, plain decimal
/// digits for any other number.
pub open spec fn hebrew_numeral_text(n: int) -> Seq<char> {
    if 1 <= n <= 30 {
        HEBREW_NUMERALS@[n - 1]@
    } else {
        decimal_digits(n as nat)
    }
}

/// Writes [`hebrew_numeral_text`].
pub fn hebrew_numeral(n: u32) -> (numeral: String)
    ensures
        numeral@ == hebrew_numeral_text(n as int),
{
    if 1 <= n && n <= 30 {
        String::from_str(HEBREW_NUMERALS[(n - 1) as usize])
    } else {
        unsigned_decimal_string(n as u64)
    }
}

/// One month of a Hebrew year: its length in days and its two names.
pub struct MonthEntry {
    pub length: int,
    pub english: Seq<char>,
    pub hebrew: Seq<char>,
}

/// The entry that a row of the month table stands for.
pub open spec fn month_entry(row: (u32, &'static str, &'static str)) -> MonthEntry {
    MonthEntry { length: row.0 as int, english: row.1@, hebrew: row.2@ }
}

/// The entries that the rows of a month table stand for, in order.
pub open spec fn month_entries(rows: Seq<(u32, &'static str, &'static str)>) -> Seq<MonthEntry> {
    Seq::new(rows.len(), |i: int| month_entry(rows[i]))
}

/// Length of Cheshvan in a year of `year_length` days: 30 in a full year,
/// else 29.
pub open spec fn cheshvan_length(year_length: int) -> int {
    if year_length == 355 || year_length == 385 {
        30
    } else {
        29
    }
}

/// Length of Kislev in a year of `year_length` days: 29 in a deficient year,
/// else 30.
pub open spec fn kislev_length(year_length: int) -> int {
    if year_length == 353 || year_length == 383 {
        29
    } else {
        30
    }
}

/// The months from Tishrei to Shevat.
pub open spec fn autumn_months(year_length: int) -> Seq<MonthEntry> {
    seq![
        MonthEntry { length: 30, english: "Tishrei"@, hebrew: "תשרי"@ },
        MonthEntry {
            length: cheshvan_length(year_length),
            english: "Cheshvan"@,
            hebrew: "חשון"@,
        },
        MonthEntry { length: kislev_length(year_length), english: "Kislev"@, hebrew: "כסלו"@ },
        MonthEntry { length: 29, english: "Tevet"@, hebrew: "טבת"@ },
        MonthEntry { length: 30, english: "Shevat"@, hebrew: "שבט"@ },
    ]
}

/// Adar: one month in a common year, two in a leap year.
pub open spec fn adar_months(leap: bool) -> Seq<MonthEntry> {
    if leap {
        seq![
            MonthEntry { length: 30, english: "Adar I"@, hebrew: "אדר א׳"@ },
            MonthEntry { length: 29, english: "Adar II"@, hebrew: "אדר ב׳"@ },
        ]
    } else {
        seq![MonthEntry { length: 29, english: "Adar"@, hebrew: "אדר"@ }]
    }
}

/// The months from Nisan to Elul.
pub open spec fn summer_months() -> Seq<MonthEntry> {
    seq![
        MonthEntry { length: 30, english: "Nisan"@, hebrew: "ניסן"@ },
        MonthEntry { length: 29, english: "Iyar"@, hebrew: "אייר"@ },
        MonthEntry { length: 30, english: "Sivan"@, hebrew: "סיון"@ },
        MonthEntry { length: 29, english: "Tammuz"@, hebrew: "תמוז"@ },
        MonthEntry { length: 30, english: "Av"@, hebrew: "אב"@ },
        MonthEntry { length: 29, english: "Elul"@, hebrew: "אלול"@ },
    ]
}

/// The months of the Hebrew year `year`, from Tishrei on: twelve in a common
/// year, thirteen in a leap year.
pub open spec fn hebrew_month_table(year: int) -> Seq<MonthEntry> {
    autumn_months(hebrew_year_length(year)) + adar_months(is_hebrew_leap(year)) + summer_months()
}

/// Days of the year that lie before the month at `index` of `table`.
pub open spec fn days_before_entry(table: Seq<MonthEntry>, index: int) -> int
    decreases index,
{
    if index <= 0 {
        0
    } else {
        days_before_entry(table, index - 1) + table[index - 1].length
    }
}

/// Sum of the lengths of all months of `table`.
pub open spec fn table_days(table: Seq<MonthEntry>) -> int {
    days_before_entry(table, table.len() as int)
}

/// Builds [`hebrew_month_table`]: one row for each month, with its length,
/// its English name and its Hebrew name.
pub fn get_hebrew_month_lengths(year: i32) -> (months: Vec<(u32, &'static str, &'static str)>)
    ensures
        month_entries(months@) == hebrew_month_table(year as int),
{
    let is_leap = is_jewish_leap_year(year);
    let days_in_year: i64 = hebrew_year_days(year);
    let cheshvan_len: u32 = if days_in_year == 355 || days_in_year == 385 {
        30
    } else {
        29
    };
    let kislev_len: u32 = if days_in_year == 353 || days_in_year == 383 {
        29
    } else {
        30
    };
    let mut months: Vec<(u32, &'static str, &'static str)> = Vec::new();
    months.push((30, "Tishrei", "תשרי"));
    months.push((cheshvan_len, "Cheshvan", "חשון"));
    months.push((kislev_len, "Kislev", "כסלו"));
    months.push((29, "Tevet", "טבת"));
    months.push((30, "Shevat", "שבט"));
    if is_leap {
        months.push((30, "Adar I", "אדר א׳"));
        months.push((29, "Adar II", "אדר ב׳"));
    } else {
        months.push((29, "Adar", "אדר"));
    }
    months.push((30, "Nisan", "ניסן"));
    months.push((29, "Iyar", "אייר"));
    months.push((30, "Sivan", "סיון"));
    months.push((29, "Tammuz", "תמוז"));
    months.push((30, "Av", "אב"));
    months.push((29, "Elul", "אלול"));
    assert(month_entries(months@) =~= hebrew_month_table(year as int));
    months
}

/// In a year of regular length the months add up to the year.
pub proof fn lemma_month_table_sum(year: int)
    requires
        is_regular_year_length(hebrew_year_length(year)),
    ensures
        table_days(hebrew_month_table(year)) == hebrew_year_length(year),
{
    lemma_hebrew_year_length(year);
    reveal_with_fuel(days_before_entry, 14);
}

/// The months of any year add up to 353, 354 or 355 days in a common year
/// and to 383, 384 or 385 days in a leap year.
pub proof fn lemma_month_table_bounds(year: int)
    ensures
        hebrew_month_table(year).len() == if is_hebrew_leap(year) {
            13nat
        } else {
            12nat
        },
        is_regular_year_length(table_days(hebrew_month_table(year))),
        is_hebrew_leap(year) <==> table_days(hebrew_month_table(year)) >= 383,
{
    reveal_with_fuel(days_before_entry, 14);
}

/// Index of the month of `table` in which the day `day_of_year` falls, days
/// counted from 0.
pub open spec fn month_index_at(table: Seq<MonthEntry>, day_of_year: int) -> int {
    choose|index: int| month_contains(table, index, day_of_year)
}

/// Whether the day `day_of_year` falls within the month at `index` of
/// `table`.
pub open spec fn month_contains(table: Seq<MonthEntry>, index: int, day_of_year: int) -> bool {
    0 <= index < table.len() && days_before_entry(table, index) <= day_of_year
        < days_before_entry(table, index + 1)
}

/// How a day of a month is written: the day, the month and the year in
/// English, then the day and the month in Hebrew.
pub open spec fn hebrew_day_text(day: int, english: Seq<char>, hebrew: Seq<char>, year: int) -> Seq<
    char,
> {
    decimal_text(day) + " "@ + english + " "@ + decimal_text(year) + " ("@ + hebrew_numeral_text(
        day,
    ) + " "@ + hebrew + ")"@
}

/// Writes [`hebrew_day_text`].
pub fn hebrew_day_string(day: u32, english: &str, hebrew: &str, year: i32) -> (text: String)
    ensures
        text@ == hebrew_day_text(day as int, english@, hebrew@, year as int),
{
    let heb_day = hebrew_numeral(day);
    let mut text = String::new();
    push_decimal_digits(&mut text, day as u64);
    text.append(" ");
    text.append(english);
    text.append(" ");
    push_decimal(&mut text, year as i64);
    text.append(" (");
    text.append(heb_day.as_str());
    text.append(" ");
    text.append(hebrew);
    text.append(")");
    assert(text@ =~= hebrew_day_text(day as int, english@, hebrew@, year as int));
    text
}

/// What is written for a day that lies beyond the last month of its year.
pub open spec fn beyond_year_text(day_of_year: int) -> Seq<char> {
    "Date beyond year boundary: "@ + decimal_text(day_of_year) + " days since Rosh Hashanah"@
}

/// Writes [`beyond_year_text`].
pub fn beyond_year_string(day_of_year: u32) -> (text: String)
    ensures
        text@ == beyond_year_text(day_of_year as int),
{
    let mut text = String::from_str("Date beyond year boundary: ");
    push_decimal_digits(&mut text, day_of_year as u64);
    text.append(" days since Rosh Hashanah");
    text
}

/// The Hebrew date of the absolute day `abs`, as text.
///
/// The day is placed in the months of the year within which it falls. Where
/// the year is longer than its months together, which takes a common year of
/// 357 days, its last days are beyond the table and are written as such.
pub open spec fn hebrew_date_text(abs: int) -> Seq<char> {
    let year = hebrew_year_containing(abs);
    let day_of_year = abs - hebrew_year_start(year);
    let table = hebrew_month_table(year);
    if day_of_year < table_days(table) {
        let index = month_index_at(table, day_of_year);
        hebrew_day_text(
            day_of_year - days_before_entry(table, index) + 1,
            table[index].english,
            table[index].hebrew,
            year,
        )
    } else {
        beyond_year_text(day_of_year)
    }
}

/// The entry for the Hebrew date of the civil date `date`.
pub open spec fn hebrew_entry_text(date: CivilDate) -> CalendarText {
    CalendarText {
        system: "Jewish"@,
        date: hebrew_date_text(date.absolute()),
        additional_info: None,
    }
}

/// A day lies beyond the months of its year only in a year of 357 days, of
/// which it is then one of the last three. In every other year each day has
/// a month.
pub proof fn lemma_days_beyond_the_months(year: int, abs: int)
    requires
        year_contains(year, abs),
    ensures
        abs - hebrew_year_start(year) >= table_days(hebrew_month_table(year)) <==> (
        hebrew_year_length(year) == 357 && abs - hebrew_year_start(year) >= 354),
{
    lemma_hebrew_year_length(year);
    lemma_month_table_bounds(year);
    if is_regular_year_length(hebrew_year_length(year)) {
        lemma_month_table_sum(year);
    } else {
        lemma_irregular_year_table(year);
    }
}

/// The months of a year of irregular length add up to 354 days.
pub proof fn lemma_irregular_year_table(year: int)
    requires
        !is_regular_year_length(hebrew_year_length(year)),
    ensures
        table_days(hebrew_month_table(year)) == 354,
{
    lemma_hebrew_year_length(year);
    reveal_with_fuel(days_before_entry, 14);
}

/// The months of a table begin one after another.
proof fn lemma_days_before_entry_increases(table: Seq<MonthEntry>, a: int, b: int)
    requires
        0 <= a <= b <= table.len(),
        forall|i: int| 0 <= i < table.len() ==> table[i].length >= 0,
    ensures
        days_before_entry(table, a) <= days_before_entry(table, b),
    decreases b - a,
{
    if a < b {
        lemma_days_before_entry_increases(table, a, b - 1);
    }
}

/// A day falls within one month of a table only.
proof fn lemma_month_index_unique(table: Seq<MonthEntry>, day_of_year: int, index: int)
    requires
        forall|i: int| 0 <= i < table.len() ==> table[i].length >= 0,
        month_contains(table, index, day_of_year),
    ensures
        month_index_at(table, day_of_year) == index,
        day_of_year < table_days(table),
{
    let found = month_index_at(table, day_of_year);
    assert(month_contains(table, found, day_of_year));
    if found < index {
        lemma_days_before_entry_increases(table, found + 1, index);
    }
    if index < found {
        lemma_days_before_entry_increases(table, index + 1, found);
    }
    lemma_days_before_entry_increases(table, index + 1, table.len() as int);
}

/// Converter to the Hebrew calendar. It remembers the year starts that it
/// has computed.
pub struct JewishCalendar {
    rosh_hashanah_cache: HashMap<i32, i64>,
}

impl JewishCalendar {
    /// Every remembered year start is the true one.
    #[verifier::type_invariant]
    spec fn cache_is_sound(&self) -> bool {
        forall|year: i32| #[trigger]
            self.rosh_hashanah_cache@.contains_key(year) ==> self.rosh_hashanah_cache@[year]
                == hebrew_year_start(year as int)
    }

    /// The years whose start is remembered.
    pub closed spec fn cached_years(&self) -> Set<i32> {
        self.rosh_hashanah_cache@.dom()
    }

    /// A converter that remembers nothing yet.
    pub fn new() -> (calendar: Self)
        ensures
            calendar.cached_years() == Set::<i32>::empty(),
    {
        JewishCalendar { rosh_hashanah_cache: HashMap::new() }
    }

    /// The absolute day of 1 Tishrei of `year`: remembered if it is known,
    /// else computed and remembered.
    pub fn rosh_hashanah(&mut self, year: i32) -> (start: i64)
        ensures
            start == hebrew_year_start(year as int),
            final(self).cached_years() == old(self).cached_years().insert(year),
    {
        proof {
            use_type_invariant(&*self);
        }
        if let Some(known) = self.rosh_hashanah_cache.get(&year) {
            let start = *known;
            assert(self.cached_years() =~= old(self).cached_years().insert(year));
            return start;
        }
        let start = hebrew_calendar_elapsed_days(year);
        let mut cache: HashMap<i32, i64> = HashMap::new();
        std::mem::swap(&mut self.rosh_hashanah_cache, &mut cache);
        cache.insert(year, start);
        std::mem::swap(&mut self.rosh_hashanah_cache, &mut cache);
        start
    }

    /// The Hebrew date of a civil date, as text. The starts of the two years
    /// that the date can fall in are remembered afterwards.
    #[verifier::rlimit(30)]
    pub fn to_jewish_date(&mut self, gregorian: CivilDate) -> (text: String)
        requires
            gregorian.wf(),
        ensures
            text@ == hebrew_date_text(gregorian.absolute()),
            final(self).cached_years() == old(self).cached_years().insert(
                (gregorian.year + 3760) as i32,
            ).insert((gregorian.year + 3761) as i32),
    {
        let abs: i64 = absolute_from_gregorian(gregorian.year, gregorian.month, gregorian.day);
        let mut year: i32 = gregorian.year + 3760;
        let mut rh_abs: i64 = self.rosh_hashanah(year);
        proof {
            lemma_hebrew_years_around(gregorian.year as int);
            lemma_day_of_year_bounds(gregorian);
        }
        if abs < rh_abs {
            // Not taken within the supported years, where the estimated year
            // has always begun by 1 January: `lemma_hebrew_years_around`.
            year = year - 1;
            rh_abs = self.rosh_hashanah(year);
        } else {
            let next_rh_abs: i64 = self.rosh_hashanah(year + 1);
            if abs >= next_rh_abs {
                year = year + 1;
                rh_abs = next_rh_abs;
            }
        }
        proof {
            lemma_containing_year_unique(abs as int, year as int);
            lemma_hebrew_year_length(year as int);
        }
        let day_of_year: u32 = (abs - rh_abs) as u32;
        let months = get_hebrew_month_lengths(year);
        let ghost table = hebrew_month_table(year as int);
        proof {
            lemma_month_table_bounds(year as int);
        }
        assert(forall|i: int| 0 <= i < table.len() ==> 29 <= #[trigger] table[i].length <= 30);
        let mut rem: u32 = day_of_year;
        let mut index: usize = 0;
        while index < months.len()
            invariant
                index <= months.len(),
                month_entries(months@) == table,
                table == hebrew_month_table(year as int),
                hebrew_year_containing(gregorian.absolute()) == year,
                day_of_year == gregorian.absolute() - hebrew_year_start(year as int),
                self.cached_years() == old(self).cached_years().insert(
                    (gregorian.year + 3760) as i32,
                ).insert((gregorian.year + 3761) as i32),
                forall|i: int| 0 <= i < table.len() ==> 29 <= #[trigger] table[i].length <= 30,
                rem + days_before_entry(table, index as int) == day_of_year,
            decreases months.len() - index,
        {
            let (len, eng, heb) = months[index];
            assert(month_entry(months@[index as int]) == table[index as int]);
            if rem < len {
                proof {
                    lemma_month_index_unique(table, day_of_year as int, index as int);
                }
                return hebrew_day_string(rem + 1, eng, heb, year);
            }
            rem = rem - len;
            index = index + 1;
        }
        beyond_year_string(day_of_year)
    }
}

/// Two converters give the same entry for the same date, whatever either of
/// them remembers and whatever the settings are.
pub proof fn lemma_conversion_ignores_cache(
    first: &JewishCalendar,
    second: &JewishCalendar,
    date: &CivilDateTime,
    first_settings: Option<&UserSettings>,
    second_settings: Option<&UserSettings>,
)
    ensures
        first.converted(date, first_settings) == second.converted(date, second_settings),
{
}

impl Calendar for JewishCalendar {
    open spec fn converted(
        &self,
        date: &CivilDateTime,
        settings: Option<&UserSettings>,
    ) -> Option<CalendarText> {
        Some(hebrew_entry_text(date.date))
    }

    fn convert(&self, date: &CivilDateTime, settings: Option<&UserSettings>) -> (result: Option<
        CalendarDate,
    >) {
        proof {
            use_type_invariant(self);
        }
        let mut tmp = JewishCalendar { rosh_hashanah_cache: self.rosh_hashanah_cache.clone() };
        let date_str = tmp.to_jewish_date(date.date);
        Some(
            CalendarDate {
                system: String::from_str("Jewish"),
                date: date_str,
                additional_info: None,
            },
        )
    }
}

} // verus!
