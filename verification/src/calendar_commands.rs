//! Choosing converters by identifier and running them in the order asked
//! for.

use crate::calendar::buddhist::BuddhistCalendar;
use crate::calendar::french_revolutionary::FrenchRevolutionaryCalendar;
use crate::calendar::gregorian::GregorianCalendar;
use crate::calendar::jewish::{hebrew_entry_text, JewishCalendar};
use crate::calendar::julian::JulianCalendar;
use crate::calendar::Calendar;
use crate::civil::CivilDateTime;
use crate::models::{
    optional_calendar_text, texts, CalendarDate, CalendarText, UserSettings,
};
use vstd::prelude::*;
use vstd::string::*;

verus! {

/// The calendar systems that the library converts to.
#[derive(Clone, Copy, Debug, PartialEq, Eq, Structural)]
pub enum CalendarSystem {
    Gregorian,
    Julian,
    Buddhist,
    FrenchRevolutionary,
    Jewish,
}

/// The identifiers of all calendar systems, in the order in which they are
/// offered.
pub open spec fn available_identifiers() -> Seq<Seq<char>> {
    seq!["gregorian"@, "julian"@, "buddhist"@, "french_revolutionary"@, "jewish"@]
}

impl CalendarSystem {
    /// The identifier by which settings name this system.
    pub open spec fn identifier_text(self) -> Seq<char> {
        match self {
            CalendarSystem::Gregorian => "gregorian"@,
            CalendarSystem::Julian => "julian"@,
            CalendarSystem::Buddhist => "buddhist"@,
            CalendarSystem::FrenchRevolutionary => "french_revolutionary"@,
            CalendarSystem::Jewish => "jewish"@,
        }
    }

    /// The system that `identifier` names, if it names one.
    pub open spec fn named(identifier: Seq<char>) -> Option<CalendarSystem> {
        if identifier == "gregorian"@ {
            Some(CalendarSystem::Gregorian)
        } else if identifier == "julian"@ {
            Some(CalendarSystem::Julian)
        } else if identifier == "buddhist"@ {
            Some(CalendarSystem::Buddhist)
        } else if identifier == "french_revolutionary"@ {
            Some(CalendarSystem::FrenchRevolutionary)
        } else if identifier == "jewish"@ {
            Some(CalendarSystem::Jewish)
        } else {
            None
        }
    }

    /// What [`CalendarSystem::convert`] gives: what the system's own
    /// converter gives.
    pub open spec fn converted(
        self,
        date: &CivilDateTime,
        settings: Option<&UserSettings>,
    ) -> Option<CalendarText> {
        match self {
            CalendarSystem::Gregorian => GregorianCalendar.converted(date, settings),
            CalendarSystem::Julian => JulianCalendar.converted(date, settings),
            CalendarSystem::Buddhist => BuddhistCalendar.converted(date, settings),
            CalendarSystem::FrenchRevolutionary => FrenchRevolutionaryCalendar.converted(
                date,
                settings,
            ),
            CalendarSystem::Jewish => Some(hebrew_entry_text(date.date)),
        }
    }

    /// The identifier by which settings name this system.
    pub fn identifier(self) -> (id: &'static str)
        ensures
            id@ == self.identifier_text(),
    {
        match self {
            CalendarSystem::Gregorian => "gregorian",
            CalendarSystem::Julian => "julian",
            CalendarSystem::Buddhist => "buddhist",
            CalendarSystem::FrenchRevolutionary => "french_revolutionary",
            CalendarSystem::Jewish => "jewish",
        }
    }

    /// Finds the system that `identifier` names. Identifiers are matched as
    /// they stand: case and surrounding blanks count.
    pub fn from_identifier(identifier: &str) -> (system: Option<CalendarSystem>)
        ensures
            system == CalendarSystem::named(identifier@),
    {
        let id = String::from_str(identifier);
        if id == String::from_str("gregorian") {
            Some(CalendarSystem::Gregorian)
        } else if id == String::from_str("julian") {
            Some(CalendarSystem::Julian)
        } else if id == String::from_str("buddhist") {
            Some(CalendarSystem::Buddhist)
        } else if id == String::from_str("french_revolutionary") {
            Some(CalendarSystem::FrenchRevolutionary)
        } else if id == String::from_str("jewish") {
            Some(CalendarSystem::Jewish)
        } else {
            None
        }
    }

    /// Converts `date` with this system's converter.
    pub fn convert(self, date: &CivilDateTime, settings: Option<&UserSettings>) -> (result: Option<
        CalendarDate,
    >)
        requires
            date.wf(),
        ensures
            optional_calendar_text(result) == self.converted(date, settings),
    {
        match self {
            CalendarSystem::Gregorian => GregorianCalendar.convert(date, settings),
            CalendarSystem::Julian => JulianCalendar.convert(date, settings),
            CalendarSystem::Buddhist => BuddhistCalendar.convert(date, settings),
            CalendarSystem::FrenchRevolutionary => FrenchRevolutionaryCalendar.convert(
                date,
                settings,
            ),
            CalendarSystem::Jewish => {
                let calendar = JewishCalendar::new();
                calendar.convert(date, settings)
            },
        }
    }
}

/// Each system is the one that its own identifier names.
pub proof fn lemma_identifier_names_its_system(system: CalendarSystem)
    ensures
        CalendarSystem::named(system.identifier_text()) == Some(system),
{
    reveal_strlit("gregorian");
    reveal_strlit("julian");
    reveal_strlit("buddhist");
    reveal_strlit("french_revolutionary");
    reveal_strlit("jewish");
    assert("gregorian"@[0] == 'g');
    assert("julian"@[1] == 'u');
    assert("buddhist"@[0] == 'b');
    assert("french_revolutionary"@[0] == 'f');
    assert("jewish"@[1] == 'e');
}

/// The entries for the identifiers `identifiers`, in their order. An
/// identifier that names no system gives no entry. Where a system that is
/// named has no text for the date, there is no list at all.
pub open spec fn current_dates(
    identifiers: Seq<Seq<char>>,
    date: &CivilDateTime,
    settings: &UserSettings,
) -> Option<Seq<CalendarText>>
    decreases identifiers.len(),
{
    if identifiers.len() == 0 {
        Some(Seq::empty())
    } else {
        match current_dates(identifiers.drop_last(), date, settings) {
            Some(before) => match CalendarSystem::named(identifiers.last()) {
                Some(system) => match system.converted(date, Some(settings)) {
                    Some(entry) => Some(before.push(entry)),
                    None => None,
                },
                None => Some(before),
            },
            None => None,
        }
    }
}

/// The views of a list of entries, in order.
pub open spec fn calendar_texts(entries: Seq<CalendarDate>) -> Seq<CalendarText> {
    Seq::new(entries.len(), |i: int| entries[i]@)
}

/// The views of an optional list of entries.
pub open spec fn optional_calendar_texts(entries: Option<Vec<CalendarDate>>) -> Option<
    Seq<CalendarText>,
> {
    match entries {
        Some(list) => Some(calendar_texts(list@)),
        None => None,
    }
}

/// Converts `now` into every calendar that `settings` enables, in the order
/// in which the settings list them.
pub fn get_current_dates(settings: &UserSettings, now: &CivilDateTime) -> (dates: Option<
    Vec<CalendarDate>,
>)
    requires
        now.wf(),
    ensures
        optional_calendar_texts(dates) == current_dates(settings.enabled_texts(), now, settings),
{
    let mut dates: Vec<CalendarDate> = Vec::new();
    let ghost identifiers = settings.enabled_texts();
    let mut i: usize = 0;
    assert(identifiers.take(0) =~= Seq::<Seq<char>>::empty());
    while i < settings.enabled_calendars.len()
        invariant
            now.wf(),
            i <= settings.enabled_calendars.len(),
            identifiers == settings.enabled_texts(),
            current_dates(identifiers.take(i as int), now, settings) == Some(
                calendar_texts(dates@),
            ),
        decreases settings.enabled_calendars.len() - i,
    {
        let ghost before = calendar_texts(dates@);
        proof {
            let upto = identifiers.take(i + 1);
            assert(upto.drop_last() =~= identifiers.take(i as int));
            assert(upto.last() == settings.enabled_calendars@[i as int]@);
        }
        match CalendarSystem::from_identifier(settings.enabled_calendars[i].as_str()) {
            Some(system) => {
                match system.convert(now, Some(settings)) {
                    Some(entry) => {
                        dates.push(entry);
                        assert(calendar_texts(dates@) =~= before.push(entry@));
                    },
                    None => {
                        proof {
                            lemma_no_list_after_failure(identifiers, i + 1, now, settings);
                        }
                        return None;
                    },
                }
            },
            None => {},
        }
        i = i + 1;
    }
    assert(identifiers.take(i as int) =~= identifiers);
    Some(dates)
}

/// Once a named system has no text, no longer list of identifiers has a
/// list of entries.
proof fn lemma_no_list_after_failure(
    identifiers: Seq<Seq<char>>,
    upto: int,
    date: &CivilDateTime,
    settings: &UserSettings,
)
    requires
        0 <= upto <= identifiers.len(),
        current_dates(identifiers.take(upto), date, settings) is None,
    ensures
        current_dates(identifiers, date, settings) is None,
    decreases identifiers.len() - upto,
{
    if upto < identifiers.len() {
        let next = identifiers.take(upto + 1);
        assert(next.drop_last() =~= identifiers.take(upto));
        lemma_no_list_after_failure(identifiers, upto + 1, date, settings);
    } else {
        assert(identifiers.take(upto) =~= identifiers);
    }
}

/// The identifiers of all calendar systems that can be enabled.
pub fn get_available_calendar_plugins() -> (identifiers: Vec<String>)
    ensures
        texts(identifiers@) == available_identifiers(),
{
    let mut identifiers: Vec<String> = Vec::new();
    identifiers.push(String::from_str(CalendarSystem::Gregorian.identifier()));
    identifiers.push(String::from_str(CalendarSystem::Julian.identifier()));
    identifiers.push(String::from_str(CalendarSystem::Buddhist.identifier()));
    identifiers.push(String::from_str(CalendarSystem::FrenchRevolutionary.identifier()));
    identifiers.push(String::from_str(CalendarSystem::Jewish.identifier()));
    assert(texts(identifiers@) =~= available_identifiers());
    identifiers
}

} // verus!
