//! The French Revolutionary calendar: twelve months of thirty days, then five
//! or six complementary days, each day named after a plant, an animal or a
//! tool.
//!
//! The year is taken to begin on 22 September of the civil calendar. That is
//! a fixed approximation of the autumn equinox, which in fact moves by a day
//! either way.

use crate::calendar::Calendar;
use crate::civil::{
    absolute_day, absolute_from_gregorian, lemma_days_before_month_values,
    lemma_days_before_next_year, CivilDate, CivilDateTime,
};
use crate::models::{CalendarDate, CalendarText, UserSettings};
use crate::text::{
    decimal_digits, decimal_text, push_decimal, push_decimal_digits, unsigned_decimal_string,
};
use vstd::prelude::*;
use vstd::string::*;

verus! {

/// The civil year in which year 1 of the Republic began.
pub const EPOCH_YEAR: i32 = 1792;

/// Civil month in which a revolutionary year begins.
pub const EPOCH_MONTH: u32 = 9;

/// Day of that month on which a revolutionary year begins.
pub const EPOCH_DAY: u32 = 22;

/// Names of the twelve months of thirty days.
pub const MONTH_NAMES: [&'static str; 12] = [
    "Vendémiaire",
    "Brumaire",
    "Frimaire",
    "Nivôse",
    "Pluviôse",
    "Ventôse",
    "Germinal",
    "Floréal",
    "Prairial",
    "Messidor",
    "Thermidor",
    "Fructidor",
];

/// Name of the block of complementary days that closes the year.
pub const COMPLEMENTARY_NAME: &'static str = "Sansculottides";

/// Festivals of the complementary days; the sixth exists in leap years only.
pub const FESTIVALS: [&'static str; 6] = [
    "La Fête de la Vertu",
    "La Fête du Génie",
    "La Fête du Travail",
    "La Fête de l'Opinion",
    "La Fête des Récompenses",
    "La Fête de la Révolution",
];

/// What a day beyond the thirtieth of a named month is called.
pub const UNNAMED_ITEM: &'static str = "Item";

/// The item of each day: one row for each month, one entry for each day.
pub const DAY_ITEMS: [[&'static str; 30]; 12] = [
    // Vendémiaire
    [
        "Raisin",
        "Safran",
        "Châtaigne",
        "Colchique",
        "Cheval",
        "Balsamine",
        "Carotte",
        "Amaranthe",
        "Panais",
        "Cuve",
        "Pomme de terre",
        "Immortelle",
        "Potiron",
        "Réséda",
        "Âne",
        "Belle de nuit",
        "Citrouille",
        "Sarrasin",
        "Tournesol",
        "Pressoir",
        "Chanvre",
        "Pêche",
        "Navet",
        "Amaryllis",
        "Bœuf",
        "Aubergine",
        "Piment",
        "Tomate",
        "Orge",
        "Tonneau",
    ],
    // Brumaire
    [
        "Pomme",
        "Céleri",
        "Poire",
        "Betterave",
        "Oie",
        "Héliotrope",
        "Figue",
        "Scorsonère",
        "Alisier",
        "Charrue",
        "Salsifis",
        "Mâcre",
        "Topinambour",
        "Endive",
        "Dindon",
        "Chervis",
        "Cresson",
        "Dentelaire",
        "Grenade",
        "Herse",
        "Bacchante",
        "Azerole",
        "Garance",
        "Orange",
        "Faisan",
        "Pistache",
        "Macjonc",
        "Coing",
        "Cormier",
        "Rouleau",
    ],
    // Frimaire
    [
        "Raiponce",
        "Turneps",
        "Chicorée",
        "Nèfle",
        "Cochon",
        "Mâche",
        "Chou-fleur",
        "Miel",
        "Genièvre",
        "Pioche",
        "Cire",
        "Raifort",
        "Cèdre",
        "Sapin",
        "Chevreuil",
        "Ajonc",
        "Cyprès",
        "Lierre",
        "Sabine",
        "Hoyau",
        "Érable à sucre",
        "Bruyère",
        "Roseau",
        "Oseille",
        "Grillon",
        "Pignon",
        "Liège",
        "Truffe",
        "Olive",
        "Pelle",
    ],
    // Nivôse
    [
        "Tourbe",
        "Houille",
        "Bitume",
        "Soufre",
        "Chien",
        "Lave",
        "Terre végétale",
        "Fumier",
        "Salpêtre",
        "Fléau",
        "Granit",
        "Argile",
        "Ardoise",
        "Grès",
        "Lapin",
        "Silex",
        "Marne",
        "Pierre à chaux",
        "Marbre",
        "Van",
        "Pierre à plâtre",
        "Sel",
        "Fer",
        "Cuivre",
        "Chat",
        "Étain",
        "Plomb",
        "Zinc",
        "Mercure",
        "Crible",
    ],
    // Pluviôse
    [
        "Lauréole",
        "Mousse",
        "Fragon",
        "Perce-neige",
        "Taureau",
        "Laurier-thym",
        "Amadouvier",
        "Mézéréon",
        "Peuplier",
        "Coignée",
        "Ellébore",
        "Brocoli",
        "Laurier",
        "Avelinier",
        "Vache",
        "Buis",
        "Lichen",
        "If",
        "Pulmonaire",
        "Serpette",
        "Thlaspi",
        "Thimelé",
        "Chiendent",
        "Trainasse",
        "Lièvre",
        "Guède",
        "Noisetier",
        "Cyclamen",
        "Chélidoine",
        "Traîneau",
    ],
    // Ventôse
    [
        "Tussilage",
        "Cornouiller",
        "Violier",
        "Troène",
        "Bouc",
        "Asaret",
        "Alaterne",
        "Violette",
        "Marceau",
        "Bêche",
        "Narcisse",
        "Orme",
        "Fumeterre",
        "Vélar",
        "Chèvre",
        "Épinard",
        "Doronic",
        "Mouron",
        "Cerfeuil",
        "Cordeau",
        "Mandragore",
        "Persil",
        "Cochléaria",
        "Pâquerette",
        "Thon",
        "Pissenlit",
        "Sylvie",
        "Capillaire",
        "Frêne",
        "Plantoir",
    ],
    // Germinal
    [
        "Primevère",
        "Platane",
        "Asperge",
        "Tulipe",
        "Poule",
        "Bette",
        "Bouleau",
        "Jonquille",
        "Aulne",
        "Couvoir",
        "Pervenche",
        "Charme",
        "Morille",
        "Hêtre",
        "Abeille",
        "Laitue",
        "Mélèze",
        "Ciguë",
        "Radis",
        "Ruche",
        "Gainier",
        "Romaine",
        "Marronnier",
        "Roquette",
        "Pigeon",
        "Lilas",
        "Anémone",
        "Pensée",
        "Myrtille",
        "Greffoir",
    ],
    // Floréal
    [
        "Rose",
        "Chêne",
        "Fougère",
        "Aubépine",
        "Rossignol",
        "Ancolie",
        "Muguet",
        "Champignon",
        "Hyacinthe",
        "Râteau",
        "Rhubarbe",
        "Sainfoin",
        "Bâton d'or",
        "Chamerisier",
        "Ver à soie",
        "Consoude",
        "Pimprenelle",
        "Corbeille d'or",
        "Arroche",
        "Sarcloir",
        "Statice",
        "Fritillaire",
        "Bourrache",
        "Valériane",
        "Carpe",
        "Fusain",
        "Civette",
        "Buglosse",
        "Sénevé",
        "Houlette",
    ],
    // Prairial
    [
        "Luzerne",
        "Hémérocalle",
        "Trèfle",
        "Angélique",
        "Canard",
        "Mélisse",
        "Fromental",
        "Martagon",
        "Serpolet",
        "Faux",
        "Fraise",
        "Bétoine",
        "Pois",
        "Acacia",
        "Caille",
        "Œillet",
        "Sureau",
        "Pavot",
        "Tilleul",
        "Fourche",
        "Barbeau",
        "Camomille",
        "Chèvrefeuille",
        "Caille-lait",
        "Tanche",
        "Jasmin",
        "Verveine",
        "Thym",
        "Pivoine",
        "Chariot",
    ],
    // Messidor
    [
        "Seigle",
        "Avoine",
        "Oignon",
        "Véronique",
        "Mulet",
        "Romarin",
        "Concombre",
        "Échalote",
        "Absinthe",
        "Faucille",
        "Coriandre",
        "Artichaut",
        "Girofle",
        "Lavande",
        "Chamois",
        "Tabac",
        "Groseille",
        "Gesse",
        "Cerise",
        "Parc",
        "Menthe",
        "Cumin",
        "Haricot",
        "Orcanète",
        "Pintade",
        "Sauge",
        "Ail",
        "Vesce",
        "Blé",
        "Chalémie",
    ],
    // Thermidor
    [
        "Épeautre",
        "Bouillon blanc",
        "Melon",
        "Ivraie",
        "Bélier",
        "Prêle",
        "Armoise",
        "Carthame",
        "Mûre",
        "Arrosoir",
        "Panic",
        "Salicorne",
        "Abricot",
        "Basilic",
        "Brebis",
        "Guimauve",
        "Lin",
        "Amande",
        "Gentiane",
        "Écluse",
        "Carline",
        "Câprier",
        "Lentille",
        "Aunée",
        "Loutre",
        "Myrte",
        "Colza",
        "Lupin",
        "Coton",
        "Moulin",
    ],
    // Fructidor
    [
        "Prune",
        "Millet",
        "Lycoperdon",
        "Escourgeon",
        "Saumon",
        "Tubéreuse",
        "Sucrion",
        "Apocyn",
        "Réglisse",
        "Échelle",
        "Pastèque",
        "Fenouil",
        "Épine vinette",
        "Noix",
        "Truite",
        "Citron",
        "Cardère",
        "Nerprun",
        "Tagette",
        "Hotte",
        "Églantier",
        "Noisette",
        "Houblon",
        "Sorgho",
        "Écrevisse",
        "Bigarade",
        "Verge d'or",
        "Maïs",
        "Marron",
        "Panier",
    ],
];

/// The item that the calendar gives the day `day` of month `month` (months
/// count from 0, days from 1).
///
/// In a named month a day outside the thirty is an unnamed item. Among the
/// complementary days, a day beyond the sixth is not expected: its number
/// stands in for its item, and day 0 has no item at all. A month beyond the
/// complementary days is no month: there too the day's number stands in.
pub open spec fn revolutionary_item(month: int, day: int) -> Seq<char> {
    if 0 <= month < 12 {
        if 1 <= day <= 30 {
            DAY_ITEMS@[month]@[day - 1]@
        } else {
            UNNAMED_ITEM@
        }
    } else if month == 12 && 1 <= day <= 6 {
        FESTIVALS@[day - 1]@
    } else if month == 12 && day <= 0 {
        Seq::empty()
    } else {
        decimal_digits(day as nat)
    }
}

/// Looks up [`revolutionary_item`].
pub fn get_french_revolutionary_item(month: usize, day: usize) -> (item: String)
    ensures
        item@ == revolutionary_item(month as int, day as int),
{
    if month < 12 {
        if 1 <= day && day <= 30 {
            String::from_str(DAY_ITEMS[month][day - 1])
        } else {
            String::from_str(UNNAMED_ITEM)
        }
    } else if month == 12 && 1 <= day && day <= 6 {
        String::from_str(FESTIVALS[day - 1])
    } else if month == 12 && day == 0 {
        String::new()
    } else {
        unsigned_decimal_string(day as u64)
    }
}

/// A date of the French Revolutionary calendar.
#[derive(Clone, Copy, Debug, PartialEq, Eq, Structural)]
pub struct RevolutionaryDate {
    /// 0 to 11 for the named months, 12 for the complementary days.
    pub month_index: usize,
    /// 1 to 30; among the complementary days, 1 to 6.
    pub day_in_month: usize,
    /// Years of the Republic, year 1 beginning in 1792.
    pub year: i32,
}

/// Whether `date` lies on or after the day of its civil year on which a
/// revolutionary year begins.
pub open spec fn begins_new_year(date: CivilDate) -> bool {
    date.month > EPOCH_MONTH || (date.month == EPOCH_MONTH && date.day >= EPOCH_DAY)
}

/// Days from the beginning of the revolutionary year to `date`.
pub open spec fn days_since_year_began(date: CivilDate) -> int {
    let civil_year = if begins_new_year(date) {
        date.year as int
    } else {
        date.year - 1
    };
    date.absolute() - absolute_day(civil_year, EPOCH_MONTH as int, EPOCH_DAY as int)
}

/// Index of the revolutionary month of `date`.
pub open spec fn revolutionary_month_index(date: CivilDate) -> int {
    days_since_year_began(date) / 30
}

/// Day of `date` within its revolutionary month.
pub open spec fn revolutionary_day(date: CivilDate) -> int {
    days_since_year_began(date) % 30 + 1
}

/// Revolutionary year of `date`.
pub open spec fn revolutionary_year(date: CivilDate) -> int {
    if begins_new_year(date) {
        date.year - EPOCH_YEAR + 1
    } else {
        date.year - EPOCH_YEAR
    }
}

/// Name of the month with the given index; any index past the twelve named
/// months names the complementary days.
pub open spec fn revolutionary_month_name(month_index: int) -> Seq<char> {
    if 0 <= month_index < 12 {
        MONTH_NAMES@[month_index]@
    } else {
        COMPLEMENTARY_NAME@
    }
}

/// How a revolutionary date is written: month, day, then the year after the
/// word "An".
pub open spec fn revolutionary_text(month_index: int, day_in_month: int, year: int) -> Seq<char> {
    revolutionary_month_name(month_index) + " "@ + decimal_text(day_in_month) + ", An "@
        + decimal_text(year)
}

/// A revolutionary year has 365 or 366 days, so a date falls in one of its
/// twelve months or among its five or six complementary days.
pub proof fn lemma_days_since_year_began(date: CivilDate)
    requires
        date.is_valid(),
    ensures
        0 <= days_since_year_began(date) <= 365,
{
    lemma_days_before_month_values(date.year as int);
    lemma_days_before_month_values(date.year - 1);
    lemma_days_before_next_year(date.year - 1);
}

/// The revolutionary date on which the civil date `date` falls.
pub fn revolutionary_date(date: &CivilDate) -> (r: RevolutionaryDate)
    requires
        date.wf(),
    ensures
        r.month_index == revolutionary_month_index(*date),
        r.day_in_month == revolutionary_day(*date),
        r.year == revolutionary_year(*date),
        r.month_index <= 12,
        1 <= r.day_in_month <= 30,
        r.month_index == 12 ==> r.day_in_month <= 6,
{
    let begins = date.month > EPOCH_MONTH || (date.month == EPOCH_MONTH && date.day >= EPOCH_DAY);
    let civil_year: i32 = if begins {
        date.year
    } else {
        date.year - 1
    };
    let year: i32 = if begins {
        date.year - EPOCH_YEAR + 1
    } else {
        date.year - EPOCH_YEAR
    };
    proof {
        lemma_days_since_year_began(*date);
    }
    let days_since_start: i64 = absolute_from_gregorian(date.year, date.month, date.day)
        - absolute_from_gregorian(civil_year, EPOCH_MONTH, EPOCH_DAY);
    RevolutionaryDate {
        month_index: (days_since_start / 30) as usize,
        day_in_month: (days_since_start % 30 + 1) as usize,
        year,
    }
}

/// Writes a revolutionary date as [`revolutionary_text`] says.
pub fn revolutionary_date_string(date: &RevolutionaryDate) -> (text: String)
    ensures
        text@ == revolutionary_text(
            date.month_index as int,
            date.day_in_month as int,
            date.year as int,
        ),
{
    let mut text = if date.month_index < 12 {
        String::from_str(MONTH_NAMES[date.month_index])
    } else {
        String::from_str(COMPLEMENTARY_NAME)
    };
    text.append(" ");
    push_decimal_digits(&mut text, date.day_in_month as u64);
    text.append(", An ");
    push_decimal(&mut text, date.year as i64);
    text
}

/// Converter to the French Revolutionary calendar. Its entry carries the
/// item of the day as additional information.
pub struct FrenchRevolutionaryCalendar;

impl Calendar for FrenchRevolutionaryCalendar {
    open spec fn converted(
        &self,
        date: &CivilDateTime,
        settings: Option<&UserSettings>,
    ) -> Option<CalendarText> {
        Some(
            CalendarText {
                system: "French Revolutionary"@,
                date: revolutionary_text(
                    revolutionary_month_index(date.date),
                    revolutionary_day(date.date),
                    revolutionary_year(date.date),
                ),
                additional_info: Some(
                    revolutionary_item(
                        revolutionary_month_index(date.date),
                        revolutionary_day(date.date),
                    ),
                ),
            },
        )
    }

    fn convert(&self, date: &CivilDateTime, settings: Option<&UserSettings>) -> (result: Option<
        CalendarDate,
    >) {
        let r = revolutionary_date(&date.date);
        let date_str = revolutionary_date_string(&r);
        let item = get_french_revolutionary_item(r.month_index, r.day_in_month);
        Some(
            CalendarDate {
                system: String::from_str("French Revolutionary"),
                date: date_str,
                additional_info: Some(item),
            },
        )
    }
}

} // verus!
