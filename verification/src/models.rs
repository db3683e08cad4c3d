//! Plain data that crosses the library's boundary.

use vstd::prelude::*;
use vstd::string::*;

verus! {

/// User preferences. The converters read `enabled_calendars`, `date_format`
/// and `show_seconds`; the other fields are carried for the application.
#[derive(Debug, Clone)]
pub struct UserSettings {
    pub password: String,
    pub background_type: String,
    pub background_value: String,
    pub avatar_path: Option<String>,
    pub enabled_calendars: Vec<String>,
    pub timeout_minutes: Option<u32>,
    pub hotkey_combination: Option<String>,
    pub auto_lock_enabled: Option<bool>,
    pub auto_lock_minutes: Option<u32>,
    pub show_seconds: Option<bool>,
    pub date_format: Option<String>,
    pub theme: Option<String>,
    pub sound_enabled: Option<bool>,
    pub sound_file: Option<String>,
}

/// The text of an optional string.
pub open spec fn optional_text(value: Option<String>) -> Option<Seq<char>> {
    match value {
        Some(s) => Some(s@),
        None => None,
    }
}

/// The texts of a list of strings, in order.
pub open spec fn texts(values: Seq<String>) -> Seq<Seq<char>> {
    Seq::new(values.len(), |i: int| values[i]@)
}

/// The calendars that are switched on in fresh settings, in display order.
pub open spec fn default_enabled_calendars() -> Seq<Seq<char>> {
    seq![
        "french_revolutionary"@,
        "gregorian"@,
        "julian"@,
        "buddhist"@,
        "jewish"@,
    ]
}

impl UserSettings {
    /// The display format that the user chose, if any.
    pub open spec fn date_format_text(&self) -> Option<Seq<char>> {
        optional_text(self.date_format)
    }

    /// Whether seconds are to be shown; unset counts as no.
    pub open spec fn wants_seconds(&self) -> bool {
        match self.show_seconds {
            Some(b) => b,
            None => false,
        }
    }

    /// The identifiers of the enabled calendars, in order.
    pub open spec fn enabled_texts(&self) -> Seq<Seq<char>> {
        texts(self.enabled_calendars@)
    }
}

impl Default for UserSettings {
    fn default() -> (r: Self)
        ensures
            r.password@ == "password"@,
            r.background_type@ == "gradient"@,
            r.background_value@ == "linear-gradient(135deg, #579945 0%, #764ba2 100%)"@,
            optional_text(r.avatar_path) == Some("/fox_profile.png"@),
            r.enabled_texts() == default_enabled_calendars(),
            r.timeout_minutes == Some(1u32),
            optional_text(r.hotkey_combination) == Some("Alt+L"@),
            r.auto_lock_enabled is None,
            r.auto_lock_minutes is None,
            r.show_seconds == Some(true),
            r.date_format_text() == Some("military"@),
            r.theme is None,
            r.sound_enabled is None,
            r.sound_file is None,
    {
        let mut enabled: Vec<String> = Vec::new();
        enabled.push(String::from_str("french_revolutionary"));
        enabled.push(String::from_str("gregorian"));
        enabled.push(String::from_str("julian"));
        enabled.push(String::from_str("buddhist"));
        enabled.push(String::from_str("jewish"));
        assert(texts(enabled@) =~= default_enabled_calendars());
        UserSettings {
            password: String::from_str("password"),
            background_type: String::from_str("gradient"),
            background_value: String::from_str("linear-gradient(135deg, #579945 0%, #764ba2 100%)"),
            avatar_path: Some(String::from_str("/fox_profile.png")),
            enabled_calendars: enabled,
            timeout_minutes: Some(1),
            hotkey_combination: Some(String::from_str("Alt+L")),
            auto_lock_enabled: None,
            auto_lock_minutes: None,
            show_seconds: Some(true),
            date_format: Some(String::from_str("military")),
            theme: None,
            sound_enabled: None,
            sound_file: None,
        }
    }
}

/// One converted date, ready for display.
#[derive(Debug, Clone)]
pub struct CalendarDate {
    pub system: String,
    pub date: String,
    pub additional_info: Option<String>,
}

/// What a [`CalendarDate`] says, as text.
pub struct CalendarText {
    pub system: Seq<char>,
    pub date: Seq<char>,
    pub additional_info: Option<Seq<char>>,
}

impl View for CalendarDate {
    type V = CalendarText;

    open spec fn view(&self) -> CalendarText {
        CalendarText {
            system: self.system@,
            date: self.date@,
            additional_info: optional_text(self.additional_info),
        }
    }
}

/// The view of an optional conversion result.
pub open spec fn optional_calendar_text(value: Option<CalendarDate>) -> Option<CalendarText> {
    match value {
        Some(c) => Some(c@),
        None => None,
    }
}

/// Whether `password` is the one stored in `settings`.
pub fn verify_password(settings: &UserSettings, password: &str) -> (r: bool)
    ensures
        r == (settings.password@ == password@),
{
    let given = String::from_str(password);
    settings.password == given
}

} // verus!
