//! The display format that the Gregorian converter hands to the formatter.

use crate::text::{
    chars_of, contains, contains_text, leading_length, matches_at, occurs_at, strip_leading,
};
use vstd::prelude::*;
use vstd::string::*;

verus! {

/// Weekday, month, day and year: the pattern used when nothing else is asked
/// for.
pub const DATE_ONLY_PATTERN: &'static str = "%A, %B %d, %Y";

/// The date with hours and minutes on a 24-hour clock.
pub const MILITARY_PATTERN: &'static str = "%A, %B %d, %Y %H:%M";

/// The date with hours and minutes on a 12-hour clock.
pub const STANDARD_PATTERN: &'static str = "%A, %B %d, %Y %I:%M %p";

/// What a user's own pattern begins with.
pub const CUSTOM_PREFIX: &'static str = "custom:";

/// What is added to a pattern to show seconds.
pub const SECONDS_SUFFIX: &'static str = ":%S";

/// The pattern that a user's choice stands for, before seconds are looked
/// at: one of the two presets, the user's own pattern without its prefix, or
/// the date alone.
pub open spec fn base_pattern(user_value: Option<Seq<char>>) -> Seq<char> {
    match user_value {
        Some(value) => if value == "military"@ {
            MILITARY_PATTERN@
        } else if value == "standard"@ {
            STANDARD_PATTERN@
        } else if occurs_at(value, CUSTOM_PREFIX@, 0) {
            strip_leading(value, CUSTOM_PREFIX@)
        } else {
            DATE_ONLY_PATTERN@
        },
        None => DATE_ONLY_PATTERN@,
    }
}

/// Whether a pattern shows the hour, on either clock.
pub open spec fn has_hour_token(pattern: Seq<char>) -> bool {
    contains_text(pattern, "%H"@) || contains_text(pattern, "%I"@)
}

/// The pattern for a user's choice. Seconds are added only where they are
/// asked for, the pattern does not show them yet, and it shows the hour.
pub open spec fn resolved_pattern(user_value: Option<Seq<char>>, show_seconds: bool) -> Seq<char> {
    let base = base_pattern(user_value);
    if show_seconds && !contains_text(base, "%S"@) && has_hour_token(base) {
        base + SECONDS_SUFFIX@
    } else {
        base
    }
}

/// The text of an optional string slice.
pub open spec fn optional_str_text(value: Option<&str>) -> Option<Seq<char>> {
    match value {
        Some(s) => Some(s@),
        None => None,
    }
}

fn base_format(user_value: Option<&str>) -> (format: String)
    ensures
        format@ == base_pattern(optional_str_text(user_value)),
{
    match user_value {
        Some(value) => {
            let chars = chars_of(value);
            let prefix = chars_of(CUSTOM_PREFIX);
            if String::from_str(value) == String::from_str("military") {
                String::from_str(MILITARY_PATTERN)
            } else if String::from_str(value) == String::from_str("standard") {
                String::from_str(STANDARD_PATTERN)
            } else if matches_at(&chars, &prefix, 0) {
                let skipped = leading_length(&chars, &prefix);
                let rest = value.substring_char(skipped, chars.len());
                assert(rest@ =~= value@.skip(skipped as int));
                String::from_str(rest)
            } else {
                String::from_str(DATE_ONLY_PATTERN)
            }
        },
        None => String::from_str(DATE_ONLY_PATTERN),
    }
}

/// Computes [`resolved_pattern`] for a user's choice of format.
pub fn resolve_date_format(user_value: Option<&str>, show_seconds: bool) -> (format: String)
    ensures
        format@ == resolved_pattern(optional_str_text(user_value), show_seconds),
{
    let mut format = base_format(user_value);
    if show_seconds {
        let chars = chars_of(format.as_str());
        if !contains(&chars, &chars_of("%S")) {
            if contains(&chars, &chars_of("%H")) || contains(&chars, &chars_of("%I")) {
                format.append(SECONDS_SUFFIX);
            }
        }
    }
    format
}

} // verus!
