//! Conversion of a civil date and time into several calendars for display:
//! Gregorian, Julian, Buddhist, French Revolutionary and Hebrew.
//!
//! Every conversion starts from a [`civil::CivilDateTime`], the wall-clock
//! reading as plain numbers. The calendars that are pure arithmetic are
//! computed and proved here; month and weekday names and clock patterns are
//! written by chrono, behind [`strftime`].

pub mod calendar;
pub mod calendar_commands;
pub mod civil;
pub mod models;
pub mod strftime;
pub mod text;
pub mod utils;
