//! The desktop around the assistant: the calendar, the browser, hotkeys
//! and system controls.
pub mod browser;
pub mod calendar;
pub mod control;
pub mod hotkeys;
