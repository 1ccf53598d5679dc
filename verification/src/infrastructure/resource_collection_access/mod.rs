//! Giving members access to the calendars of the resources.
pub mod google_calendar;
