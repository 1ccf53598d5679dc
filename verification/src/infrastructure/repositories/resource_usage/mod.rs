//! Reservation stores: Google Calendar, an in-memory one for tests, and the mapping of
//! reservation ids to calendar events.
pub mod google_calendar;
pub mod id_mapper;
pub mod mock;
