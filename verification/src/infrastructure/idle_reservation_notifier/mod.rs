//! Telling owners that their reservations are not being used.
pub mod mock;
pub mod slack;
