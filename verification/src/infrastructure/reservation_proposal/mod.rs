//! Proposing reservations, after the fact, for resources used without one.
pub mod mock;
pub mod slack;
