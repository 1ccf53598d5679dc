//! Reservations kept as Google Calendar events.
pub mod gpu_spec;
pub mod id_mapper;
pub mod repository;
