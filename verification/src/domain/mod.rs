//! The reservation domain: resources, reservations, member identities, idle reservations,
//! proposals and notifications.
pub mod identity;
pub mod idle;
pub mod notification;
pub mod observation;
pub mod proposal;
pub mod repository;
pub mod resource;
