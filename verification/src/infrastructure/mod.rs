//! Implementations that connect the reservation domain to configuration files,
//! calendars, chat messages and usage reports.
pub mod config;
pub mod notifier;
pub mod repositories;
pub mod idle_reservation_notifier;
pub mod reservation_proposal;
pub mod resource_collection_access;
pub mod slack_direct_message;
pub mod resource_usage_observer;
pub mod unauthorized_usage_notifier;
