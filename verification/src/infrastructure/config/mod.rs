//! Configuration: notification formats, resources and storage.
pub mod notification_format;
pub mod resource_config;
pub mod storage_config;
pub mod defaults;
pub mod loader;
pub mod app_config;
