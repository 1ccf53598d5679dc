//! Message building for the individual delivery channels.
pub mod mock;
pub mod sender;
pub mod slack;
