//! Notification message formatting and rendering.
pub mod formatter;
pub mod senders;
pub mod slack;
pub mod local_time;
pub mod router;
pub mod template_renderer;
