//! Telling someone that the resource they use is reserved by another member.
pub mod mock;
pub mod slack;
