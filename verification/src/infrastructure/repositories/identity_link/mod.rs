//! The identity link store.
pub mod json_file;
