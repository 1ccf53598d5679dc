//! Infrastructure of a laboratory resource reservation manager: configuration,
//! notification formatting and rendering, reservation storage logic and
//! usage observation.
pub mod text;
pub mod parse;
pub mod assoc;
pub mod domain;
pub mod infrastructure;
