//! Stores of reservations, identity links and access tokens.
pub mod resource_usage;
pub mod mcp_token;
pub mod identity_link;
