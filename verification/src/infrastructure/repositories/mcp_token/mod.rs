//! The MCP access token store.
pub mod json_file;
