//! Observing the real use of the GPU servers.
pub mod mock;
pub mod shared_file;
