//! The storage data types and the layout of the shared storage.

pub mod log;
pub mod path_config;
pub mod membership;
pub mod vote;
pub mod log_storage_ext;
