//! The runtime configuration.

pub mod config;
pub mod errors;
