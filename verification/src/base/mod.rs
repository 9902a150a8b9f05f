//! Basic types and helpers shared by the whole crate.

pub mod text;
pub mod str_map;
pub mod leased;
pub mod threaded;
