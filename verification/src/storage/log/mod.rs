//! Log entries and their identities.

pub mod log_id;
pub mod log_index;
pub mod entry;
pub mod io_state;
