//! What a node reports of its state, and waiting for it.

pub mod metric;
pub mod metrics;
pub mod server_state;
pub mod wait;
pub mod wait_condition;
