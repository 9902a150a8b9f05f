//! The decision logic of a node: its roles, its state, and how each event
//! changes that state and what it asks to be done.

pub mod progress;
pub mod roles;
pub mod engine;
pub mod dispatch;
pub mod laws;
pub mod balancer;
pub mod core_state;
