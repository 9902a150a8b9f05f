//! Cluster membership: the nodes and their information.

pub mod membership;
pub mod node;

pub use node::NodeId;
