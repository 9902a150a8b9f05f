//! A Raft-style consensus core for clusters that share one storage service:
//! votes, leases, log ids, membership, the storage layout, and the decision
//! logic of a node, each with its contract.

pub mod base;
pub mod config;
pub mod raft_core;
pub mod errors;
pub mod memstore;
pub mod metrics;
pub mod storage;
pub mod suraft;
pub mod testing;
