//! The messages exchanged between nodes.

pub mod request_vote;

pub use request_vote::{RequestVote, VoteReply};
pub mod responder;
