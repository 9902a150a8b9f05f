//! Error types exposed by this crate.

use vstd::prelude::*;

use crate::storage::log::log_id::LogId;
use crate::storage::membership::membership::Membership;
use crate::storage::membership::NodeId;
use crate::storage::vote::Vote;

verus! {

/// Fatal is unrecoverable and shuts down the node at once.
#[derive(Debug, PartialEq, Eq)]
pub enum Fatal {
    /// The storage failed; the text describes the failure.
    StorageError(String),
    Panicked,
    /// The node stopped normally.
    Stopped,
}

/// `a` and `b` are the same error, their texts read as characters.
pub open spec fn same_fatal(a: Fatal, b: Fatal) -> bool {
    match (a, b) {
        (Fatal::StorageError(x), Fatal::StorageError(y)) => x@ == y@,
        (Fatal::Panicked, Fatal::Panicked) => true,
        (Fatal::Stopped, Fatal::Stopped) => true,
        _ => false,
    }
}

impl Fatal {
    /// A copy of this error.
    pub fn duplicate(&self) -> (r: Fatal)
        ensures
            same_fatal(r, *self),
    {
        match self {
            Fatal::StorageError(s) => Fatal::StorageError(s.clone()),
            Fatal::Panicked => Fatal::Panicked,
            Fatal::Stopped => Fatal::Stopped,
        }
    }
}

/// The errors that may take place when requesting a config change.
#[derive(Debug, PartialEq, Eq)]
pub enum ChangeMembershipError {
    EmptyMembership(EmptyMembership),
}

/// The errors that may take place when initializing a pristine node.
#[derive(Debug, PartialEq, Eq)]
pub enum InitializeError {
    NotAllowed(NotAllowed),
    NotInMembers(NotInMembers),
}

/// A request has to be forwarded to the leader, if one is known.
#[derive(Debug, PartialEq, Eq)]
pub struct ForwardToLeader {
    pub leader_id: Option<NodeId>,
}

impl ForwardToLeader {
    /// No leader is known.
    pub fn empty() -> (r: Self)
        ensures
            r.leader_id is None,
    {
        ForwardToLeader { leader_id: None }
    }

    /// The leader is `leader_id`.
    pub fn new(leader_id: NodeId) -> (r: Self)
        ensures
            r.leader_id == Some(leader_id),
    {
        ForwardToLeader { leader_id: Some(leader_id) }
    }
}

/// Not allowed to initialize due to the current state.
#[derive(Debug, PartialEq, Eq)]
pub struct NotAllowed {
    pub last_log_id: Option<LogId>,
    pub vote: Vote,
}

/// A node has to be a member.
#[derive(Debug, PartialEq, Eq)]
pub struct NotInMembers {
    pub node_id: NodeId,
    pub membership: Membership,
}

/// A new membership can not be empty.
#[derive(Debug, Clone, Copy, PartialEq, Eq)]
pub struct EmptyMembership {}

/// Why a vote request was rejected.
#[derive(Debug, PartialEq, Eq)]
pub enum RejectVoteRequest {
    /// By a vote that is not below the requested one.
    ByVote(Vote),
    /// By a greater last log id.
    ByLastLogId(Option<LogId>),
}

} // verus!
