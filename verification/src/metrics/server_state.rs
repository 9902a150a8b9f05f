//! The role of a node.

use vstd::prelude::*;

verus! {

/// All possible states of a node.
#[derive(Debug, Clone, Copy, PartialEq, Eq, Structural)]
pub enum ServerState {
    /// The node follows the leader.
    Follower,
    /// The node is campaigning to become the leader.
    Candidate,
    /// The node is the leader.
    Leader,
}

/// The name of a state, as its `Debug` rendering gives it.
pub open spec fn server_state_text(s: ServerState) -> Seq<char> {
    match s {
        ServerState::Follower => "Follower"@,
        ServerState::Candidate => "Candidate"@,
        ServerState::Leader => "Leader"@,
    }
}

impl ServerState {
    /// The name of the state.
    pub fn name(&self) -> (r: &'static str)
        ensures
            r@ == server_state_text(*self),
    {
        match self {
            ServerState::Follower => "Follower",
            ServerState::Candidate => "Candidate",
            ServerState::Leader => "Leader",
        }
    }
}

impl Default for ServerState {
    fn default() -> (r: ServerState)
        ensures
            r == ServerState::Follower,
    {
        ServerState::Follower
    }
}

} // verus!
