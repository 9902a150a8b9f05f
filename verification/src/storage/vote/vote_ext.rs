//! Information extracted from an optional vote.

use vstd::prelude::*;

use crate::storage::vote::Vote;

verus! {

/// Information extracted from an optional vote.
pub trait VoteExt {
    /// The term that follows the vote's: 0 where there is no vote.
    spec fn next_term_spec(&self) -> int;

    /// Whether there is a vote and a quorum granted it.
    spec fn is_committed_spec(&self) -> bool;

    fn next_term(&self) -> (r: u64)
        requires
            self.next_term_spec() <= u64::MAX,
        ensures
            r == self.next_term_spec(),
    ;

    fn is_committed(&self) -> (r: bool)
        ensures
            r == self.is_committed_spec(),
    ;
}

impl VoteExt for Option<Vote> {
    open spec fn next_term_spec(&self) -> int {
        match self {
            Some(v) => v.term + 1,
            None => 0,
        }
    }

    open spec fn is_committed_spec(&self) -> bool {
        match self {
            Some(v) => v.committed,
            None => false,
        }
    }

    fn next_term(&self) -> (r: u64) {
        match self {
            Some(v) => v.term + 1,
            None => 0,
        }
    }

    fn is_committed(&self) -> (r: bool) {
        match self {
            Some(v) => v.committed,
            None => false,
        }
    }
}

} // verus!
