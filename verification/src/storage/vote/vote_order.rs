//! `==` and the comparison operators on votes.

use vstd::prelude::*;

use crate::base::text::Relation;
use crate::storage::vote::{vote_relation, Vote};

use core::cmp::Ordering;

verus! {

/// The `Ordering` that a comparison outcome stands for.
pub open spec fn ordering_of(r: Option<Relation>) -> Option<Ordering> {
    match r {
        Some(Relation::Less) => Some(Ordering::Less),
        Some(Relation::Equal) => Some(Ordering::Equal),
        Some(Relation::Greater) => Some(Ordering::Greater),
        None => None,
    }
}

impl PartialEq for Vote {
    fn eq(&self, other: &Vote) -> (r: bool) {
        self.same_as(other)
    }
}

impl vstd::std_specs::cmp::PartialEqSpecImpl for Vote {
    open spec fn obeys_eq_spec() -> bool {
        true
    }

    open spec fn eq_spec(&self, other: &Vote) -> bool {
        self@ == other@
    }
}

impl Eq for Vote {

}

impl PartialOrd for Vote {
    fn partial_cmp(&self, other: &Vote) -> (r: Option<Ordering>) {
        match self.relate(other) {
            Some(Relation::Less) => Some(Ordering::Less),
            Some(Relation::Equal) => Some(Ordering::Equal),
            Some(Relation::Greater) => Some(Ordering::Greater),
            None => None,
        }
    }
}

impl vstd::std_specs::cmp::PartialOrdSpecImpl for Vote {
    open spec fn obeys_partial_cmp_spec() -> bool {
        true
    }

    open spec fn partial_cmp_spec(&self, other: &Vote) -> Option<Ordering> {
        ordering_of(vote_relation(self@, other@))
    }
}

} // verus!
