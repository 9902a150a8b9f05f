use std::cmp::Ordering;

use suraft::storage::vote::vote_ext::VoteExt;
use suraft::storage::vote::{display_option_vote, Vote};
use suraft::suraft::request_vote::VoteReply;
use suraft::testing::nid;

fn vote(term: u64, node_id: u64) -> Vote {
    Vote::new(term, nid(node_id))
}

fn committed(term: u64, node_id: u64) -> Vote {
    Vote::new_committed(term, nid(node_id))
}

#[test]
fn vote_order_by_term_then_commitment() {
    // Compare term first.
    assert!(vote(2, 2) > vote(1, 2));
    assert!(vote(2, 2) >= vote(1, 2));
    assert!(vote(1, 2) < vote(2, 2));
    assert!(vote(1, 2) <= vote(2, 2));

    // Committed greater than non-committed if leader_id is incomparable.
    assert!(committed(2, 2) > vote(2, 2));
    assert!(committed(2, 2) >= vote(2, 2));
    assert!(committed(2, 1) > vote(2, 2));
    assert!(committed(2, 1) >= vote(2, 2));

    // Lower term committed is not greater.
    assert!(!(committed(1, 1) > vote(2, 1)));
    assert!(!(committed(1, 1) >= vote(2, 1)));

    // Compare to itself.
    assert!(committed(1, 1) >= committed(1, 1));
    assert!(committed(1, 1) <= committed(1, 1));
    assert!(committed(1, 1) == committed(1, 1));

    // Equal.
    assert!(vote(2, 2) == vote(2, 2));
    assert!(vote(2, 2) >= vote(2, 2));
    assert!(vote(2, 2) <= vote(2, 2));
}

#[test]
fn vote_order_incomparable_for_other_nodes() {
    assert!(!(vote(2, 2) > vote(2, 3)));
    assert!(!(vote(2, 2) >= vote(2, 3)));
    assert!(!(vote(2, 2) < vote(2, 3)));
    assert!(!(vote(2, 2) <= vote(2, 3)));
    assert!(!(vote(2, 2) == vote(2, 3)));
    assert_eq!(None, committed(2, 2).partial_cmp(&committed(2, 3)));
    assert_eq!(Some(Ordering::Less), vote(1, 9).partial_cmp(&committed(1, 2)));
}

#[test]
fn vote_accessors_and_commit() {
    let v = vote(3, 7);
    assert_eq!(3, v.term());
    assert_eq!("7", v.voted_for());
    assert!(!v.is_committed());
    let c = v.commit();
    assert!(c.is_committed());
    assert_eq!(committed(3, 7), c);
}

#[test]
fn vote_display_formats() {
    assert_eq!("<T3-N7:->", vote(3, 7).display());
    assert_eq!("<T12-N1:Q>", committed(12, 1).display());
    assert_eq!("None", display_option_vote(&None));
    assert_eq!("<T1-N2:->", display_option_vote(&Some(vote(1, 2))));
}

#[test]
fn vote_ext_next_term() {
    let none: Option<Vote> = None;
    assert_eq!(0, none.next_term());
    assert!(!none.is_committed());
    assert_eq!(6, Some(vote(5, 1)).next_term());
    assert!(Some(committed(5, 1)).is_committed());
}

#[test]
fn reply_grants_only_when_granted() {
    assert!(!VoteReply::new(Some(vote(2, 1)), None, false).is_granted_to(&vote(2, 1)));
    assert!(VoteReply::new(Some(vote(2, 1)), None, true).is_granted_to(&vote(2, 1)));
    assert!(!VoteReply::new(Some(vote(3, 2)), None, true).is_granted_to(&vote(2, 1)));
    assert!(!VoteReply::new(None, None, true).is_granted_to(&vote(2, 1)));
}
