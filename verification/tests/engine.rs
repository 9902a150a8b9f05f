use suraft::config::config::Config;
use suraft::metrics::server_state::ServerState;
use suraft::raft_core::engine::{Core, HeartbeatSend, TickAction, VoteSend, WriteOutcome};
use suraft::storage::log::log_id::LogId;
use suraft::storage::membership::membership::Membership;
use suraft::storage::vote::Vote;
use suraft::suraft::request_vote::{RequestVote, VoteReply};
use suraft::testing::{log_id, nid};

type Node = Core<u64, u64>;

fn members() -> Membership {
    Membership::new(vec![nid(1), nid(2), nid(3)])
}

/// Node 1 elects itself at `now` and gets the grant of node 2.
fn leader_at(now: u64) -> Node {
    let mut c: Node = Core::new(nid(1), Config::default(), 200, 0);
    let b = c.elect(now, None, Some(members())).unwrap();
    for s in b.sends {
        if let VoteSend::Local { target, reply, sender_vote } = s {
            c.handle_vote_reply(&target, reply, &sender_vote, now);
        }
    }
    let v = Vote::new(0, nid(1));
    c.handle_vote_reply("2", VoteReply::new(Some(v.duplicate()), None, true), &v, now);
    c
}

#[test]
fn tick_asks_for_election_once_the_lease_expires() {
    let mut c: Node = Core::new(nid(1), Config::default(), 200, 0);
    assert!(matches!(c.on_tick(200, true, true), TickAction::Idle));
    assert!(matches!(c.on_tick(201, true, true), TickAction::Elect));
    assert!(matches!(c.on_tick(201, false, true), TickAction::Idle));
}

#[test]
fn election_asks_every_member() {
    let mut c: Node = Core::new(nid(1), Config::default(), 200, 0);
    let b = c.elect(1000, Some(log_id(3, 9)), Some(members())).unwrap();
    // The term follows the last stored log's.
    assert_eq!(Vote::new(4, nid(1)), b.request.vote);
    assert_eq!(Some(log_id(3, 9)), b.request.last_log_id);
    assert_eq!(0, b.request.lease_ms);
    assert_eq!(150, b.ttl_ms);
    assert_eq!(3, b.sends.len());
    assert!(matches!(&b.sends[0], VoteSend::Local { target, reply, .. } if target == "1" && reply.vote_granted));
    assert!(matches!(&b.sends[1], VoteSend::Remote { target, .. } if target == "2"));
    assert!(matches!(&b.sends[2], VoteSend::Remote { target, .. } if target == "3"));
    assert_eq!(Some(log_id(3, 9)), c.get_committed());
    assert_eq!(None, c.current_leader());
}

#[test]
fn first_election_is_in_term_zero() {
    let mut c: Node = Core::new(nid(1), Config::default(), 200, 0);
    let b = c.elect(1000, None, Some(members())).unwrap();
    assert_eq!(Vote::new(0, nid(1)), b.request.vote);
    assert_eq!(None, b.request.last_log_id);
    // A second election goes past the vote held.
    let b = c.elect(2000, None, Some(members())).unwrap();
    assert_eq!(Vote::new(1, nid(1)), b.request.vote);
}

#[test]
fn election_without_membership_fails() {
    let mut c: Node = Core::new(nid(1), Config::default(), 200, 0);
    let r = c.elect(10, None, None);
    assert_eq!(
        Err(suraft::errors::Fatal::StorageError("Membership is not found".to_string())),
        r.map(|_| ())
    );
}

#[test]
fn leadership_comes_with_a_quorum() {
    let mut c: Node = Core::new(nid(1), Config::default(), 200, 0);
    let b = c.elect(1000, None, Some(members())).unwrap();
    for s in b.sends {
        if let VoteSend::Local { target, reply, sender_vote } = s {
            c.handle_vote_reply(&target, reply, &sender_vote, 1000);
        }
    }
    // One grant of three: not yet.
    assert!(!c.is_leader());
    let v = Vote::new(0, nid(1));
    // A refusal does not count.
    c.handle_vote_reply("3", VoteReply::new(Some(v.duplicate()), None, false), &v, 1000);
    assert!(!c.is_leader());
    c.handle_vote_reply("2", VoteReply::new(Some(v.duplicate()), None, true), &v, 1000);
    assert!(c.is_leader());
    assert_eq!(Some(nid(1)), c.current_leader());
    let m = c.report_metrics(1000);
    assert_eq!(ServerState::Leader, m.server_state);
    assert_eq!(Some(Vote::new_committed(0, nid(1))), m.vote);
}

#[test]
fn refusal_with_a_greater_vote_ends_candidacy() {
    let mut c: Node = Core::new(nid(1), Config::default(), 200, 0);
    let _ = c.elect(1000, None, Some(members())).unwrap();
    let mine = Vote::new(0, nid(1));
    let theirs = Vote::new(5, nid(3));
    c.handle_vote_reply("3", VoteReply::new(Some(theirs.duplicate()), None, false), &mine, 1001);
    assert!(c.candidate.is_none());
    assert_eq!(Some(theirs), c.report_metrics(1001).vote);
}

#[test]
fn writes_are_submitted_one_at_a_time() {
    let mut c = leader_at(1000);
    match c.write_entry(7, Some(100)) {
        WriteOutcome::Submit { entry, responders } => {
            assert_eq!(log_id(0, 0), entry.log_id);
            assert_eq!(vec![7], entry.payload);
            assert_eq!(vec![Some(100)], responders);
        }
        _ => panic!("expected a submit"),
    }
    assert!(matches!(c.write_entry(8, Some(101)), WriteOutcome::Buffered));
    assert!(matches!(c.write_entry(9, None), WriteOutcome::Buffered));
    assert_eq!(Some(log_id(0, 0)), c.get_last_log_id());
    let (answered, next) = c.handle_io_completed(log_id(0, 0), vec![Some(100)], true);
    assert_eq!(vec![100], answered);
    assert_eq!(Some(log_id(0, 0)), c.get_committed());
    // The commands buffered meanwhile go out at once, without waiting for a
    // later write.
    let (entry, responders) = next.expect("the buffered commands are submitted");
    assert_eq!(log_id(0, 1), entry.log_id);
    assert_eq!(vec![8, 9], entry.payload);
    assert_eq!(vec![Some(101), None], responders);
    assert_eq!(Some(log_id(0, 1)), c.get_last_log_id());
    // A write while that one is in flight is buffered again.
    assert!(matches!(c.write_entry(10, Some(102)), WriteOutcome::Buffered));
    let (answered, next) = c.handle_io_completed(log_id(0, 1), vec![Some(101), None], true);
    assert_eq!(vec![101], answered);
    let (entry, responders) = next.expect("the buffered command is submitted");
    assert_eq!(log_id(0, 2), entry.log_id);
    assert_eq!(vec![10], entry.payload);
    assert_eq!(vec![Some(102)], responders);
    let (answered, next) = c.handle_io_completed(log_id(0, 2), vec![Some(102)], true);
    assert_eq!(vec![102], answered);
    assert!(next.is_none());
    match c.write_entry(11, None) {
        WriteOutcome::Submit { entry, .. } => assert_eq!(log_id(0, 3), entry.log_id),
        _ => panic!("expected a submit"),
    }
}

#[test]
fn a_failed_write_changes_nothing() {
    let mut c = leader_at(1000);
    let _ = c.write_entry(7, Some(100));
    let (answered, next) = c.handle_io_completed(log_id(0, 0), vec![Some(100)], false);
    assert!(answered.is_empty());
    assert!(next.is_none());
    assert_eq!(None, c.get_committed());
}

#[test]
fn followers_forward_writes() {
    let mut c: Node = Core::new(nid(2), Config::default(), 200, 0);
    match c.write_entry(7, Some(5)) {
        WriteOutcome::Forward { responder, error } => {
            assert_eq!(Some(5), responder);
            assert_eq!(None, error.leader_id);
        }
        _ => panic!("expected a forward"),
    }
    let req = RequestVote::new(Vote::new_committed(2, nid(1)), None, 500);
    assert!(c.handle_request_vote(req, 10).vote_granted);
    match c.write_entry(7, None) {
        WriteOutcome::Forward { error, .. } => assert_eq!(Some(nid(1)), error.leader_id),
        _ => panic!("expected a forward"),
    }
}

#[test]
fn heartbeats_reach_every_member() {
    let mut c = leader_at(1000);
    let sends = c.broadcast_heartbeat(1010);
    assert_eq!(3, sends.len());
    assert!(matches!(&sends[0], HeartbeatSend::Local { target, sending_time: 1010, .. } if target == "1"));
    match &sends[1] {
        HeartbeatSend::Remote { target, request, timeout_ms, .. } => {
            assert_eq!("2", target);
            assert_eq!(Vote::new_committed(0, nid(1)), request.vote);
            assert_eq!(300, request.lease_ms);
            assert_eq!(50, *timeout_ms);
        }
        _ => panic!("expected a remote send"),
    }
    // Not due again before the interval.
    assert!(matches!(c.on_tick(1059, true, true), TickAction::Idle));
    assert!(matches!(c.on_tick(1060, true, true), TickAction::Heartbeat(_)));
}

#[test]
fn quorum_acknowledged_time() {
    let mut c = leader_at(1000);
    let v = Vote::new_committed(0, nid(1));
    c.handle_heartbeat_reply(&v, 1010, "1");
    // The leader counts itself as acknowledging at the time of the report.
    assert_eq!(None, c.report_metrics(1020).last_quorum_acked);
    c.handle_heartbeat_reply(&v, 1005, "3");
    assert_eq!(Some(1005), c.report_metrics(1020).last_quorum_acked);
    c.handle_heartbeat_reply(&v, 1015, "3");
    assert_eq!(Some(1015), c.report_metrics(1020).last_quorum_acked);
    // An older acknowledgement does not move the clock back.
    c.handle_heartbeat_reply(&v, 1001, "3");
    assert_eq!(Some(1015), c.report_metrics(1020).last_quorum_acked);
    // A reply for another vote is ignored.
    c.handle_heartbeat_reply(&Vote::new(0, nid(1)), 1019, "2");
    let m = c.report_metrics(1020);
    assert_eq!(
        Some(vec![(nid(1), Some(1020)), (nid(2), None), (nid(3), Some(1015))]),
        m.heartbeat
    );
}

#[test]
fn vote_request_granted_once_per_term() {
    let mut c: Node = Core::new(nid(2), Config::default(), 200, 0);
    let r1 = c.handle_request_vote(RequestVote::new(Vote::new(1, nid(1)), None, 0), 10);
    assert!(r1.vote_granted);
    assert_eq!(Some(Vote::new(1, nid(1))), r1.vote);
    let r2 = c.handle_request_vote(RequestVote::new(Vote::new(1, nid(3)), None, 0), 11);
    assert!(!r2.vote_granted);
    // The held vote is incomparable with the requested one: the reply carries
    // the requested vote, without granting it.
    assert_eq!(Some(Vote::new(1, nid(3))), r2.vote);
    // The same request again is granted again.
    let r3 = c.handle_request_vote(RequestVote::new(Vote::new(1, nid(1)), None, 0), 12);
    assert!(r3.vote_granted);
}

#[test]
fn vote_request_refused_for_a_shorter_log() {
    let mut c: Node = Core::new(nid(2), Config::default(), 200, 0);
    c.update_committed(Some(log_id(2, 5)));
    let r = c.handle_request_vote(RequestVote::new(Vote::new(3, nid(1)), Some(log_id(2, 4)), 0), 10);
    assert!(!r.vote_granted);
    assert_eq!(Some(Vote::new(3, nid(1))), r.vote);
    assert_eq!(Some(log_id(2, 5)), r.last_log_id);
    let r = c.handle_request_vote(RequestVote::new(Vote::new(3, nid(1)), Some(log_id(2, 7)), 0), 10);
    assert!(r.vote_granted);
    assert_eq!(Some(log_id(2, 7)), c.get_committed());
}

#[test]
fn a_held_leader_lease_refuses_every_request() {
    let mut c: Node = Core::new(nid(2), Config::default(), 200, 0);
    let lease = RequestVote::new(Vote::new_committed(1, nid(1)), None, 500);
    assert!(c.handle_request_vote(lease, 100).vote_granted);
    let higher = RequestVote::new(Vote::new(9, nid(3)), None, 0);
    let r = c.handle_request_vote(higher.duplicate(), 600);
    assert!(!r.vote_granted);
    // The lease held: the node keeps its vote, and the reply carries the
    // greater requested vote without granting it.
    assert_eq!(Some(Vote::new(9, nid(3))), r.vote);
    assert_eq!(Some(Vote::new_committed(1, nid(1))), c.report_metrics(600).vote);
    let r = c.handle_request_vote(higher, 601);
    assert!(r.vote_granted);
    assert_eq!(Some(Vote::new(9, nid(3))), r.vote);
}

#[test]
fn vote_never_goes_back() {
    let mut c: Node = Core::new(nid(2), Config::default(), 200, 0);
    let mut last: Option<Vote> = None;
    let reqs = [
        Vote::new(2, nid(1)),
        Vote::new(1, nid(3)),
        Vote::new(2, nid(3)),
        Vote::new_committed(2, nid(3)),
        Vote::new(3, nid(1)),
        Vote::new(2, nid(1)),
    ];
    for (i, v) in reqs.iter().enumerate() {
        let _ = c.handle_request_vote(RequestVote::new(v.duplicate(), None, 0), 10 + i as u64);
        let now = c.report_metrics(20).vote;
        if let Some(prev) = &last {
            assert!(now.as_ref().unwrap() >= prev);
        }
        last = now;
    }
    assert_eq!(Some(Vote::new(3, nid(1))), last);
}

#[test]
fn membership_change_applies_to_a_leader_only() {
    let mut c = leader_at(1000);
    let m = Membership::new(vec![nid(1), nid(4)]);
    c.change_membership(&m);
    assert_eq!(vec![nid(1), nid(4)], c.leader.as_ref().unwrap().membership.node_ids());
    let mut f: Node = Core::new(nid(2), Config::default(), 200, 0);
    f.change_membership(&m);
    assert!(f.leader.is_none());
}

#[test]
fn log_id_helpers() {
    assert_eq!(LogId { term: 4, index: 2 }, log_id(4, 2));
}

#[test]
fn update_vote_rejects_a_lower_vote_by_the_held_one() {
    let mut c: Node = Core::new(nid(2), Config::default(), 200, 0);
    assert_eq!(Ok(()), c.update_vote(&Vote::new(3, nid(1)), 100, 10));
    assert_eq!(
        Err(suraft::errors::RejectVoteRequest::ByVote(Vote::new(3, nid(1)))),
        c.update_vote(&Vote::new(2, nid(3)), 100, 11)
    );
    // An equal vote renews the lease.
    assert_eq!(Ok(()), c.update_vote(&Vote::new(3, nid(1)), 40, 20));
    assert_eq!(Some(nid(1)), c.report_metrics(20).vote.map(|v| v.voted_for));
}

#[test]
fn reply_vote_is_never_below_the_request() {
    let mut c: Node = Core::new(nid(2), Config::default(), 200, 0);
    assert!(c.handle_request_vote(RequestVote::new(Vote::new(5, nid(1)), None, 0), 10).vote_granted);
    let r = c.handle_request_vote(RequestVote::new(Vote::new(3, nid(3)), None, 0), 11);
    assert!(!r.vote_granted);
    // The held vote is above the requested one, and the reply carries it.
    assert_eq!(Some(Vote::new(5, nid(1))), r.vote);
    for req in [Vote::new(1, nid(4)), Vote::new(5, nid(4)), Vote::new(6, nid(4))] {
        let r = c.handle_request_vote(RequestVote::new(req.duplicate(), None, 0), 12);
        assert!(r.vote.as_ref().unwrap() >= &req);
    }
}
