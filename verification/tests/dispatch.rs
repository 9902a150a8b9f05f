use suraft::config::config::Config;
use suraft::errors::Fatal;
use suraft::raft_core::dispatch::{ApiAction, ApiMessage, Notification, NotifyAction};
use suraft::raft_core::engine::Core;
use suraft::storage::membership::membership::Membership;
use suraft::storage::vote::Vote;
use suraft::suraft::request_vote::{RequestVote, VoteReply};
use suraft::testing::{log_id, nid};

type Node = Core<u64, u64>;

#[test]
fn notification_display_formats() {
    let n: Notification<u64> = Notification::Tick { i: 3 };
    assert_eq!("Tick 3", n.display());
    let n: Notification<u64> = Notification::StorageError { error: "disk full".to_string() };
    assert_eq!("StorageError: disk full", n.display());
    let n: Notification<u64> =
        Notification::IOCompleted { log_id: log_id(2, 5), responders: vec![], done: true };
    assert_eq!("IOFlushed: 2.5; done: true", n.display());
    let n: Notification<u64> = Notification::HeartbeatReply {
        leader_vote: Vote::new_committed(2, nid(1)),
        sending_time: 77,
        target: nid(3),
    };
    assert_eq!("HeartbeatProgress: target=3, leader_vote: <T2-N1:Q>, sending_time: 77", n.display());
    let n: Notification<u64> = Notification::RequestVoteReply {
        target: nid(2),
        reply: VoteReply::new(Some(Vote::new(2, nid(1))), Some(log_id(1, 3)), true),
        sender_vote: Vote::new(2, nid(1)),
    };
    assert_eq!(
        "VoteResponse: from target=2, to candidate_vote: <T2-N1:->, {<T2-N1:->, last_log:Some(\"1.3\")}",
        n.display()
    );
}

#[test]
fn api_message_display_formats() {
    let m: ApiMessage<u64, u64> = ApiMessage::RequestVote {
        rpc: RequestVote::new(Vote::new(3, nid(2)), None, 1500),
    };
    assert_eq!("RequestVote: {vote:<T3-N2:->, last_log:None, lease:1.5s}", m.display());
    let m: ApiMessage<u64, u64> = ApiMessage::Write { app_data: 1, responder: 2 };
    assert_eq!("Write", m.display());
    let m: ApiMessage<u64, u64> =
        ApiMessage::ChangeMembership { membership: Membership::new(vec![nid(2), nid(1)]) };
    assert_eq!("ChangeMembership to: {1:(),2:()}", m.display());
    let m: ApiMessage<u64, u64> = ApiMessage::Elect;
    assert_eq!("Elect", m.display());
    let m: ApiMessage<u64, u64> = ApiMessage::BroadcastHeartbeat;
    assert_eq!("BroadcastHeartbeat", m.display());
}

#[test]
fn vote_reply_display_without_log() {
    assert_eq!("{None, last_log:None}", VoteReply::new(None, None, false).display());
}

#[test]
fn io_flushed_records_the_outcome() {
    let n: Notification<u64> =
        Notification::IOCompleted { log_id: log_id(1, 1), responders: vec![Some(4)], done: false };
    match n.io_flushed(Ok(true)) {
        Notification::IOCompleted { log_id: l, responders, done } => {
            assert_eq!(log_id(1, 1), l);
            assert_eq!(vec![Some(4)], responders);
            assert!(done);
        }
        _ => panic!("expected IOCompleted"),
    }
    let n: Notification<u64> =
        Notification::IOCompleted { log_id: log_id(1, 1), responders: vec![], done: true };
    assert!(matches!(
        n.io_flushed(Err("broken".to_string())),
        Notification::StorageError { error } if error == "broken"
    ));
    let mut n: Notification<u64> =
        Notification::IOCompleted { log_id: log_id(1, 1), responders: vec![], done: false };
    n.set_io_result(true);
    assert!(matches!(n, Notification::IOCompleted { done: true, .. }));
}

#[test]
fn storage_error_stops_the_node() {
    let mut c: Node = Core::new(nid(1), Config::default(), 200, 0);
    let r = c.handle_notification(Notification::StorageError { error: "e".to_string() }, 1, true, true);
    assert_eq!(Some(Fatal::StorageError("e".to_string())), r.err());
}

#[test]
fn tick_notification_elects_a_follower() {
    let mut c: Node = Core::new(nid(1), Config::default(), 200, 0);
    let r = c.handle_notification(Notification::Tick { i: 1 }, 500, true, true);
    assert!(matches!(r, Ok(NotifyAction::Tick(suraft::raft_core::engine::TickAction::Elect))));
}

#[test]
fn api_elect_and_heartbeat_for_a_follower() {
    let mut c: Node = Core::new(nid(1), Config::default(), 200, 0);
    assert!(matches!(c.handle_api_msg(ApiMessage::Elect, 5), ApiAction::Elect));
    assert!(matches!(c.handle_api_msg(ApiMessage::BroadcastHeartbeat, 5), ApiAction::Nothing));
    let m = Membership::new(vec![nid(1)]);
    match c.handle_api_msg(ApiMessage::ChangeMembership { membership: m }, 5) {
        ApiAction::PersistMembership(p) => assert_eq!(vec![nid(1)], p.node_ids()),
        _ => panic!("expected PersistMembership"),
    }
    match c.handle_api_msg(
        ApiMessage::RequestVote { rpc: RequestVote::new(Vote::new(1, nid(2)), None, 0) },
        6,
    ) {
        ApiAction::Reply(r) => assert!(r.vote_granted),
        _ => panic!("expected a reply"),
    }
}

#[test]
fn single_node_cluster_elects_itself_through_notifications() {
    let mut c: Node = Core::new(nid(1), Config::default(), 200, 0);
    let b = c.elect(300, None, Some(Membership::new(vec![nid(1)]))).unwrap();
    for s in b.sends {
        if let suraft::raft_core::engine::VoteSend::Local { target, reply, sender_vote } = s {
            let r = c.handle_notification(
                Notification::RequestVoteReply { target, reply, sender_vote },
                300,
                true,
                true,
            );
            assert!(matches!(r, Ok(NotifyAction::Nothing)));
        }
    }
    assert!(c.is_leader());
    match c.handle_api_msg(ApiMessage::Write { app_data: 9, responder: 1 }, 301) {
        ApiAction::Write(suraft::raft_core::engine::WriteOutcome::Submit { entry, .. }) => {
            assert_eq!(log_id(0, 0), entry.log_id)
        }
        _ => panic!("expected a submit"),
    }
    let r = c.handle_notification(
        Notification::IOCompleted { log_id: log_id(0, 0), responders: vec![Some(1)], done: true },
        302,
        true,
        true,
    );
    match r {
        Ok(NotifyAction::Respond { log_id: l, responders, next }) => {
            assert_eq!(log_id(0, 0), l);
            assert_eq!(vec![1], responders);
            assert!(next.is_none());
        }
        _ => panic!("expected a response"),
    }
}
