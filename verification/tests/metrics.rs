use suraft::metrics::metric::Metric;
use suraft::metrics::metrics::Metrics;
use suraft::metrics::server_state::ServerState;
use suraft::metrics::wait::{wait_deadline, wait_step, wait_timeout, WaitStep};
use suraft::metrics::wait_condition::Condition;
use suraft::storage::vote::Vote;
use suraft::testing::{log_id, nid};

fn sample() -> Metrics {
    let mut m = Metrics::new_initial(nid(1));
    m.vote = Some(Vote::new_committed(3, nid(1)));
    m.committed = Some(log_id(3, 10));
    m.server_state = ServerState::Leader;
    m.current_leader = Some(nid(1));
    m
}

#[test]
fn initial_metrics() {
    let m = Metrics::new_initial(nid(7));
    assert_eq!(Ok(()), m.running_state);
    assert_eq!("7", m.id);
    assert_eq!(None, m.vote);
    assert_eq!(ServerState::Follower, m.server_state);
    assert_eq!(ServerState::Follower, ServerState::default());
}

#[test]
fn metrics_compare_with_metric() {
    let m = sample();
    assert!(m.metric_eq(&Metric::Term(3)));
    assert!(!m.metric_eq(&Metric::Term(2)));
    assert!(m.metric_ge(&Metric::Term(2)));
    assert!(!m.metric_ge(&Metric::Term(4)));
    assert!(m.metric_eq(&Metric::LastLogIndex(Some(10))));
    assert!(m.metric_ge(&Metric::LastLogIndex(None)));
    assert!(!m.metric_ge(&Metric::LastLogIndex(Some(11))));
    assert!(m.metric_ge(&Metric::Vote(Some(Vote::new(3, nid(2))))));
    assert!(!m.metric_eq(&Metric::Vote(Some(Vote::new(3, nid(2))))));
    assert!(m.metric_eq(&Metric::Vote(Some(Vote::new_committed(3, nid(1))))));
    let empty = Metrics::new_initial(nid(1));
    assert!(empty.metric_eq(&Metric::LastLogIndex(None)));
    assert!(!empty.metric_ge(&Metric::Term(0)));
}

#[test]
fn condition_text() {
    let c = Condition::ge(Metric::Term(3));
    assert_eq!("term>=3", c.display());
    assert_eq!("term", c.name());
    assert_eq!(">=", c.op());
    assert_eq!("3", c.value());
    let c = Condition::eq(Metric::LastLogIndex(None));
    assert_eq!("last_log_index==None", c.display());
    let c = Condition::eq(Metric::Vote(Some(Vote::new(1, nid(2)))));
    assert_eq!("vote==<T1-N2:->", c.display());
    assert_eq!("vote", Metric::Vote(None).name());
    assert_eq!("None", Metric::Vote(None).value());
    assert!(Condition::ge(Metric::Term(2)).is_met(&sample()));
    assert!(!Condition::eq(Metric::Term(2)).is_met(&sample()));
}

#[test]
fn wait_steps() {
    assert_eq!(1500, wait_deadline(1000, 500));
    assert_eq!(WaitStep::Done, wait_step(true, 2000, 1500));
    assert_eq!(WaitStep::TimedOut, wait_step(false, 1500, 1500));
    assert_eq!(WaitStep::Sleep(300), wait_step(false, 1200, 1500));
    assert_eq!(7, wait_timeout(Some(7)));
    assert_eq!(86400 * 365 * 10 * 1000, wait_timeout(None));
}

#[test]
fn metrics_display() {
    let mut m = sample();
    assert_eq!(
        "Metrics{id:1, Leader, vote:<T3-N1:Q>, last_log:3.10, leader:1(quorum_acked_time:None), heartbeat:{None}}",
        m.display(0)
    );
    m.last_quorum_acked = Some(1000);
    m.heartbeat = Some(vec![(nid(1), Some(1000)), (nid(2), None)]);
    assert_eq!(
        "Metrics{id:1, Leader, vote:<T3-N1:Q>, last_log:3.10, leader:1(quorum_acked_time:1000, 250ms ago), heartbeat:{1:1000,2:None}}",
        m.display(1250)
    );
    let f = Metrics::new_initial(nid(2));
    assert_eq!(
        "Metrics{id:2, Follower, vote:None, last_log:None, leader:None(quorum_acked_time:None), heartbeat:{None}}",
        f.display(5)
    );
}
