use suraft::config::config::Config;
use suraft::config::errors::ConfigError;
use suraft::raft_core::balancer::Balancer;
use suraft::raft_core::core_state::{core_task_result, CoreState, CoreTaskEnd, JoinStep};
use suraft::errors::{Fatal, ForwardToLeader};

#[test]
fn config_default_values() {
    let c = Config::default();
    assert_eq!(150, c.election_timeout_min);
    assert_eq!(300, c.election_timeout_max);
    assert_eq!(50, c.heartbeat_interval);
    assert!(c.enable_tick && c.enable_heartbeat && c.enable_elect);
    assert_eq!(75, c.tick_interval());
}

#[test]
fn config_validate_errors() {
    let c = Config { election_timeout_min: 300, election_timeout_max: 300, ..Config::default() };
    assert_eq!(Err(ConfigError::ElectionTimeout { min: 300, max: 300 }), c.validate());
    let c = Config { election_timeout_min: 50, heartbeat_interval: 50, ..Config::default() };
    assert_eq!(
        Err(ConfigError::ElectionTimeoutLTHeartBeat { election_timeout_min: 50, heartbeat_interval: 50 }),
        c.validate()
    );
    assert_eq!(Ok(Config::default()), Config::default().validate());
}

#[test]
fn config_random_election_timeout_in_range() {
    let c = Config { election_timeout_min: 100, election_timeout_max: 103, ..Config::default() };
    let mut seen = [false; 3];
    for _ in 0..2000 {
        let t = c.new_rand_election_timeout();
        assert!((100..103).contains(&t));
        seen[(t - 100) as usize] = true;
    }
    // A draw that always gave the lower bound would never give the others.
    assert!(seen[1] || seen[2]);
    let one = Config { election_timeout_min: 7, election_timeout_max: 8, ..Config::default() };
    assert_eq!(7, one.new_rand_election_timeout());
}

#[test]
fn balancer_shares() {
    let mut b = Balancer::new(10_000);
    assert_eq!(1000, b.api_message());
    assert_eq!(9000, b.notification());
    b.increase_notification();
    assert_eq!(937, b.api_message());
    assert_eq!(9063, b.notification());
    b.increase_api_message();
    assert_eq!(995, b.api_message());
    for _ in 0..100 {
        b.increase_api_message();
    }
    assert_eq!(5000, b.api_message());
    let mut small = Balancer::new(10);
    assert_eq!(1, small.api_message());
    small.increase_notification();
    assert_eq!(1, small.api_message());
}

#[test]
fn balancer_rebalance_prefers_notifications() {
    let mut b = Balancer::new(10_000);
    b.rebalance(1000, 9000);
    assert_eq!(937, b.api_message());
    b.rebalance(937, 5);
    assert_eq!(995, b.api_message());
    b.rebalance(3, 5);
    assert_eq!(995, b.api_message());
}

#[test]
fn core_state_join_steps() {
    let mut s = CoreState::Running;
    assert!(s.is_running());
    assert_eq!(None, s.stopped_error());
    assert_eq!(JoinStep::Join, s.begin_join());
    assert!(!s.is_running());
    assert_eq!(JoinStep::Wait, s.begin_join());
    s.finish_join(CoreTaskEnd::Panicked);
    assert_eq!(JoinStep::Finished, s.begin_join());
    assert_eq!(Some(Fatal::Panicked), s.stopped_error());
}

#[test]
fn core_task_result_mapping() {
    assert_eq!(Fatal::Stopped, core_task_result(CoreTaskEnd::Cancelled));
    assert_eq!(Fatal::Panicked, core_task_result(CoreTaskEnd::Panicked));
    assert_eq!(
        Fatal::StorageError("disk".to_string()),
        core_task_result(CoreTaskEnd::Returned(Fatal::StorageError("disk".to_string())))
    );
    assert_eq!(Fatal::Stopped, Fatal::Stopped.duplicate());
}

#[test]
fn forward_to_leader_builders() {
    assert_eq!(None, ForwardToLeader::empty().leader_id);
    assert_eq!(Some("3".to_string()), ForwardToLeader::new("3".to_string()).leader_id);
}
