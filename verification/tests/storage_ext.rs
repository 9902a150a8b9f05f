use suraft::base::threaded::{OptionalSend, OptionalSync};
use suraft::raft_core::progress::quorum_clock;
use suraft::storage::log::entry::Entry;
use suraft::storage::log::io_state::IOState;
use suraft::storage::log_storage_ext::{last_log_entry_path, recorded_last_path};
use suraft::suraft::responder::{OneshotResponder, Responder};
use suraft::testing::{blank_ent, log_id, nid};

#[test]
fn recorded_last_path_decodes_json() {
    assert_eq!(Ok("".to_string()), recorded_last_path(None));
    assert_eq!(
        Ok("/log/01-3.entry".to_string()),
        recorded_last_path(Some(b"\"/log/01-3.entry\"".to_vec()))
    );
    assert_eq!(Ok("a\"b".to_string()), recorded_last_path(Some(b"\"a\\\"b\"".to_vec())));
    assert!(recorded_last_path(Some(b"/log/01-3.entry".to_vec())).is_err());
    assert!(recorded_last_path(Some(b"3".to_vec())).is_err());
}

#[test]
fn last_entry_path_choice() {
    assert_eq!(None, last_log_entry_path(String::new(), vec![]));
    assert_eq!(Some("r".to_string()), last_log_entry_path("r".to_string(), vec![]));
    assert_eq!(
        Some("b".to_string()),
        last_log_entry_path("r".to_string(), vec!["a".to_string(), "b".to_string()])
    );
}

#[test]
fn testing_builders() {
    let e: Entry<u64> = blank_ent(2, 3);
    assert_eq!(log_id(2, 3), e.log_id);
    assert!(e.payload.is_empty());
    assert_eq!("42", nid(42));
    let mut e2: Entry<u64> = Entry::default();
    assert_eq!(log_id(0, 0), *e2.get_log_id());
    e2.set_log_id(&log_id(5, 6));
    assert_eq!(&log_id(5, 6), e2.get_log_id());
}

#[test]
fn io_state_progress() {
    let mut s = IOState::new();
    assert!(s.is_idle());
    assert_eq!(None, s.submitted());
    s.submit(log_id(1, 1));
    assert!(!s.is_idle());
    assert_eq!(Some(&log_id(1, 1)), s.submitted());
    assert_eq!(None, s.flushed());
    s.flush(log_id(1, 1));
    assert!(s.is_idle());
    assert_eq!(Some(log_id(1, 1)), s.last_flushed());
}

#[test]
fn quorum_clock_takes_the_majority_time() {
    assert_eq!(Some(5), quorum_clock(&vec![Some(9), Some(5), Some(1)]));
    assert_eq!(None, quorum_clock(&vec![Some(9), None, None]));
    assert_eq!(Some(3), quorum_clock(&vec![Some(3)]));
}

fn is_send_sync<T: OptionalSend + OptionalSync>(_: &T) -> bool {
    true
}

#[test]
fn oneshot_responder_delivers_the_result() {
    let (app_data, responder, mut rx) =
        <OneshotResponder as Responder<u64>>::from_app_data(7u64);
    assert_eq!(7, app_data);
    assert!(is_send_sync(&app_data));
    Responder::<u64>::send(responder, Ok(log_id(1, 2)));
    assert_eq!(Ok(Ok(log_id(1, 2))), rx.try_recv());

    let (tx, rx) = tokio::sync::oneshot::channel();
    drop(rx);
    // Sending to a dropped receiver is not an error for the node.
    Responder::<u64>::send(OneshotResponder::new(tx), Err(suraft::errors::ForwardToLeader::empty()));
    let _ = nid(1);
}
