use openleaf_core::conn::{conn_step, inbound_action, ConnEvent, ConnState, Frame, InboundAction};
use openleaf_core::hub::{Hub, HUB_CAPACITY};
use openleaf_core::registry::Registry;
use openleaf_core::session::{validate_upgrade, SessionKey, UpgradeError, WsQuery};

fn key(project: &str, file: &str) -> SessionKey {
    SessionKey { project_id: project.to_string(), file_path: file.to_string() }
}

#[test]
fn publish_reaches_other_not_sender() {
    let mut hub = Hub::new();
    let a = hub.subscribe().unwrap();
    let b = hub.subscribe().unwrap();
    hub.publish(&vec![0x01, 0x02], a);
    assert_eq!(hub.recv(b), Some(vec![0x01, 0x02]));
    assert_eq!(hub.recv(a), None);
}

#[test]
fn distinct_sessions_are_isolated() {
    let mut reg = Registry::new();
    let r1 = reg.resolve_or_create(key("proj1", "main.tex"));
    let r2 = reg.resolve_or_create(key("proj2", "main.tex"));
    assert_ne!(r1, r2);
    let a = reg.subscribe_in(r1).unwrap();
    let b = reg.subscribe_in(r2).unwrap();
    reg.publish_in(r1, &vec![9], a);
    assert_eq!(reg.recv_in(r2, b), None);
    let c = reg.subscribe_in(r1).unwrap();
    reg.publish_in(r1, &vec![7], c);
    assert_eq!(reg.recv_in(r2, b), None);
    assert_eq!(reg.recv_in(r1, a), Some(vec![7]));
}

#[test]
fn repeated_joins_share_one_hub() {
    let mut reg = Registry::new();
    let first = reg.resolve_or_create(key("proj1", "main.tex"));
    let second = reg.resolve_or_create(key("proj1", "main.tex"));
    let third = reg.resolve_or_create(key("proj1", "main.tex"));
    assert_eq!(first, second);
    assert_eq!(first, third);
    assert_eq!(reg.room_count(), 1);
    let a = reg.subscribe_in(first).unwrap();
    let b = reg.subscribe_in(second).unwrap();
    let c = reg.subscribe_in(third).unwrap();
    reg.publish_in(first, &vec![5], a);
    assert_eq!(reg.recv_in(first, b), Some(vec![5]));
    assert_eq!(reg.recv_in(first, c), Some(vec![5]));
    assert_eq!(reg.recv_in(first, a), None);
}

#[test]
fn slow_subscriber_buffer_stays_bounded() {
    let mut hub = Hub::new();
    let writer = hub.subscribe().unwrap();
    let sleeper = hub.subscribe().unwrap();
    for i in 0..300u32 {
        hub.publish(&vec![(i >> 8) as u8, i as u8], writer);
    }
    // The oldest payloads were dropped: the first one still buffered is
    // number 300 - HUB_CAPACITY.
    let first_kept = 300 - HUB_CAPACITY as u32;
    assert_eq!(
        hub.recv(sleeper),
        Some(vec![(first_kept >> 8) as u8, first_kept as u8])
    );
    let mut drained = 1;
    while hub.recv(sleeper).is_some() {
        drained += 1;
    }
    assert_eq!(drained, HUB_CAPACITY);
}

#[test]
fn disconnect_leaves_rest_undisturbed() {
    let mut hub = Hub::new();
    let a = hub.subscribe().unwrap();
    let b = hub.subscribe().unwrap();
    let c = hub.subscribe().unwrap();
    hub.unsubscribe(b);
    assert_eq!(hub.sub_count(), 2);
    hub.publish(&vec![0x42], a);
    assert_eq!(hub.recv(c), Some(vec![0x42]));
    assert_eq!(hub.recv(a), None);
    assert_eq!(hub.recv(b), None);
}

#[test]
fn ping_answered_never_published() {
    match inbound_action(Frame::Ping(vec![1, 2, 3])) {
        InboundAction::ReplyPong(d) => assert_eq!(d, vec![1, 2, 3]),
        _ => panic!("a ping must be answered with a pong"),
    }
    match inbound_action(Frame::Binary(vec![8])) {
        InboundAction::Publish(d) => assert_eq!(d, vec![8]),
        _ => panic!("a binary frame must be published"),
    }
    match inbound_action(Frame::Text(vec![b'h', b'i'])) {
        InboundAction::Publish(d) => assert_eq!(d, vec![b'h', b'i']),
        _ => panic!("a text frame must be published"),
    }
    assert!(matches!(inbound_action(Frame::Close), InboundAction::Shutdown));
    assert!(matches!(inbound_action(Frame::Pong(vec![])), InboundAction::Ignore));
}

#[test]
fn two_joiners_relay_then_close() {
    let mut reg = Registry::new();
    let room = reg.resolve_or_create(key("proj1", "main.tex"));
    let j1 = reg.subscribe_in(room).unwrap();
    let j2 = reg.subscribe_in(room).unwrap();
    reg.publish_in(room, &vec![0x01, 0x02], j1);
    assert_eq!(reg.recv_in(room, j2), Some(vec![0x01, 0x02]));
    assert_eq!(reg.recv_in(room, j1), None);
    // J2 closes; J1 sends again: nothing blocks, and nobody is left to
    // receive it.
    reg.unsubscribe_in(room, j2);
    reg.publish_in(room, &vec![0x03], j1);
    assert_eq!(reg.recv_in(room, j1), None);
    assert_eq!(reg.recv_in(room, j2), None);
}

#[test]
fn late_joiner_gets_no_replay() {
    let mut reg = Registry::new();
    let room = reg.resolve_or_create(key("proj1", "main.tex"));
    let j1 = reg.subscribe_in(room).unwrap();
    let _j2 = reg.subscribe_in(room).unwrap();
    reg.publish_in(room, &vec![0x01, 0x02], j1);
    let j3 = reg.subscribe_in(room).unwrap();
    assert_eq!(reg.recv_in(room, j3), None);
    reg.publish_in(room, &vec![0x04], j1);
    assert_eq!(reg.recv_in(room, j3), Some(vec![0x04]));
    assert_eq!(reg.recv_in(room, j3), None);
}

#[test]
fn connection_lifecycle_runs_forward_only() {
    let s = ConnState::Connecting;
    let s = conn_step(s, ConnEvent::Upgraded);
    assert_eq!(s, ConnState::Subscribed);
    let s = conn_step(s, ConnEvent::FlowsStarted);
    assert_eq!(s, ConnState::Active);
    let s = conn_step(s, ConnEvent::FlowEnded);
    assert_eq!(s, ConnState::Closing);
    let s = conn_step(s, ConnEvent::TeardownComplete);
    assert_eq!(s, ConnState::Closed);
    for e in [
        ConnEvent::Upgraded,
        ConnEvent::FlowsStarted,
        ConnEvent::FlowEnded,
        ConnEvent::ShutdownRequested,
        ConnEvent::TeardownComplete,
    ] {
        assert_eq!(conn_step(ConnState::Closed, e), ConnState::Closed);
    }
    assert_eq!(
        conn_step(ConnState::Active, ConnEvent::ShutdownRequested),
        ConnState::Closing
    );
    assert_eq!(conn_step(ConnState::Connecting, ConnEvent::FlowEnded), ConnState::Connecting);
}

#[test]
fn upgrade_requires_both_parameters() {
    let ok = validate_upgrade(&WsQuery {
        token: None,
        project_id: "p1".to_string(),
        file_path: "main.tex".to_string(),
    });
    let k = match ok {
        Ok(k) => k,
        Err(_) => panic!("a complete query must be accepted"),
    };
    assert_eq!(k.project_id, "p1");
    assert_eq!(k.file_path, "main.tex");

    let missing_project = validate_upgrade(&WsQuery {
        token: Some("t".to_string()),
        project_id: String::new(),
        file_path: "main.tex".to_string(),
    });
    assert!(matches!(missing_project, Err(UpgradeError::EmptyProjectId)));

    let missing_file = validate_upgrade(&WsQuery {
        token: None,
        project_id: "p1".to_string(),
        file_path: String::new(),
    });
    assert!(matches!(missing_file, Err(UpgradeError::EmptyFilePath)));
}

#[test]
fn session_keys_compare_by_pair() {
    let a = key("p1", "a.tex");
    let b = key("p1", "a.tex");
    let c = key("p1", "b.tex");
    let d = key("p2", "a.tex");
    assert!(a.same_session(&b));
    assert!(!a.same_session(&c));
    assert!(!a.same_session(&d));
    assert_eq!(a.doc_key(), "p1:a.tex");
}

#[test]
fn subscriber_ids_are_fresh() {
    let mut hub = Hub::new();
    let a = hub.subscribe().unwrap();
    let b = hub.subscribe().unwrap();
    assert_ne!(a, b);
    hub.unsubscribe(a);
    let c = hub.subscribe().unwrap();
    assert_ne!(b, c);
    assert_ne!(a, c);
}

#[test]
fn delivery_keeps_publish_order() {
    let mut hub = Hub::new();
    let a = hub.subscribe().unwrap();
    let b = hub.subscribe().unwrap();
    hub.publish(&vec![1], a);
    hub.publish(&vec![2], a);
    hub.publish(&vec![3], a);
    assert_eq!(hub.recv(b), Some(vec![1]));
    assert_eq!(hub.recv(b), Some(vec![2]));
    assert_eq!(hub.recv(b), Some(vec![3]));
    assert_eq!(hub.recv(b), None);
}
