use codex_monitor_daemon::json::JsonValue;
use codex_monitor_daemon::session::{classify_child_frame, session_closed_error, EventRing,
    FrameKind, Recv, SessionState};

fn obj(fields: Vec<(&str, JsonValue)>) -> JsonValue {
    JsonValue::Object(fields.into_iter().map(|(k, v)| (k.to_string(), v)).collect())
}

#[test]
fn request_ids_are_fresh_and_fulfilment_clears_slots() {
    let mut s = SessionState::new();
    let a = s.alloc_request_id();
    let b = s.alloc_request_id();
    assert_ne!(a, b);
    assert!(s.fulfil(a));
    assert!(!s.fulfil(a), "a slot is fulfilled at most once");
    assert!(s.fulfil(b));
}

#[test]
fn teardown_fails_every_pending_slot() {
    let mut s = SessionState::new();
    let a = s.alloc_request_id();
    let b = s.alloc_request_id();
    let c = s.alloc_request_id();
    assert!(s.fulfil(b));
    let drained = s.teardown();
    assert_eq!(drained, vec![a, c]);
    assert_eq!(s.pending.len(), 0);
    assert_eq!(session_closed_error(), "session closed");
}

#[test]
fn child_frames_are_triaged() {
    let response = obj(vec![("id", JsonValue::Uint(4)), ("result", JsonValue::Null)]);
    assert!(matches!(classify_child_frame(&response), FrameKind::Response { id: 4 }));

    let error_reply = obj(vec![("id", JsonValue::Uint(5)), ("error", JsonValue::Null)]);
    assert!(matches!(classify_child_frame(&error_reply), FrameKind::Response { id: 5 }));

    let server_req = obj(vec![
        ("id", JsonValue::Uint(9)),
        ("method", JsonValue::Text("approval".to_string())),
    ]);
    assert!(matches!(classify_child_frame(&server_req), FrameKind::ServerRequest { id: 9 }));

    let note = obj(vec![("method", JsonValue::Text("log".to_string()))]);
    assert!(matches!(classify_child_frame(&note), FrameKind::Notification));
}

#[test]
fn publishing_never_blocks_and_overwrites_the_oldest() {
    let mut ring: EventRing<u64> = EventRing::new(2);
    let mut sub = ring.subscribe();
    ring.publish(1);
    ring.publish(2);
    // The ring is full; publishing still succeeds and drops the oldest.
    ring.publish(3);
    assert_eq!(ring.buffer.len(), 2);

    // The subscriber lagged behind the dropped event: it skips and resumes.
    assert!(matches!(ring.recv(&mut sub), Recv::Lagged));
    match ring.recv(&mut sub) {
        Recv::Event(v) => assert_eq!(v, 2),
        _ => panic!("expected an event"),
    }
    match ring.recv(&mut sub) {
        Recv::Event(v) => assert_eq!(v, 3),
        _ => panic!("expected an event"),
    }
    assert!(matches!(ring.recv(&mut sub), Recv::Empty));
}

#[test]
fn subscribers_see_only_later_events() {
    let mut ring: EventRing<u64> = EventRing::new(8);
    ring.publish(1);
    let mut sub = ring.subscribe();
    assert!(matches!(ring.recv(&mut sub), Recv::Empty));
    ring.publish(2);
    match ring.recv(&mut sub) {
        Recv::Event(v) => assert_eq!(v, 2),
        _ => panic!("expected an event"),
    }
}
