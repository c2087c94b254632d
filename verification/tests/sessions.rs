use nineballnet::gateway::{inbound_event, InboundEvent, SessionGateway};
use nineballnet::router::Frame;

#[test]
fn session_ids_are_monotonic_and_fresh() {
    let mut g = SessionGateway::new();
    let s1 = g.register_session();
    let s2 = g.register_session();
    let s3 = g.register_session();
    assert_eq!(s1, 1);
    assert_eq!(s2, 2);
    assert_eq!(s3, 3);
    assert!(g.has_session(1) && g.has_session(2) && g.has_session(3));

    // A removed id is never handed out again: the counter keeps growing.
    g.remove_session(2);
    let s4 = g.register_session();
    assert_eq!(s4, 4);
    assert!(!g.has_session(2));
}

#[test]
fn double_removal_is_idempotent() {
    let mut g = SessionGateway::new();
    let id = g.register_session();
    let other = g.register_session();
    g.remove_session(id);
    assert!(!g.has_session(id));
    assert!(g.has_session(other));
    // The peer task of the same connection removes again on its own exit.
    g.remove_session(id);
    assert!(!g.has_session(id));
    assert!(g.has_session(other));
}

#[test]
fn broadcast_reaches_every_registered_session() {
    let mut g = SessionGateway::new();
    let a = g.register_session();
    let b = g.register_session();
    let c = g.register_session();
    g.remove_session(b);
    let frames = g.broadcast_frames(&vec![9, 9, 9]);
    let targets: Vec<u64> = frames.iter().map(|f| f.0).collect();
    assert_eq!(targets, vec![a, c]);
    for (_, bytes) in frames {
        assert_eq!(bytes, vec![9, 9, 9]);
    }
}

#[test]
fn inbound_frames_feed_the_simulation_channel() {
    match inbound_event(Frame::Binary(vec![5, 6])) {
        InboundEvent::Deliver(b) => assert_eq!(b, vec![5, 6]),
        _ => panic!("binary frames must be delivered"),
    }
    match inbound_event(Frame::Text("ab".to_string())) {
        InboundEvent::Deliver(b) => assert_eq!(b, b"ab".to_vec()),
        _ => panic!("text frames must be delivered as their bytes"),
    }
    assert!(matches!(inbound_event(Frame::Close), InboundEvent::Shutdown));
    assert!(matches!(inbound_event(Frame::Control), InboundEvent::Ignore));
}
