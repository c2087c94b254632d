use nineballnet::ports::{PortTable, ServerProcess};
use nineballnet::router::{
    local_worker_url, plan_proxy, pump_action, pump_frames, Frame, PumpAction, RouteError,
};

fn payload(frame: &Frame) -> &[u8] {
    match frame {
        Frame::Binary(b) => b,
        other => panic!("expected a binary frame, got {:?}", frame_kind(other)),
    }
}

fn frame_kind(frame: &Frame) -> &'static str {
    match frame {
        Frame::Text(_) => "text",
        Frame::Binary(_) => "binary",
        Frame::Close => "close",
        Frame::Control => "control",
    }
}

#[test]
fn pump_action_per_frame() {
    match pump_action(Frame::Binary(vec![1, 2, 3])) {
        PumpAction::Forward(Frame::Binary(b)) => assert_eq!(b, vec![1, 2, 3]),
        _ => panic!("binary frames must be forwarded unchanged"),
    }
    match pump_action(Frame::Text("hello".to_string())) {
        PumpAction::Forward(Frame::Text(t)) => assert_eq!(t, "hello"),
        _ => panic!("text frames must be forwarded unchanged"),
    }
    assert!(matches!(pump_action(Frame::Close), PumpAction::CloseOther));
    assert!(matches!(pump_action(Frame::Control), PumpAction::Skip));
}

#[test]
fn pump_is_byte_transparent_in_order() {
    let small = vec![7u8, 8, 9];
    let large: Vec<u8> = (0..100_000u32).map(|i| (i % 251) as u8).collect();
    let mid = vec![0u8; 1];
    let frames = vec![
        Frame::Binary(small.clone()),
        Frame::Control,
        Frame::Binary(large.clone()),
        Frame::Text("interleaved".to_string()),
        Frame::Binary(mid.clone()),
    ];
    let out = pump_frames(frames);
    assert_eq!(out.len(), 4);
    assert_eq!(payload(&out[0]), small.as_slice());
    assert_eq!(payload(&out[1]), large.as_slice());
    match &out[2] {
        Frame::Text(t) => assert_eq!(t, "interleaved"),
        _ => panic!("text frame lost"),
    }
    assert_eq!(payload(&out[3]), mid.as_slice());
}

#[test]
fn pump_stops_at_close_and_forwards_nothing_after() {
    let frames = vec![
        Frame::Binary(vec![1]),
        Frame::Close,
        Frame::Binary(vec![2]),
        Frame::Text("late".to_string()),
    ];
    let out = pump_frames(frames);
    assert_eq!(out.len(), 1);
    assert_eq!(payload(&out[0]), &[1]);
}

#[test]
fn local_worker_url_exact() {
    let url = local_worker_url(8005, &"abc".to_string());
    assert_eq!(url, "ws://127.0.0.1:8005/?token=abc");
}

#[test]
fn proxy_plan_resolves_match_id_to_port() {
    let mut table = PortTable::new(8000, 8010);
    table.register(ServerProcess {
        port: 8003,
        match_id: "m-77".to_string(),
        started_at: 5,
    });
    let plan = plan_proxy(&table, &"m-77".to_string(), Some("tok".to_string())).unwrap();
    assert_eq!(plan.port, 8003);
    assert_eq!(plan.local_url, "ws://127.0.0.1:8003/?token=tok");
}

#[test]
fn proxy_plan_absent_token_defaults_to_empty() {
    let mut table = PortTable::new(8000, 8010);
    table.register(ServerProcess {
        port: 8000,
        match_id: "m-1".to_string(),
        started_at: 5,
    });
    let plan = plan_proxy(&table, &"m-1".to_string(), None).unwrap();
    assert_eq!(plan.local_url, "ws://127.0.0.1:8000/?token=");
}

#[test]
fn proxy_plan_unknown_match_is_not_found() {
    let table = PortTable::new(8000, 8010);
    let r = plan_proxy(&table, &"m-none".to_string(), Some("tok".to_string()));
    assert_eq!(r.err(), Some(RouteError::MatchNotFound));
}

#[test]
fn routing_error_surface() {
    assert_eq!(RouteError::MatchNotFound.message(), "Match not found");
    assert_eq!(RouteError::MatchNotFound.http_status(), 404);
}
