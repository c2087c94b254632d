use nineballnet::allocator::{finish_allocation, pick_port, AllocateRequest};
use nineballnet::ids::{mint_match_identity, validate_player_id, IdError};
use nineballnet::matchmaker::{enqueue_step, pair_decision, EnqueueOutcome, PairDecision};
use nineballnet::ports::PortTable;
use nineballnet::queue::MatchQueue;
use nineballnet::ticket::{delete_for_player, latest_ready, persist_pairing, ready_pair, TicketStatus};

#[test]
fn single_player_keeps_searching() {
    let mut queue = MatchQueue::new();
    let r = enqueue_step(&mut queue, "player-a".to_string());
    assert!(matches!(r, EnqueueOutcome::Searching));
    assert_eq!(queue.len(), 1);
}

#[test]
fn two_players_pair_in_fifo_order() {
    let mut queue = MatchQueue::new();
    enqueue_step(&mut queue, "player-a".to_string());
    let r = enqueue_step(&mut queue, "player-b".to_string());
    match r {
        EnqueueOutcome::Paired(a, b) => {
            assert_eq!(a, "player-a");
            assert_eq!(b, "player-b");
        }
        _ => panic!("expected a pairing"),
    }
    assert_eq!(queue.len(), 0);
}

#[test]
fn duplicate_self_enqueue_never_self_pairs() {
    let mut queue = MatchQueue::new();
    enqueue_step(&mut queue, "player-a".to_string());
    let r = enqueue_step(&mut queue, "player-a".to_string());
    assert!(matches!(r, EnqueueOutcome::DuplicateDiscarded));
    assert_eq!(queue.len(), 0);
}

#[test]
fn queue_never_holds_more_than_one_surplus() {
    let mut queue = MatchQueue::new();
    for name in ["p1", "p2", "p3", "p4", "p5"] {
        enqueue_step(&mut queue, name.to_string());
        assert!(queue.len() <= 1);
    }
}

#[test]
fn pair_decision_covers_the_race_rules() {
    match pair_decision(Some("a".to_string()), Some("b".to_string())) {
        PairDecision::Proceed(a, b) => {
            assert_eq!(a, "a");
            assert_eq!(b, "b");
        }
        _ => panic!("expected a pairing"),
    }
    assert!(matches!(
        pair_decision(Some("a".to_string()), Some("a".to_string())),
        PairDecision::DiscardDuplicate
    ));
    match pair_decision(Some("a".to_string()), None) {
        PairDecision::RequeueStraggler(a) => assert_eq!(a, "a"),
        _ => panic!("expected a straggler"),
    }
    match pair_decision(None, Some("b".to_string())) {
        PairDecision::RequeueStraggler(b) => assert_eq!(b, "b"),
        _ => panic!("expected a straggler"),
    }
    assert!(matches!(pair_decision(None, None), PairDecision::Abandon));
}

#[test]
fn full_pairing_scenario_produces_twin_ready_tickets() {
    let mut queue = MatchQueue::new();
    let mut table = PortTable::new(8000, 8010);
    let store = Vec::new();

    // Player A searches: no ready ticket yet.
    let r = enqueue_step(&mut queue, "player-a".to_string());
    assert!(matches!(r, EnqueueOutcome::Searching));
    assert_eq!(latest_ready(&store, &"player-a".to_string()), None);

    // Player B arrives: the pair forms and a worker is allocated.
    let r = enqueue_step(&mut queue, "player-b".to_string());
    let (a, b) = match r {
        EnqueueOutcome::Paired(a, b) => (a, b),
        _ => panic!("expected a pairing"),
    };
    let identity = mint_match_identity();
    let req = AllocateRequest {
        match_id: identity.match_id,
        p1_token: identity.p1_token,
        p2_token: identity.p2_token,
    };
    let port = pick_port(&table).unwrap();
    let resp = finish_allocation(&mut table, port, &req, 1000, true, &"play.example.net".to_string())
        .unwrap();

    let (t_a, t_b) = ready_pair(
        &req.match_id,
        a,
        b,
        req.p1_token.clone(),
        req.p2_token.clone(),
        &resp.connect_url,
        1000,
    );
    assert_eq!(t_a.status, TicketStatus::Ready);
    assert_eq!(t_b.status, TicketStatus::Ready);
    assert_eq!(t_a.match_id, t_b.match_id);
    assert_eq!(t_a.connect_url, t_b.connect_url);
    assert_eq!(
        t_a.connect_url.clone().unwrap(),
        format!("wss://play.example.net/play/{}", req.match_id)
    );
    assert_ne!(t_a.handoff_token, t_b.handoff_token);
    assert_eq!(t_a.player_id, "player-a");
    assert_eq!(t_b.player_id, "player-b");
}

#[test]
fn stale_tickets_are_deleted_before_a_new_search() {
    let mut store = Vec::new();
    let (t_a, t_b) = ready_pair(
        &"m-old".to_string(),
        "player-a".to_string(),
        "player-b".to_string(),
        "tok-a".to_string(),
        "tok-b".to_string(),
        &"wss://host/play/m-old".to_string(),
        10,
    );
    store.push(t_a);
    store.push(t_b);
    let store = delete_for_player(store, &"player-a".to_string());
    assert_eq!(store.len(), 1);
    assert_eq!(store[0].player_id, "player-b");
    assert_eq!(latest_ready(&store, &"player-a".to_string()), None);
    assert_eq!(latest_ready(&store, &"player-b".to_string()), Some(0));
}

#[test]
fn poll_returns_most_recent_ready_ticket() {
    let mut store = Vec::new();
    let (t1, _) = ready_pair(
        &"m-1".to_string(),
        "player-a".to_string(),
        "player-x".to_string(),
        "tok-1".to_string(),
        "tok-x".to_string(),
        &"wss://host/play/m-1".to_string(),
        10,
    );
    let (t2, _) = ready_pair(
        &"m-2".to_string(),
        "player-a".to_string(),
        "player-y".to_string(),
        "tok-2".to_string(),
        "tok-y".to_string(),
        &"wss://host/play/m-2".to_string(),
        20,
    );
    store.push(t1);
    store.push(t2);
    let best = latest_ready(&store, &"player-a".to_string()).unwrap();
    assert_eq!(store[best].match_id, "m-2");
    assert_eq!(store[best].created_at, 20);
}

#[test]
fn player_id_validation_accepts_uuids_only() {
    assert_eq!(
        validate_player_id(&"550e8400-e29b-41d4-a716-446655440000".to_string()),
        Ok(())
    );
    assert_eq!(
        validate_player_id(&"not-a-uuid".to_string()),
        Err(IdError::InvalidFormat)
    );
    assert_eq!(
        validate_player_id(&"".to_string()),
        Err(IdError::InvalidFormat)
    );
}

#[test]
fn minted_identity_is_three_fresh_uuids() {
    let m = mint_match_identity();
    assert_eq!(m.match_id.len(), 36);
    assert_eq!(m.p1_token.len(), 36);
    assert_eq!(m.p2_token.len(), 36);
    assert_eq!(validate_player_id(&m.match_id), Ok(()));
    assert_eq!(validate_player_id(&m.p1_token), Ok(()));
    assert_eq!(validate_player_id(&m.p2_token), Ok(()));
    assert!(uuid::Uuid::parse_str(&m.match_id).is_ok());
    assert_ne!(m.match_id, m.p1_token);
    assert_ne!(m.p1_token, m.p2_token);
    assert_ne!(m.match_id, m.p2_token);
    let again = mint_match_identity();
    assert_ne!(m.match_id, again.match_id);
}

#[test]
fn id_error_surface() {
    assert_eq!(
        IdError::InvalidFormat.message(),
        "Invalid player ID format in token"
    );
}

#[test]
fn pairing_replaces_stale_rows_for_both_players() {
    let mut store = Vec::new();
    let (a_old, b_old) = ready_pair(
        &"m-old".to_string(),
        "player-a".to_string(),
        "player-b".to_string(),
        "tok-old-a".to_string(),
        "tok-old-b".to_string(),
        &"wss://host/play/m-old".to_string(),
        10,
    );
    let (c_row, b_older) = ready_pair(
        &"m-older".to_string(),
        "player-c".to_string(),
        "player-b".to_string(),
        "tok-c".to_string(),
        "tok-older-b".to_string(),
        &"wss://host/play/m-older".to_string(),
        5,
    );
    store.push(a_old);
    store.push(b_old);
    store.push(c_row);
    store.push(b_older);

    let store = persist_pairing(
        store,
        &"m-new".to_string(),
        "player-a".to_string(),
        "player-b".to_string(),
        "tok-a".to_string(),
        "tok-b".to_string(),
        &"wss://host/play/m-new".to_string(),
        99,
    );

    // Exactly one row each for the matched players, the new ready ones;
    // an uninvolved player's row survives untouched.
    let a_rows: Vec<_> = store.iter().filter(|t| t.player_id == "player-a").collect();
    let b_rows: Vec<_> = store.iter().filter(|t| t.player_id == "player-b").collect();
    assert_eq!(a_rows.len(), 1);
    assert_eq!(b_rows.len(), 1);
    assert_eq!(a_rows[0].match_id, "m-new");
    assert_eq!(b_rows[0].match_id, "m-new");
    assert_eq!(a_rows[0].status, TicketStatus::Ready);
    assert_eq!(b_rows[0].status, TicketStatus::Ready);
    assert_eq!(
        a_rows[0].connect_url.clone().unwrap(),
        "wss://host/play/m-new"
    );
    assert_eq!(a_rows[0].handoff_token.clone().unwrap(), "tok-a");
    assert_eq!(b_rows[0].handoff_token.clone().unwrap(), "tok-b");
    assert_eq!(store.len(), 3);
    assert_eq!(store[0].player_id, "player-c");
    assert_eq!(store[0].match_id, "m-older");
    assert_eq!(store[0].created_at, 5);
    assert_eq!(latest_ready(&store, &"player-a".to_string()), Some(1));
    assert_eq!(latest_ready(&store, &"player-b".to_string()), Some(2));
}
