use nineballnet::allocator::{
    connect_url, finish_allocation, pick_port, worker_args, AllocError, AllocateRequest,
};
use nineballnet::digits::u16_to_decimal;
use nineballnet::ports::{PortTable, ServerProcess};
use nineballnet::reaper::{ports_to_free, reap_pass, WorkerStatus};

#[test]
fn decimal_rendering_exact() {
    assert_eq!(u16_to_decimal(0), "0");
    assert_eq!(u16_to_decimal(9), "9");
    assert_eq!(u16_to_decimal(10), "10");
    assert_eq!(u16_to_decimal(8000), "8000");
    assert_eq!(u16_to_decimal(65535), "65535");
}

#[test]
fn worker_args_exact_cli_contract() {
    let args = worker_args(
        8004,
        &AllocateRequest {
            match_id: "match-7".to_string(),
            p1_token: "tok-one".to_string(),
            p2_token: "tok-two".to_string(),
        },
    );
    assert_eq!(
        args,
        vec![
            "--port".to_string(),
            "8004".to_string(),
            "--p1-token".to_string(),
            "tok-one".to_string(),
            "--p2-token".to_string(),
            "tok-two".to_string(),
            "--match-id".to_string(),
            "match-7".to_string(),
        ]
    );
}

#[test]
fn connect_url_is_public_host_and_match_id() {
    let url = connect_url(&"play.example.net".to_string(), &"m-123".to_string());
    assert_eq!(url, "wss://play.example.net/play/m-123");
}

#[test]
fn first_free_port_is_lowest() {
    let mut table = PortTable::new(8000, 8002);
    assert_eq!(pick_port(&table), Ok(8000));
    table.register(ServerProcess {
        port: 8000,
        match_id: "m-a".to_string(),
        started_at: 1,
    });
    assert_eq!(pick_port(&table), Ok(8001));
}

#[test]
fn allocation_port_absent_before_present_after() {
    let mut table = PortTable::new(8000, 8002);
    let port = pick_port(&table).unwrap();
    assert!(!table.occupied(port));
    let req = AllocateRequest {
        match_id: "m-b".to_string(),
        p1_token: "t1".to_string(),
        p2_token: "t2".to_string(),
    };
    let resp = finish_allocation(&mut table, port, &req, 42, true, &"host".to_string()).unwrap();
    assert!(table.occupied(port));
    assert_eq!(resp.port, port);
    assert_eq!(resp.connect_url, "wss://host/play/m-b");
    assert_eq!(resp.node_id, "allocator-01");
    assert_eq!(table.port_for_match(&"m-b".to_string()), Some(port));
}

#[test]
fn capacity_error_when_range_full_table_unchanged() {
    let mut table = PortTable::new(8000, 8001);
    table.register(ServerProcess {
        port: 8000,
        match_id: "m-a".to_string(),
        started_at: 1,
    });
    table.register(ServerProcess {
        port: 8001,
        match_id: "m-b".to_string(),
        started_at: 2,
    });
    assert_eq!(pick_port(&table), Err(AllocError::NoCapacity));
    assert_eq!(table.occupied_count(), 2);
    assert!(table.occupied(8000));
    assert!(table.occupied(8001));
}

#[test]
fn spawn_failure_leaves_table_clean() {
    let mut table = PortTable::new(8000, 8001);
    let port = pick_port(&table).unwrap();
    let req = AllocateRequest {
        match_id: "m-c".to_string(),
        p1_token: "t1".to_string(),
        p2_token: "t2".to_string(),
    };
    let r = finish_allocation(&mut table, port, &req, 42, false, &"host".to_string());
    assert_eq!(r.err(), Some(AllocError::SpawnFailed));
    assert_eq!(table.occupied_count(), 0);
    assert!(!table.occupied(port));
}

#[test]
fn reaper_frees_only_exited_ports() {
    let mut table = PortTable::new(8000, 8003);
    table.register(ServerProcess {
        port: 8000,
        match_id: "m-a".to_string(),
        started_at: 1,
    });
    table.register(ServerProcess {
        port: 8001,
        match_id: "m-b".to_string(),
        started_at: 2,
    });
    table.register(ServerProcess {
        port: 8002,
        match_id: "m-c".to_string(),
        started_at: 3,
    });
    let statuses = vec![
        WorkerStatus { port: 8000, has_exited: false },
        WorkerStatus { port: 8001, has_exited: true },
        WorkerStatus { port: 8002, has_exited: false },
    ];
    assert_eq!(ports_to_free(&statuses), vec![8001]);
    reap_pass(&mut table, &statuses);
    assert!(table.occupied(8000));
    assert!(!table.occupied(8001));
    assert!(table.occupied(8002));
    assert_eq!(table.port_for_match(&"m-a".to_string()), Some(8000));
    assert_eq!(table.port_for_match(&"m-b".to_string()), None);
    assert_eq!(table.port_for_match(&"m-c".to_string()), Some(8002));
}

#[test]
fn killed_worker_port_is_allocatable_again() {
    let mut table = PortTable::new(8000, 8000);
    table.register(ServerProcess {
        port: 8000,
        match_id: "m-a".to_string(),
        started_at: 1,
    });
    assert_eq!(pick_port(&table), Err(AllocError::NoCapacity));
    let statuses = vec![WorkerStatus { port: 8000, has_exited: true }];
    reap_pass(&mut table, &statuses);
    assert_eq!(pick_port(&table), Ok(8000));
}

#[test]
fn allocation_error_surface() {
    assert_eq!(AllocError::NoCapacity.message(), "No ports available");
    assert_eq!(AllocError::NoCapacity.http_status(), 503);
    assert_eq!(AllocError::SpawnFailed.message(), "Failed to spawn process");
    assert_eq!(AllocError::SpawnFailed.http_status(), 500);
}
