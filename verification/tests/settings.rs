//! Configuration, program arguments, latencies and the numbered client.
use squeuelite::args::{parse_args, ArgumentError};
use squeuelite::config::{
    BatchConfig, GatewayConfig, JournalMode, OverflowPolicy, SidecarConfig, SyncMode,
};
use squeuelite::json::Json;
use squeuelite::jsonrpc::{dispatch, Routed};
use squeuelite::latency::{LatencyBuffer, LATENCY_BUF_CAP};
use squeuelite::squeue::Calls;
use squeuelite::text::{decimal_text, parse_octal};

fn words(args: &[&str]) -> Vec<String> {
    args.iter().map(|a| a.to_string()).collect()
}

#[test]
fn the_defaults_are_the_documented_ones() {
    let c = GatewayConfig::new("./app.db");
    assert_eq!(c.db_path, std::path::PathBuf::from("./app.db"));
    assert_eq!(c.journal_mode, JournalMode::Wal);
    assert_eq!(c.synchronous, SyncMode::Normal);
    assert_eq!(c.queue_capacity, 1024);
    assert!(c.track_commits && c.foreign_keys && c.idempotency);
    assert!(c.allow_raw_sql && c.allow_delete);
    assert!(!c.allow_schema_write && !c.allow_drop);
    assert_eq!(c.busy_timeout_ms, 5000);
    assert_eq!(c.overflow, OverflowPolicy::WaitTimeout { millis: 5000 });
    assert_eq!(c.batch, None);
    assert_eq!(GatewayConfig::default().db_path, std::path::PathBuf::new());
    assert_eq!(BatchConfig::default(), BatchConfig { max_size: 64, max_delay_micros: 500 });
    let copy = c.clone();
    assert_eq!(copy.db_path, c.db_path);
}

#[test]
fn modes_have_their_pragma_values() {
    assert_eq!(JournalMode::Wal.as_pragma_value(), "WAL");
    assert_eq!(JournalMode::Delete.as_pragma_value(), "DELETE");
    assert_eq!(SyncMode::Normal.as_pragma_value(), "NORMAL");
    assert_eq!(SyncMode::Full.as_pragma_value(), "FULL");
}

#[test]
fn a_sidecar_listens_for_its_owner_only() {
    let c = SidecarConfig::new("a.db", "a.sock");
    assert_eq!(c.socket_mode, 0o600);
    assert_eq!(c.socket_path, std::path::PathBuf::from("a.sock"));
    assert_eq!(c.clone().gateway.db_path, std::path::PathBuf::from("a.db"));
}

#[test]
fn arguments_are_read() {
    let a = parse_args(&words(&[
        "squeuelite-gateway",
        "--db",
        "x.db",
        "noise",
        "--socket",
        "x.sock",
        "--socket-mode",
        "660",
        "--http",
        "127.0.0.1:8080",
        "--http-token",
        "t",
        "--db",
        "y.db",
    ]))
    .unwrap();
    assert_eq!(a.db, "y.db");
    assert_eq!(a.socket.as_deref(), Some("x.sock"));
    assert_eq!(a.socket_mode, 0o660);
    assert_eq!(a.http.as_deref(), Some("127.0.0.1:8080"));
    assert_eq!(a.http_token.as_deref(), Some("t"));
    let b = parse_args(&words(&["g", "--db", "x", "--http", "h", "--socket"])).unwrap();
    assert_eq!((b.socket, b.socket_mode), (None, 0o600));
    assert_eq!(b.http_token, None);
}

#[test]
fn arguments_that_do_not_suffice_are_refused() {
    for args in [
        vec![],
        vec!["--db", "x", "--socket", "s"],
        vec!["g"],
        vec!["g", "--db", "x"],
        vec!["g", "--socket", "s", "--http", "h"],
        vec!["g", "--socket", "s", "--db"],
    ] {
        assert!(matches!(parse_args(&words(&args)), Err(ArgumentError::Usage)), "{args:?}");
    }
    match parse_args(&words(&["g", "--socket-mode", "68"])) {
        Err(ArgumentError::SocketMode(s)) => assert_eq!(s, "68"),
        other => panic!("{other:?}"),
    }
}

#[test]
fn permission_bits_are_octal() {
    assert_eq!(parse_octal("600"), Some(384));
    assert_eq!(parse_octal("+7"), Some(7));
    assert_eq!(parse_octal("000000000000000000017"), Some(15));
    assert_eq!(parse_octal("37777777777"), Some(u32::MAX));
    for bad in ["", "+", "-7", "8", "0o6", "40000000000", " 7", "++7"] {
        assert_eq!(parse_octal(bad), None, "{bad:?}");
    }
}

#[test]
fn numbers_are_written_in_decimal() {
    assert_eq!(decimal_text(0), "0");
    assert_eq!(decimal_text(1048576), "1048576");
    assert_eq!(decimal_text(u64::MAX), "18446744073709551615");
}

#[test]
fn the_oldest_measurement_makes_room() {
    let mut b = LatencyBuffer::new();
    for i in 0..(LATENCY_BUF_CAP as u64) {
        b.push(i);
    }
    let s = b.summary();
    assert_eq!((s.sum, s.count, s.p95), (523776, 1024, 972));
    b.push(5000);
    let s = b.summary();
    assert_eq!((s.sum, s.count, s.p95), (528776, 1024, 973));
    assert_eq!(b.clone().summary(), s);
}

#[test]
fn the_percentile_is_a_measured_value() {
    let p95 = |n: u64| {
        let mut b = LatencyBuffer::new();
        for i in (1..=n).rev() {
            b.push(i);
        }
        b.summary().p95
    };
    assert_eq!((p95(0), p95(1), p95(2)), (0, 1, 2));
    assert_eq!((p95(19), p95(20), p95(21)), (19, 19, 20));
    assert_eq!((p95(40), p95(100)), (38, 95));
    for n in 1..=1024u64 {
        let index = ((n as f64 * 0.95).ceil() as u64).saturating_sub(1);
        assert_eq!((95 * n).div_ceil(100) - 1, index);
    }
}

#[test]
fn calls_are_numbered() {
    let mut calls = Calls::new("agent-rs");
    assert_eq!(
        calls.execute_line(
            "INSERT INTO events(agent_id) VALUES (?)",
            Json::parse(r#"["agent-rs"]"#).unwrap(),
            Some("run-7:step-1"),
            Some("run-7"),
        ),
        r#"{"jsonrpc":"2.0","id":1,"method":"execute","params":{"actor_id":"agent-rs","operations":[{"sql":"INSERT INTO events(agent_id) VALUES (?)","params":["agent-rs"]}],"idempotency_key":"run-7:step-1","run_id":"run-7"}}"#
    );
    let ops = vec![("a".to_string(), Json::Null), ("b".to_string(), Json::integer(2))];
    assert_eq!(
        calls.transaction_line(ops, None, Some("r")),
        r#"{"jsonrpc":"2.0","id":2,"method":"execute","params":{"actor_id":"agent-rs","operations":[{"sql":"a","params":null},{"sql":"b","params":2}],"run_id":"r"}}"#
    );
    assert_eq!(
        calls.method_line("stats"),
        r#"{"jsonrpc":"2.0","id":3,"method":"stats"}"#
    );
    assert_eq!(calls.count(), 3);
}

#[test]
fn the_gateway_reads_numbered_calls() {
    let mut calls = Calls::new("agent-rs");
    let line = calls.execute_line(
        "INSERT INTO events(n) VALUES (?)",
        Json::parse("[18446744073709551615]").unwrap(),
        Some("run-7:step-1"),
        None,
    );
    match dispatch(&line) {
        Routed::Execute { id, request } => {
            assert_eq!(id, Json::integer(1));
            assert_eq!(request.request_id, "1");
            assert_eq!(request.actor_id, "agent-rs");
            assert_eq!(request.run_id, None);
            assert_eq!(request.idempotency_key.as_deref(), Some("run-7:step-1"));
            assert_eq!(request.operations.len(), 1);
            assert_eq!(request.operations[0].sql, "INSERT INTO events(n) VALUES (?)");
            assert_eq!(Json::Array(request.operations[0].params.clone()).to_text(), "[18446744073709551615]");
        }
        _ => panic!("a request was expected"),
    }
    match dispatch(&calls.method_line("checkpoint")) {
        Routed::Checkpoint { id } => assert_eq!(id, Json::integer(2)),
        _ => panic!("a checkpoint was expected"),
    }
    let odd = calls.execute_line("SELECT 1", Json::Null, None, None);
    assert!(matches!(dispatch(&odd), Routed::Execute { .. }));
    let odd = calls.execute_line("SELECT 1", Json::integer(3), None, None);
    assert!(matches!(dispatch(&odd), Routed::Reply(_)));
}

#[test]
fn arguments_give_the_configuration() {
    let words = |w: &[&str]| parse_args(&words(w)).unwrap();
    let a = words(&["g", "--db", "dir/x.db", "--socket", "x.sock", "--socket-mode", "660"]);
    assert_eq!(a.gateway_config().db_path, std::path::PathBuf::from("dir/x.db"));
    assert_eq!(a.gateway_config().queue_capacity, 1024);
    let c = a.sidecar_config().unwrap();
    assert_eq!(c.gateway.db_path, std::path::PathBuf::from("dir/x.db"));
    assert_eq!(c.socket_path, std::path::PathBuf::from("x.sock"));
    assert_eq!(c.socket_mode, 0o660);
    let b = words(&["g", "--db", "x.db", "--http", "127.0.0.1:1"]);
    assert!(b.sidecar_config().is_none());
    assert_eq!(GatewayConfig::default().db_path, std::path::PathBuf::from(""));
}
