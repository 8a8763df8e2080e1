//! The JSON-RPC protocol, from the line of a client to the writer and back.
use rusqlite::Connection;
use squeuelite::client;
use squeuelite::config::GatewayConfig;
use squeuelite::error::Error;
use squeuelite::http;
use squeuelite::json::Json;
use squeuelite::jsonrpc;
use squeuelite::jsonrpc::Routed;
use squeuelite::queue::{Command, Performed};
use squeuelite::request::{SqlOperation, WriteRequest, WriteResponse, WriteStatus};
use squeuelite::sidecar;
use squeuelite::stats::{wal_path, Stats};
use squeuelite::submission::{check_handover, conclude, queue_depth, Handover};
use squeuelite::writer::Writer;

/// A gateway whose writer is called directly.
struct Gateway {
    writer: Writer,
    stats: Stats,
}

fn start_gateway() -> Gateway {
    let config = GatewayConfig { allow_schema_write: true, ..GatewayConfig::new(":memory:") };
    let writer = Writer::open(Connection::open_in_memory().unwrap(), config).unwrap();
    Gateway { writer, stats: Stats::new() }
}

impl Gateway {
    fn execute(&mut self, request: WriteRequest) -> Result<WriteResponse, Error> {
        let command: Command<(), ()> = Command::Write { request, respond_to: () };
        match self.writer.perform(command) {
            Performed::Replied((), response) => conclude(Handover::Taken, Some(response)),
            _ => panic!("a request must be answered"),
        }
    }

    fn answer(&mut self, line: &str) -> String {
        let routed = jsonrpc::dispatch(line);
        jsonrpc::count_routed(&routed, &mut self.stats);
        match routed {
            Routed::Reply(text) => text,
            Routed::Execute { id, request } => {
                let result = self.execute(request);
                jsonrpc::finish_execute(id, result, &mut self.stats)
            }
            Routed::Stats { id } => {
                let latency = self.writer.latency().summary();
                let avg = if latency.count == 0 {
                    0.0
                } else {
                    latency.sum as f64 / latency.count as f64
                };
                let avg = serde_json::Number::from_f64(avg).unwrap();
                let snapshot =
                    self.stats.snapshot(queue_depth(1024, 1024), 1024, None, avg, latency.p95);
                jsonrpc::finish_stats(id, &snapshot)
            }
            Routed::Checkpoint { id } => jsonrpc::finish_checkpoint(id, self.writer.checkpoint()),
        }
    }

    /// Answers what a client sent over a connection, line feed and all.
    fn converse(&mut self, sent: &str) -> String {
        match sidecar::receive(sent) {
            sidecar::Received::Line(line) => {
                let reply = self.answer(&line);
                client::received_line(&client::frame_line(&reply)).unwrap()
            }
            sidecar::Received::TooLong(answer) => answer,
        }
    }

    /// What a client does to execute operations.
    fn transaction(&mut self, actor: &str, ops: Vec<SqlOperation>) -> Result<WriteResponse, Error> {
        let request = client::new_request(actor, ops);
        let reply = self.converse(&client::frame_line(&client::execute_line(&request)));
        client::read_reply(&request.request_id, &reply)
    }

    fn one(&mut self, sql: &str, params: Vec<Json>) -> WriteResponse {
        self.transaction("agent", vec![op(sql, params)]).unwrap()
    }

    fn call(&mut self, body: &str) -> serde_json::Value {
        serde_json::from_str(&self.answer(body)).unwrap()
    }
}

fn op(sql: &str, params: Vec<Json>) -> SqlOperation {
    SqlOperation { sql: sql.to_string(), params }
}

fn json(text: &str) -> Json {
    Json::parse(text).unwrap()
}

/// What the HTTP endpoint answers: a status and a body.
fn post(gateway: &mut Gateway, token: Option<&str>, header: Option<&str>, body: &[u8]) -> (u16, String) {
    match http::screen(token, header, body) {
        http::Screened::Answer { status, body } => (status, body.to_text()),
        http::Screened::Dispatch(line) => {
            let reply = gateway.answer(line);
            (http::STATUS_OK, http::reply_body(&reply).to_text())
        }
    }
}

#[test]
fn test_jsonrpc_execute_committed() {
    let mut gateway = start_gateway();
    let resp = gateway.one(
        "CREATE TABLE IF NOT EXISTS jrpc_events (id INTEGER PRIMARY KEY, val TEXT)",
        vec![],
    );
    assert_eq!(resp.status, WriteStatus::Committed, "create must commit");
    let resp = gateway.one("INSERT INTO jrpc_events(val) VALUES (?)", vec![Json::text("hello")]);
    assert_eq!(resp.status, WriteStatus::Committed, "insert must commit");
    assert!(resp.commit_seq.is_some(), "commit_seq must be present");
}

#[test]
fn test_jsonrpc_transaction_multi_op_committed() {
    let mut gateway = start_gateway();
    gateway.one("CREATE TABLE jrpc_tx_a (id INTEGER PRIMARY KEY, val TEXT NOT NULL)", vec![]);
    gateway.one("CREATE TABLE jrpc_tx_b (id INTEGER PRIMARY KEY, val TEXT NOT NULL)", vec![]);
    let resp = gateway
        .transaction(
            "agent-jrpc-tx",
            vec![
                op("INSERT INTO jrpc_tx_a(val) VALUES (?)", vec![Json::text("row-a-1")]),
                op("INSERT INTO jrpc_tx_a(val) VALUES (?)", vec![Json::text("row-a-2")]),
                op("INSERT INTO jrpc_tx_b(val) VALUES (?)", vec![Json::text("row-b-1")]),
            ],
        )
        .expect("transaction");
    assert_eq!(
        resp.status,
        WriteStatus::Committed,
        "multi-op JSON-RPC transaction must commit"
    );
}

#[test]
fn test_jsonrpc_atomic_rollback() {
    let mut gateway = start_gateway();
    gateway.one(
        "CREATE TABLE jrpc_rollback (id INTEGER PRIMARY KEY, val TEXT NOT NULL UNIQUE)",
        vec![],
    );
    let resp = gateway
        .transaction(
            "agent-jrpc-rollback",
            vec![
                op("INSERT INTO jrpc_rollback(val) VALUES (?)", vec![Json::text("good")]),
                op("INSERT INTO jrpc_rollback(val) VALUES (?)", vec![Json::Null]),
            ],
        )
        .expect("transaction (error expected in response)");
    assert_eq!(resp.status, WriteStatus::Failed, "violating tx must fail");
    assert!(resp.error.is_some(), "error field must be set on failure");
    assert_eq!(resp.error.as_deref(), Some("NOT NULL constraint failed: jrpc_rollback.val"));
    let probe = gateway.one("INSERT INTO jrpc_rollback(val) VALUES ('good')", vec![]);
    assert_eq!(
        probe.status,
        WriteStatus::Committed,
        "probe must commit, proving op1 was rolled back"
    );
}

#[test]
fn test_jsonrpc_stats() {
    let mut gateway = start_gateway();
    let line = client::method_line(&client::new_call_id(), "stats");
    let snap: serde_json::Value =
        serde_json::from_str(&client::read_stats_result(&gateway.answer(&line)).unwrap().to_text())
            .unwrap();
    assert_eq!(snap["accepted"], 0);
    assert_eq!(snap["committed"], 0);
    gateway.one("CREATE TABLE jrpc_stats_tbl (id INTEGER PRIMARY KEY)", vec![]);
    gateway.one("INSERT INTO jrpc_stats_tbl VALUES (1)", vec![]);
    let snap: serde_json::Value =
        serde_json::from_str(&client::read_stats_result(&gateway.answer(&line)).unwrap().to_text())
            .unwrap();
    assert_eq!(snap["accepted"], 2, "accepted must be 2");
    assert_eq!(snap["committed"], 2, "committed must be 2");
    assert_eq!(snap["failed"], 0, "failed must be 0");
    assert_eq!(snap["rejected"], 0);
    assert_eq!(snap["queue_capacity"], 1024);
    assert!(snap["current_wal_size_bytes"].is_null());
    assert!(snap["avg_commit_latency"].is_f64());
    assert!(snap["p95_commit_latency"].is_u64());
}

#[test]
fn test_jsonrpc_method_not_found() {
    let mut gateway = start_gateway();
    let v = gateway.call("{\"jsonrpc\":\"2.0\",\"id\":\"x1\",\"method\":\"unknown_method\"}");
    assert_eq!(v["jsonrpc"], "2.0", "must be JSON-RPC 2.0 response");
    assert_eq!(v["id"], "x1", "id must be echoed back");
    assert_eq!(v["error"]["code"], -32601, "unknown method must return -32601");
    assert_eq!(v["error"]["message"], "method not found: unknown_method");
}

#[test]
fn test_jsonrpc_invalid_params_missing_actor_id() {
    let mut gateway = start_gateway();
    let v = gateway.call(
        r#"{"jsonrpc":"2.0","id":42,"method":"execute","params":{"operations":[{"sql":"SELECT 1","params":[]}]}}"#,
    );
    assert_eq!(v["jsonrpc"], "2.0");
    assert_eq!(v["id"], 42, "numeric id must be echoed");
    assert_eq!(v["error"]["code"], -32602, "missing actor_id must return -32602");
}

#[test]
fn test_jsonrpc_parse_error_connection_stays_open() {
    let mut gateway = start_gateway();
    let err_v: serde_json::Value =
        serde_json::from_str(&gateway.converse("not valid json at all\n")).unwrap();
    assert_eq!(err_v["jsonrpc"], "2.0", "must be JSON-RPC 2.0");
    assert_eq!(err_v["error"]["code"], -32700, "parse error must use code -32700");
    assert!(
        err_v["error"]["message"].as_str().unwrap_or("").contains("parse error"),
        "error message must mention 'parse error'"
    );
    let health_v: serde_json::Value = serde_json::from_str(
        &gateway.converse("{\"jsonrpc\":\"2.0\",\"id\":99,\"method\":\"health\"}\n"),
    )
    .unwrap();
    assert_eq!(health_v["jsonrpc"], "2.0");
    assert_eq!(health_v["id"], 99, "health id must be echoed");
    assert!(health_v.get("result").is_some(), "health must return a result object");
}

#[test]
fn test_jsonrpc_blob_params() {
    let mut gateway = start_gateway();
    gateway.one("CREATE TABLE jrpc_files (id INTEGER PRIMARY KEY, name TEXT, data BLOB)", vec![]);
    let resp = gateway.one(
        "INSERT INTO jrpc_files(name, data) VALUES (?, ?)",
        vec![Json::text("avatar.png"), json(r#"{"$blob": "aGVsbG8="}"#)],
    );
    assert_eq!(
        resp.status,
        WriteStatus::Committed,
        "BLOB insert via JSON-RPC must commit"
    );
    assert!(
        resp.commit_seq.is_some(),
        "commit_seq must be present after BLOB insert"
    );
    let stored: Vec<u8> = gateway
        .writer
        .connection()
        .query_row("SELECT data FROM jrpc_files", [], |r| r.get(0))
        .unwrap();
    assert_eq!(stored, b"hello");
}

fn execute_body(id: &str, actor: &str, key: Option<&str>, sql: &str, params: &str) -> String {
    let key = match key {
        Some(k) => format!(r#""idempotency_key":"{k}","#),
        None => String::new(),
    };
    format!(
        r#"{{"jsonrpc":"2.0","id":"{id}","method":"execute","params":{{"actor_id":"{actor}",{key}"operations":[{{"sql":"{sql}","params":{params}}}]}}}}"#
    )
}

#[test]
fn test_idempotency_same_key_same_ops_no_duplicate() {
    let mut gateway = start_gateway();
    let actor = "agent-idem";
    let setup = gateway.call(&execute_body(
        "setup",
        actor,
        None,
        "CREATE TABLE idem_tbl (id INTEGER PRIMARY KEY AUTOINCREMENT, val TEXT NOT NULL)",
        "[]",
    ));
    assert!(setup.get("result").is_some(), "CREATE TABLE must succeed; got: {setup}");
    let insert = "INSERT INTO idem_tbl(val) VALUES (?)";
    let resp1 =
        gateway.call(&execute_body("idem-req-1", actor, Some("idem-key-1"), insert, r#"["hello"]"#));
    assert!(
        resp1.get("result").is_some(),
        "first execute must return a result; got: {resp1}"
    );
    assert_eq!(resp1["result"]["status"], "committed", "first execute must commit");
    let commit_seq_1 = resp1["result"]["commit_seq"].clone();
    assert!(!commit_seq_1.is_null(), "commit_seq must be present in first response");
    let resp2 =
        gateway.call(&execute_body("idem-req-2", actor, Some("idem-key-1"), insert, r#"["hello"]"#));
    assert!(
        resp2.get("result").is_some(),
        "second execute (dedup) must return a result; got: {resp2}"
    );
    assert_eq!(
        resp2["result"]["status"], "committed",
        "second execute must also report committed (from stored response)"
    );
    assert_eq!(
        resp2["result"]["commit_seq"], commit_seq_1,
        "second execute must return the same commit_seq as the first"
    );
    let resp3 =
        gateway.call(&execute_body("idem-req-3", actor, Some("idem-key-2"), insert, r#"["world"]"#));
    assert!(
        resp3.get("result").is_some(),
        "third execute (different key) must succeed; got: {resp3}"
    );
    let resp4 =
        gateway.call(&execute_body("idem-req-4", actor, Some("idem-key-1"), insert, r#"["hello"]"#));
    assert_eq!(
        resp4["result"]["commit_seq"], commit_seq_1,
        "third send with idem-key-1 must still return the original commit_seq"
    );
    let rows: i64 = gateway
        .writer
        .connection()
        .query_row("SELECT COUNT(*) FROM idem_tbl", [], |r| r.get(0))
        .unwrap();
    assert_eq!(rows, 2);
}

#[test]
fn test_idempotency_conflict_different_ops() {
    let mut gateway = start_gateway();
    let actor = "agent-conflict";
    let setup = gateway.call(&execute_body(
        "setup-conflict",
        actor,
        None,
        "CREATE TABLE conflict_tbl (id INTEGER PRIMARY KEY AUTOINCREMENT, val TEXT)",
        "[]",
    ));
    assert!(setup.get("result").is_some(), "CREATE TABLE must succeed");
    let insert = "INSERT INTO conflict_tbl(val) VALUES (?)";
    let resp1 = gateway
        .call(&execute_body("conflict-req-1", actor, Some("conflict-key"), insert, r#"["first"]"#));
    assert_eq!(
        resp1["result"]["status"], "committed",
        "first request must commit; got: {resp1}"
    );
    let resp2 = gateway.call(&execute_body(
        "conflict-req-2",
        actor,
        Some("conflict-key"),
        insert,
        r#"["DIFFERENT"]"#,
    ));
    assert!(
        resp2.get("error").is_some(),
        "conflict request must return an error; got: {resp2}"
    );
    assert_eq!(
        resp2["error"]["code"], -32000,
        "IdempotencyConflict must map to ERR_WRITE_FAILED (-32000); got: {resp2}"
    );
    let msg = resp2["error"]["message"].as_str().unwrap_or("");
    assert!(
        msg.contains("idempotency conflict"),
        "error message must contain 'idempotency conflict'; got: {msg}"
    );
    assert_eq!(resp2["error"]["data"], resp2["error"]["message"]);
    let resp3 = gateway
        .call(&execute_body("conflict-verify", actor, Some("new-key"), insert, r#"["third"]"#));
    assert_eq!(
        resp3["result"]["status"], "committed",
        "new-key request must commit; got: {resp3}"
    );
}

#[test]
fn test_http_execute_committed() {
    let mut gateway = start_gateway();
    gateway.one(
        "CREATE TABLE IF NOT EXISTS http_events (id INTEGER PRIMARY KEY, val TEXT)",
        vec![],
    );
    let body = execute_body(
        "test-insert-1",
        "agent-http",
        None,
        "INSERT INTO http_events(val) VALUES (?)",
        r#"["hello-http"]"#,
    );
    let (status, text) = post(&mut gateway, None, None, body.as_bytes());
    assert_eq!(status, 200);
    let resp: serde_json::Value = serde_json::from_str(&text).unwrap();
    assert_eq!(resp["jsonrpc"], "2.0", "must be JSON-RPC 2.0");
    assert_eq!(resp["id"], "test-insert-1", "id must be echoed");
    assert_eq!(
        resp["result"]["status"], "committed",
        "insert must commit; got: {resp}"
    );
    assert!(
        !resp["result"]["commit_seq"].is_null(),
        "commit_seq must be present"
    );
    assert_eq!(
        text,
        r#"{"id":"test-insert-1","jsonrpc":"2.0","result":{"commit_seq":2,"status":"committed"}}"#
    );
}

#[test]
fn test_http_health() {
    assert_eq!(http::health_body().to_text(), r#"{"status":"ok"}"#);
}

#[test]
fn test_http_invalid_params() {
    let mut gateway = start_gateway();
    let (_, text) = post(
        &mut gateway,
        None,
        None,
        br#"{"jsonrpc":"2.0","id":99,"method":"execute","params":{"operations":[{"sql":"SELECT 1","params":[]}]}}"#,
    );
    let resp: serde_json::Value = serde_json::from_str(&text).unwrap();
    assert_eq!(resp["jsonrpc"], "2.0");
    assert_eq!(resp["id"], 99, "numeric id must be echoed");
    assert_eq!(
        resp["error"]["code"], -32602,
        "missing actor_id must return -32602; got: {resp}"
    );
}

#[test]
fn test_http_idempotency_dedup() {
    let mut gateway = start_gateway();
    gateway.one(
        "CREATE TABLE IF NOT EXISTS http_idem_tbl (id INTEGER PRIMARY KEY AUTOINCREMENT, val TEXT NOT NULL)",
        vec![],
    );
    let body = |id: &str| {
        execute_body(
            id,
            "agent-http-idem",
            Some("http-idem-key"),
            "INSERT INTO http_idem_tbl(val) VALUES (?)",
            r#"["idempotent-value"]"#,
        )
    };
    let (_, text1) = post(&mut gateway, None, None, body("http-idem-1").as_bytes());
    let resp1: serde_json::Value = serde_json::from_str(&text1).unwrap();
    assert_eq!(
        resp1["result"]["status"], "committed",
        "first HTTP execute must commit; got: {resp1}"
    );
    let commit_seq_1 = resp1["result"]["commit_seq"].clone();
    assert!(!commit_seq_1.is_null(), "commit_seq must be present");
    let (_, text2) = post(&mut gateway, None, None, body("http-idem-2").as_bytes());
    let resp2: serde_json::Value = serde_json::from_str(&text2).unwrap();
    assert_eq!(
        resp2["result"]["status"], "committed",
        "second HTTP execute (dedup) must also report committed; got: {resp2}"
    );
    assert_eq!(
        resp2["result"]["commit_seq"], commit_seq_1,
        "second HTTP execute must return the same commit_seq"
    );
}

#[test]
fn test_overflow_reject_error_variant() {
    let result = conclude(Handover::Full, None);
    assert!(
        matches!(result, Err(Error::GatewayOverloaded)),
        "Reject policy must return GatewayOverloaded when queue is full; got: {result:?}"
    );
}

#[test]
fn test_overflow_wait_timeout_returns_gateway_overloaded() {
    let result = conclude(Handover::TimedOut, None);
    assert!(
        result.is_err(),
        "WaitTimeout must return an error when the queue is full; got Ok"
    );
    let err = result.unwrap_err();
    assert!(
        matches!(err, Error::GatewayOverloaded),
        "expected GatewayOverloaded, got: {err:?}"
    );
}

#[test]
fn a_writer_that_has_stopped_is_reported() {
    assert!(matches!(check_handover(Handover::Closed), Err(Error::GatewayClosed)));
    assert!(check_handover(Handover::Taken).is_ok());
    assert!(matches!(conclude(Handover::Taken, None), Err(Error::GatewayClosed)));
    assert_eq!(queue_depth(1024, 1000), 24);
}

#[test]
fn what_is_no_request_is_refused() {
    let mut gateway = start_gateway();
    let cases = [
        (
            "[]",
            r#"{"jsonrpc":"2.0","id":null,"error":{"code":-32600,"message":"JSON-RPC batch arrays are not supported; send one request per line"}}"#,
        ),
        (
            "5",
            r#"{"jsonrpc":"2.0","id":null,"error":{"code":-32600,"message":"invalid request structure: invalid type: integer `5`, expected struct RawRequest"}}"#,
        ),
        (
            "\"x\"",
            r#"{"jsonrpc":"2.0","id":null,"error":{"code":-32600,"message":"invalid request structure: invalid type: string \"x\", expected struct RawRequest"}}"#,
        ),
        (
            r#"{"method":7,"jsonrpc":8,"id":1}"#,
            r#"{"jsonrpc":"2.0","id":1,"error":{"code":-32600,"message":"invalid request structure: invalid type: integer `8`, expected a string"}}"#,
        ),
        (
            r#"{"jsonrpc":2,"id":5,"method":"health"}"#,
            r#"{"jsonrpc":"2.0","id":5,"error":{"code":-32600,"message":"invalid request structure: invalid type: integer `2`, expected a string"}}"#,
        ),
        (
            r#"{"method":[],"jsonrpc":"2.0","id":"x"}"#,
            r#"{"jsonrpc":"2.0","id":"x","error":{"code":-32600,"message":"invalid request structure: invalid type: sequence, expected a string"}}"#,
        ),
        (
            r#"{"id":1}"#,
            r#"{"jsonrpc":"2.0","id":1,"error":{"code":-32600,"message":"missing or invalid \"jsonrpc\" field; must be \"2.0\""}}"#,
        ),
        (
            r#"{"id":[1],"jsonrpc":"1.0","method":"health"}"#,
            r#"{"jsonrpc":"2.0","id":[1],"error":{"code":-32600,"message":"missing or invalid \"jsonrpc\" field; must be \"2.0\""}}"#,
        ),
        (
            r#"{"jsonrpc":"2.0","method":null}"#,
            r#"{"jsonrpc":"2.0","id":null,"error":{"code":-32600,"message":"missing \"method\" field"}}"#,
        ),
        (
            r#"{"jsonrpc":"2.0""#,
            r#"{"jsonrpc":"2.0","id":null,"error":{"code":-32700,"message":"parse error: EOF while parsing an object at line 1 column 16"}}"#,
        ),
    ];
    for (line, expected) in cases {
        assert_eq!(gateway.answer(line), expected);
    }
}

#[test]
fn parameters_that_do_not_fit_are_named() {
    let mut gateway = start_gateway();
    let cases = [
        ("7", "params must be an object with actor_id and operations"),
        (r#"{"actor_id":1}"#, "missing or non-string actor_id in params"),
        (r#"{"actor_id":"a"}"#, "missing operations in params"),
        (r#"{"actor_id":"a","operations":{}}"#, "operations must be an array"),
        (r#"{"actor_id":"a","operations":[]}"#, "operations must be a non-empty array"),
        (r#"{"actor_id":"a","operations":[1]}"#, "operations[0] must be an object"),
        (
            r#"{"actor_id":"a","operations":[{"sql":"x"},{"sql":1}]}"#,
            "operations[1].sql must be a string",
        ),
        (
            r#"{"actor_id":"a","operations":[{"sql":"x","params":"y"}]}"#,
            "operations[0].params must be an array or absent",
        ),
    ];
    for (params, message) in cases {
        let v = gateway.call(&format!(
            r#"{{"jsonrpc":"2.0","id":"i","method":"execute","params":{params}}}"#
        ));
        assert_eq!(v["error"]["code"], -32602);
        assert_eq!(v["error"]["message"], message);
        assert_eq!(v["id"], "i");
    }
    assert_eq!(gateway.stats, Stats::new());
}

fn routed(line: &str) -> WriteRequest {
    match jsonrpc::route(line, "fallback".to_string()) {
        Routed::Execute { request, .. } => request,
        _ => panic!("a request was expected"),
    }
}

#[test]
fn the_identifier_names_the_request() {
    let line = |id: &str| {
        format!(
            r#"{{"jsonrpc":"2.0",{id}"method":"execute","params":{{"actor_id":"a","run_id":"r","operations":[{{"sql":"x","params":null}}]}}}}"#
        )
    };
    assert_eq!(routed(&line(r#""id":"mine","#)).request_id, "mine");
    assert_eq!(routed(&line(r#""id":17,"#)).request_id, "17");
    assert_eq!(routed(&line(r#""id":2.5,"#)).request_id, "2.5");
    assert_eq!(routed(&line(r#""id":null,"#)).request_id, "fallback");
    assert_eq!(routed(&line("")).request_id, "fallback");
    let request = routed(&line(""));
    assert_eq!(request.run_id.as_deref(), Some("r"));
    assert_eq!(request.idempotency_key, None);
    assert!(request.operations[0].params.is_empty());
}

#[test]
fn a_new_identifier_is_a_uuid() {
    let a = client::new_call_id();
    let b = client::new_call_id();
    assert_ne!(a, b);
    for id in [a, b] {
        assert_eq!(id.len(), 36);
        assert_eq!(&id[14..15], "7");
        assert_eq!(id.matches('-').count(), 4);
        assert_eq!(uuid::Uuid::parse_str(&id).unwrap().to_string(), id);
    }
}

#[test]
fn what_becomes_of_a_request_is_counted_once() {
    let mut stats = Stats::new();
    let done = WriteResponse::committed("r".to_string(), None);
    assert_eq!(
        jsonrpc::finish_execute(Json::integer(1), Ok(done), &mut stats),
        r#"{"jsonrpc":"2.0","id":1,"result":{"status":"committed","commit_seq":null}}"#
    );
    let lost = WriteResponse::failed("r".to_string(), "why".to_string());
    assert_eq!(
        jsonrpc::finish_execute(Json::integer(2), Ok(lost), &mut stats),
        r#"{"jsonrpc":"2.0","id":2,"error":{"code":-32000,"message":"why","data":"why"}}"#
    );
    let mute = WriteResponse {
        request_id: "r".to_string(),
        status: WriteStatus::Failed,
        commit_seq: None,
        error: None,
    };
    assert_eq!(
        jsonrpc::finish_execute(Json::Null, Ok(mute), &mut stats),
        r#"{"jsonrpc":"2.0","id":null,"error":{"code":-32000,"message":"write failed","data":null}}"#
    );
    for e in [Error::GatewayOverloaded, Error::GatewayClosed] {
        assert_eq!(
            jsonrpc::finish_execute(Json::text("x"), Err(e), &mut stats),
            r#"{"jsonrpc":"2.0","id":"x","error":{"code":-32001,"message":"gateway overloaded"}}"#
        );
    }
    assert_eq!(
        jsonrpc::finish_execute(Json::Null, Err(Error::Io("gone".to_string())), &mut stats),
        r#"{"jsonrpc":"2.0","id":null,"error":{"code":-32000,"message":"io error: gone"}}"#
    );
    assert_eq!(stats, Stats { accepted: 0, committed: 1, failed: 3, rejected: 2 });
    let mut full = Stats { accepted: u64::MAX, committed: 0, failed: 0, rejected: 0 };
    full.count_accepted();
    assert_eq!(full.accepted, 0);
}

#[test]
fn a_checkpoint_is_answered() {
    let mut gateway = start_gateway();
    assert_eq!(
        gateway.answer(r#"{"jsonrpc":"2.0","id":3,"method":"checkpoint"}"#),
        r#"{"jsonrpc":"2.0","id":3,"result":{"status":"ok"}}"#
    );
    assert_eq!(
        jsonrpc::finish_checkpoint(Json::integer(3), Err(Error::Sqlite("busy".to_string()))),
        r#"{"jsonrpc":"2.0","id":3,"error":{"code":-32000,"message":"sqlite error: busy"}}"#
    );
}

#[test]
fn the_gateway_reads_what_the_client_wrote() {
    let request = WriteRequest {
        request_id: "line\nbreak".to_string(),
        actor_id: "agent".to_string(),
        run_id: Some("run-7".to_string()),
        idempotency_key: None,
        operations: vec![op("INSERT INTO t VALUES (?, ?)", vec![json("[1,{\"a\":null}]"), Json::text("\n")])],
    };
    let line = client::execute_line(&request);
    assert_eq!(
        line,
        r#"{"jsonrpc":"2.0","id":"line\nbreak","method":"execute","params":{"actor_id":"agent","run_id":"run-7","idempotency_key":null,"operations":[{"sql":"INSERT INTO t VALUES (?, ?)","params":[[1,{"a":null}],"\n"]}]}}"#
    );
    let read = routed(&line);
    assert_eq!(read.request_id, request.request_id);
    assert_eq!(read.actor_id, request.actor_id);
    assert_eq!(read.run_id, request.run_id);
    assert_eq!(read.idempotency_key, request.idempotency_key);
    assert_eq!(read.operations[0].sql, request.operations[0].sql);
    assert_eq!(read.operations[0].params, request.operations[0].params);
}

#[test]
fn the_client_reads_what_the_gateway_answered() {
    let mut stats = Stats::new();
    let done = WriteResponse::committed("x".to_string(), Some(42));
    let reply = jsonrpc::finish_execute(Json::text("r"), Ok(done), &mut stats);
    let read = client::read_reply("r", &reply).unwrap();
    assert_eq!((read.status, read.commit_seq, read.error), (WriteStatus::Committed, Some(42), None));
    assert_eq!(read.request_id, "r");
    let reply = jsonrpc::finish_execute(Json::text("r"), Err(Error::GatewayClosed), &mut stats);
    let read = client::read_reply("r", &reply).unwrap();
    assert_eq!(read.error.as_deref(), Some("gateway overloaded"));
    let odd = client::read_reply("r", r#"{"result":{}}"#).unwrap();
    assert_eq!((odd.status, odd.commit_seq), (WriteStatus::Failed, None));
    let data = client::read_reply("r", r#"{"error":{"data":"d"}}"#).unwrap();
    assert_eq!(data.error.as_deref(), Some("d"));
    let e = client::read_reply("r", "[]").unwrap_err();
    assert_eq!(e.message(), "protocol error: unexpected JSON-RPC response: []");
    let e = client::read_reply("r", "x").unwrap_err();
    assert_eq!(e.message(), "json error: expected value at line 1 column 1");
}

#[test]
fn acknowledgements_and_results_are_read() {
    assert!(client::read_acknowledgement(r#"{"result":null}"#).is_ok());
    assert!(client::read_acknowledgement("{}").is_ok());
    assert_eq!(
        client::read_acknowledgement(r#"{"error":{"code":-1}}"#).unwrap_err().message(),
        r#"protocol error: {"code":-1}"#
    );
    assert_eq!(client::read_stats_result(r#"{"result":[1]}"#).unwrap().to_text(), "[1]");
    assert_eq!(
        client::read_stats_result("{}").unwrap_err().message(),
        "protocol error: unexpected stats response: {}"
    );
    assert_eq!(
        client::read_stats_result(r#"{"error":"e"}"#).unwrap_err().message(),
        r#"protocol error: "e""#
    );
    assert_eq!(
        client::method_line("7", "health"),
        r#"{"jsonrpc":"2.0","id":"7","method":"health"}"#
    );
    assert!(matches!(client::received_line(""), Err(Error::GatewayClosed)));
    assert_eq!(client::received_line("a\n\n").unwrap(), "a");
    assert_eq!(client::frame_line("a"), "a\n");
}

#[test]
fn a_line_that_is_too_long_is_refused() {
    let limit = jsonrpc::MAX_LINE_BYTES;
    assert_eq!(limit, 1024 * 1024);
    for end in ["", "\n"] {
        match sidecar::receive(&("x".repeat(limit) + end)) {
            sidecar::Received::Line(line) => assert_eq!(line.len(), limit),
            _ => panic!("the line fits"),
        }
    }
    let long = "x".repeat(limit + 1) + "\n";
    match sidecar::receive(&long) {
        sidecar::Received::TooLong(answer) => assert_eq!(
            answer,
            "{\"jsonrpc\":\"2.0\",\"id\":null,\"error\":{\"code\":-32600,\"message\":\"line too long: 1048578 bytes exceeds limit (1048576 bytes)\"}}\n"
        ),
        _ => panic!("the line is too long"),
    }
    let wide = "\u{e9}".repeat(limit / 2 + 1);
    assert!(matches!(sidecar::receive(&wide), sidecar::Received::TooLong(_)));
}

#[test]
fn http_calls_need_the_token_if_there_is_one() {
    assert!(http::authorized(None, None));
    assert!(http::authorized(Some("t"), Some("Bearer t")));
    assert!(!http::authorized(Some("t"), None));
    assert!(!http::authorized(Some("t"), Some("Bearer u")));
    assert!(!http::authorized(Some("t"), Some("bearer t")));
    assert!(!http::authorized(Some("t"), Some("Bearer  t")));
    assert!(!http::authorized(Some("t"), Some("t")));
    let mut gateway = start_gateway();
    let health = br#"{"jsonrpc":"2.0","id":1,"method":"health"}"#;
    assert_eq!(
        post(&mut gateway, Some("t"), Some("Bearer x"), health),
        (401, r#"{"error":"unauthorized"}"#.to_string())
    );
    assert_eq!(
        post(&mut gateway, Some("t"), Some("Bearer t"), health),
        (200, r#"{"id":1,"jsonrpc":"2.0","result":{"status":"ok"}}"#.to_string())
    );
}

#[test]
fn http_bodies_have_to_be_text() {
    let mut gateway = start_gateway();
    assert_eq!(
        post(&mut gateway, None, None, b"\xff{}"),
        (
            200,
            r#"{"jsonrpc":"2.0","id":null,"error":{"code":-32700,"message":"request body is not valid UTF-8"}}"#
                .to_string()
        )
    );
    assert_eq!(
        http::reply_body("not json").to_text(),
        r#"{"jsonrpc":"2.0","id":null,"error":{"code":-32603,"message":"internal error"}}"#
    );
}

#[test]
fn the_log_lies_beside_the_database() {
    assert_eq!(wal_path("./app.db").as_deref(), Some("./app.db-wal"));
    assert_eq!(wal_path(":memory:"), None);
    assert_eq!(wal_path(""), None);
}

#[test]
fn answers_can_be_built_from_their_parts() {
    assert_eq!(
        jsonrpc::ok_json(Json::Null, Json::integer(1)),
        r#"{"jsonrpc":"2.0","id":null,"result":1}"#
    );
    assert_eq!(
        jsonrpc::err_json(Json::integer(1), jsonrpc::ERR_PARSE_ERROR, "m".to_string()),
        r#"{"jsonrpc":"2.0","id":1,"error":{"code":-32700,"message":"m"}}"#
    );
    assert_eq!(
        jsonrpc::err_json_data(Json::integer(1), -1, "m".to_string(), Json::Null),
        r#"{"jsonrpc":"2.0","id":1,"error":{"code":-1,"message":"m","data":null}}"#
    );
    let raw = jsonrpc::read_raw(&json(r#"{"jsonrpc":"2.0","id":4,"params":[]}"#)).unwrap();
    assert_eq!(raw.jsonrpc.as_deref(), Some("2.0"));
    assert_eq!(raw.id, Json::integer(4));
    assert_eq!(raw.method, None);
    assert_eq!(raw.params, json("[]"));
}

#[test]
fn both_transports_give_the_same_answer() {
    let mut stats = Stats::new();
    let failed = WriteResponse::failed("x".to_string(), "no such table: t".to_string());
    let line = jsonrpc::finish_execute(json("[\"id\"]"), Ok(failed), &mut stats);
    assert_eq!(http::reply_body(&line), json(&line));
    let line = jsonrpc::finish_checkpoint(Json::integer(-1), Err(Error::Sqlite("busy".to_string())));
    assert_eq!(
        http::reply_body(&line).to_text(),
        r#"{"error":{"code":-32000,"message":"sqlite error: busy"},"id":-1,"jsonrpc":"2.0"}"#
    );
    let e = client::read_acknowledgement(&line).unwrap_err();
    assert_eq!(
        e.message(),
        r#"protocol error: {"code":-32000,"message":"sqlite error: busy"}"#
    );
}
