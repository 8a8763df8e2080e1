//! The writer on a database in memory.
use rusqlite::Connection;
use squeuelite::config::{BatchConfig, GatewayConfig};
use squeuelite::json::Json;
use squeuelite::params::blob;
use squeuelite::queue::{Command, Drain, Performed};
use squeuelite::request::{SqlOperation, WriteRequest, WriteResponse, WriteStatus};
use squeuelite::store::{apply_pragmas, run_migrations};
use squeuelite::writer::Writer;

fn json(text: &str) -> Json {
    Json::parse(text).unwrap()
}

fn sql_op(sql: &str, params: Vec<Json>) -> SqlOperation {
    SqlOperation { sql: sql.to_string(), params }
}

fn make_request(id: &str, operations: Vec<SqlOperation>) -> WriteRequest {
    WriteRequest {
        request_id: id.to_string(),
        actor_id: "test-actor".to_string(),
        run_id: None,
        idempotency_key: None,
        operations,
    }
}

fn make_write_request(ops: Vec<(&str, Vec<Json>)>) -> WriteRequest {
    make_request("test-req", ops.into_iter().map(|(sql, params)| sql_op(sql, params)).collect())
}

fn schema_config() -> GatewayConfig {
    GatewayConfig { allow_schema_write: true, ..GatewayConfig::new(":memory:") }
}

/// A writer on a database with a table `t`, without the gateway's own tables.
fn make_test_writer() -> Writer {
    let conn = Connection::open_in_memory().unwrap();
    conn.execute_batch("CREATE TABLE t (id INTEGER PRIMARY KEY, val TEXT NOT NULL);").unwrap();
    let config = GatewayConfig { allow_schema_write: true, ..GatewayConfig::default() };
    Writer::new(conn, false, true, config)
}

/// A writer that records commits and responses, on a database with a table `t`.
fn make_idempotency_writer() -> Writer {
    let mut conn = Connection::open_in_memory().unwrap();
    run_migrations(&mut conn, true, true).unwrap();
    conn.execute_batch("CREATE TABLE t (id INTEGER PRIMARY KEY, val TEXT NOT NULL);").unwrap();
    let config = GatewayConfig {
        allow_schema_write: true,
        idempotency: true,
        track_commits: true,
        ..GatewayConfig::default()
    };
    Writer::new(conn, true, true, config)
}

/// A writer that commits requests together, on a database with a table `t`.
fn make_batch_writer() -> Writer {
    let conn = Connection::open_in_memory().unwrap();
    conn.execute_batch(
        "CREATE TABLE t (id INTEGER PRIMARY KEY AUTOINCREMENT, val TEXT NOT NULL UNIQUE);",
    )
    .unwrap();
    let config = GatewayConfig {
        allow_schema_write: true,
        batch: Some(BatchConfig { max_size: 64, max_delay_micros: 500 }),
        ..GatewayConfig::default()
    };
    Writer::new(conn, false, false, config)
}

fn open_memory_gateway(track_commits: bool) -> Writer {
    let config = GatewayConfig { track_commits, ..schema_config() };
    Writer::open(Connection::open_in_memory().unwrap(), config).unwrap()
}

/// Hands one request to the writer as its queue would.
fn execute(writer: &mut Writer, request: WriteRequest) -> WriteResponse {
    let command: Command<u8, u8> = Command::Write { request, respond_to: 7 };
    match writer.perform(command) {
        Performed::Replied(7, response) => response,
        _ => panic!("a request must be answered"),
    }
}

fn create_test_table(writer: &mut Writer) {
    let response = execute(
        writer,
        make_request(
            "setup",
            vec![sql_op(
                "CREATE TABLE test_events (id INTEGER PRIMARY KEY, val TEXT NOT NULL)",
                vec![],
            )],
        ),
    );
    assert_eq!(response.status, WriteStatus::Committed);
}

fn count(writer: &Writer, sql: &str) -> i64 {
    writer.connection().query_row(sql, [], |r| r.get(0)).unwrap()
}

#[test]
fn test_blob_roundtrip_stored_as_blob_not_text() {
    let mut writer = make_test_writer();
    writer.connection().execute_batch("CREATE TABLE blob_t (b BLOB);").unwrap();
    let req = make_write_request(vec![(
        "INSERT INTO blob_t(b) VALUES (?)",
        vec![json(r#"{"$blob": "aGVsbG8="}"#)],
    )]);
    let resp = writer.apply(req);
    assert_eq!(resp.status, WriteStatus::Committed, "blob INSERT must commit");
    let (bytes, type_of): (Vec<u8>, String) = writer
        .connection()
        .query_row("SELECT b, typeof(b) FROM blob_t", [], |row| Ok((row.get(0)?, row.get(1)?)))
        .unwrap();
    assert_eq!(bytes, b"hello", "stored bytes must match original data");
    assert_eq!(
        type_of, "blob",
        "SQLite typeof() must be 'blob', not 'text' — data was not stored as JSON string"
    );
}

#[test]
fn test_apply_atomic_rollback() {
    let mut writer = make_test_writer();
    let req = make_write_request(vec![
        ("INSERT INTO t(val) VALUES (?)", vec![Json::text("good")]),
        ("INSERT INTO t(val) VALUES (?)", vec![Json::Null]),
    ]);
    let resp = writer.apply(req);
    assert_eq!(
        resp.status,
        WriteStatus::Failed,
        "transaction must fail on constraint violation"
    );
    assert_eq!(resp.error.as_deref(), Some("NOT NULL constraint failed: t.val"));
    assert_eq!(resp.request_id, "test-req");
    assert_eq!(
        count(&writer, "SELECT COUNT(*) FROM t"),
        0,
        "rollback must leave the table empty"
    );
    assert_eq!(writer.latency().len(), 0);
    assert!(writer.connection().is_autocommit());
}

#[test]
fn test_idempotency_second_call_returns_same_response() {
    let mut writer = make_idempotency_writer();
    let mut req =
        make_write_request(vec![("INSERT INTO t(val) VALUES (?)", vec![Json::text("hello")])]);
    req.request_id = "req-idem-1".to_string();
    req.idempotency_key = Some("key-1".to_string());
    let resp1 = writer.apply(req.clone());
    assert_eq!(resp1.status, WriteStatus::Committed);
    let resp2 = writer.apply(req.clone());
    assert_eq!(resp2.status, WriteStatus::Committed);
    assert_eq!(
        count(&writer, "SELECT COUNT(*) FROM t"),
        1,
        "idempotency must prevent double-insert"
    );
    assert_eq!(resp2.commit_seq, resp1.commit_seq);
    assert_eq!(resp2.request_id, resp1.request_id);
    assert_eq!(writer.latency().len(), 1);
}

#[test]
fn test_idempotency_conflict_different_operations() {
    let mut writer = make_idempotency_writer();
    let mut req1 =
        make_write_request(vec![("INSERT INTO t(val) VALUES (?)", vec![Json::text("first")])]);
    req1.request_id = "req-conflict-1".to_string();
    req1.idempotency_key = Some("conflict-key".to_string());
    let resp1 = writer.apply(req1);
    assert_eq!(resp1.status, WriteStatus::Committed);
    let mut req2 =
        make_write_request(vec![("INSERT INTO t(val) VALUES (?)", vec![Json::text("different")])]);
    req2.request_id = "req-conflict-2".to_string();
    req2.idempotency_key = Some("conflict-key".to_string());
    let resp2 = writer.apply(req2);
    assert_eq!(resp2.status, WriteStatus::Failed);
    let err = resp2.error.expect("error must be set on conflict");
    assert!(
        err.contains("idempotency conflict"),
        "expected 'idempotency conflict' in error, got: {err}"
    );
    assert_eq!(resp2.request_id, "req-conflict-2");
    assert_eq!(count(&writer, "SELECT COUNT(*) FROM t"), 1);
}

#[test]
fn test_latency_buffer_records_commits() {
    let mut writer = make_test_writer();
    assert_eq!(writer.latency().len(), 0);
    let req =
        make_write_request(vec![("INSERT INTO t(val) VALUES (?)", vec![Json::text("lat-test")])]);
    let resp = writer.apply(req);
    assert_eq!(resp.status, WriteStatus::Committed);
    assert_eq!(
        writer.latency().len(),
        1,
        "one latency entry must be recorded per successful commit"
    );
}

#[test]
fn test_batch_savepoint_isolation_one_failure_others_committed() {
    let mut writer = make_batch_writer();
    let insert = |id: &str, val: &str| {
        make_request(id, vec![sql_op("INSERT INTO t(val) VALUES (?)", vec![Json::text(val)])])
    };
    let replies = writer.apply_batch(vec![
        (insert("req-1", "apple"), 1),
        (insert("req-2", "apple"), 2),
        (insert("req-3", "banana"), 3),
    ]);
    let to: Vec<i32> = replies.iter().map(|r| r.0).collect();
    assert_eq!(to, vec![1, 2, 3]);
    assert_eq!(
        replies[0].1.status,
        WriteStatus::Committed,
        "req-1 (first INSERT) must be Committed"
    );
    assert_eq!(
        replies[1].1.status,
        WriteStatus::Failed,
        "req-2 (duplicate UNIQUE) must be Failed"
    );
    assert_eq!(
        replies[2].1.status,
        WriteStatus::Committed,
        "req-3 must be Committed — req-2's failure must not affect it"
    );
    assert_eq!(replies[1].1.request_id, "req-2");
    assert_eq!(replies[1].1.error.as_deref(), Some("UNIQUE constraint failed: t.val"));
    assert_eq!(
        count(&writer, "SELECT COUNT(*) FROM t"),
        2,
        "exactly 2 rows must exist after the batch (req-1 and req-3)"
    );
    let vals: Vec<String> = {
        let mut stmt = writer.connection().prepare("SELECT val FROM t ORDER BY val").unwrap();
        stmt.query_map([], |r| r.get(0)).unwrap().map(|r| r.unwrap()).collect()
    };
    assert_eq!(
        vals,
        vec!["apple", "banana"],
        "only 'apple' and 'banana' must be present"
    );
    assert_eq!(writer.latency().len(), 1);
}

#[test]
fn test_batch_validate_sql_applied_for_each_request() {
    let mut writer = make_batch_writer();
    let req1 = make_request(
        "req-valid",
        vec![sql_op("INSERT INTO t(val) VALUES (?)", vec![Json::text("ok")])],
    );
    let req2 = make_request("req-forbidden", vec![sql_op("BEGIN", vec![])]);
    let replies = writer.apply_batch(vec![(req1, ()), (req2, ())]);
    let (resp1, resp2) = (&replies[0].1, &replies[1].1);
    assert_eq!(resp1.status, WriteStatus::Committed, "req-valid must be Committed");
    assert_eq!(
        resp2.status,
        WriteStatus::Failed,
        "req-forbidden (BEGIN keyword) must be Failed due to validate_sql"
    );
    assert!(
        resp2.error.as_deref().unwrap_or("").contains("forbidden keyword"),
        "error message must mention the forbidden keyword"
    );
    assert_eq!(
        count(&writer, "SELECT COUNT(*) FROM t"),
        1,
        "only the valid request must have inserted a row"
    );
}

#[test]
fn test_single_insert_committed_with_commit_seq() {
    let mut writer = open_memory_gateway(true);
    create_test_table(&mut writer);
    let resp = execute(
        &mut writer,
        make_request(
            "req-1",
            vec![sql_op("INSERT INTO test_events(val) VALUES (?)", vec![Json::text("hello")])],
        ),
    );
    assert_eq!(resp.status, WriteStatus::Committed);
    assert!(resp.commit_seq.is_some(), "expected commit_seq to be set");
    assert!(resp.error.is_none());
    assert_eq!(resp.commit_seq, Some(2));
}

#[test]
fn test_atomic_rollback_on_constraint_violation() {
    let mut writer = open_memory_gateway(true);
    execute(
        &mut writer,
        make_request(
            "setup",
            vec![sql_op(
                "CREATE TABLE strict_events (id INTEGER PRIMARY KEY, val TEXT NOT NULL UNIQUE)",
                vec![],
            )],
        ),
    );
    let resp = execute(
        &mut writer,
        make_request(
            "req-atomic",
            vec![
                sql_op("INSERT INTO strict_events(val) VALUES (?)", vec![Json::text("good")]),
                sql_op("INSERT INTO strict_events(val) VALUES (?)", vec![Json::Null]),
            ],
        ),
    );
    assert_eq!(resp.status, WriteStatus::Failed);
    assert!(resp.commit_seq.is_none());
    assert!(resp.error.is_some());
    let probe = execute(
        &mut writer,
        make_request(
            "probe",
            vec![sql_op("INSERT INTO strict_events(val) VALUES ('good')", vec![])],
        ),
    );
    assert_eq!(
        probe.status,
        WriteStatus::Committed,
        "probe INSERT of 'good' must succeed, proving op1 was rolled back"
    );
}

#[test]
fn test_sql_constraint_begin_rejected() {
    let mut writer = open_memory_gateway(true);
    let resp = execute(&mut writer, make_request("req-begin", vec![sql_op("BEGIN", vec![])]));
    assert_eq!(resp.status, WriteStatus::Failed);
    let error = resp.error.expect("error message must be set");
    assert!(
        error.contains("sql rejected"),
        "expected 'sql rejected' in error, got: {error}"
    );
}

#[test]
fn test_sql_constraint_pragma_rejected() {
    let mut writer = open_memory_gateway(true);
    let resp = execute(
        &mut writer,
        make_request("req-pragma", vec![sql_op("PRAGMA journal_mode", vec![])]),
    );
    assert_eq!(resp.status, WriteStatus::Failed);
    let error = resp.error.expect("error message must be set");
    assert!(
        error.contains("sql rejected"),
        "expected 'sql rejected' in error, got: {error}"
    );
}

#[test]
fn test_multiple_statements_rejected() {
    let mut writer = open_memory_gateway(true);
    create_test_table(&mut writer);
    let resp = execute(
        &mut writer,
        make_request(
            "req-multi",
            vec![sql_op(
                "INSERT INTO test_events(val) VALUES ('a'); INSERT INTO test_events(val) VALUES ('b')",
                vec![],
            )],
        ),
    );
    assert_eq!(resp.status, WriteStatus::Failed);
    assert!(resp.error.is_some());
    assert_eq!(count(&writer, "SELECT COUNT(*) FROM test_events"), 0);
}

#[test]
fn test_track_commits_false_no_commit_seq() {
    let mut writer = open_memory_gateway(false);
    create_test_table(&mut writer);
    let resp = execute(
        &mut writer,
        make_request(
            "req-notrack",
            vec![sql_op("INSERT INTO test_events(val) VALUES (?)", vec![Json::text("data")])],
        ),
    );
    assert_eq!(resp.status, WriteStatus::Committed);
    assert!(
        resp.commit_seq.is_none(),
        "commit_seq must be None when track_commits=false"
    );
    let check = execute(
        &mut writer,
        make_request(
            "table-check",
            vec![sql_op(
                "INSERT INTO squeuelite_commits(request_id, actor_id) VALUES ('x', 'y')",
                vec![],
            )],
        ),
    );
    assert_eq!(
        check.status,
        WriteStatus::Failed,
        "squeuelite_commits table must not exist when track_commits=false"
    );
}

#[test]
fn test_params_conversion() {
    let mut writer = open_memory_gateway(false);
    execute(
        &mut writer,
        make_request(
            "setup",
            vec![sql_op(
                "CREATE TABLE param_test (
                    id      INTEGER PRIMARY KEY,
                    n       ANY,
                    b       INTEGER,
                    i       INTEGER,
                    f       REAL,
                    s       TEXT,
                    arr     TEXT
                )",
                vec![],
            )],
        ),
    );
    let resp = execute(
        &mut writer,
        make_request(
            "req-params",
            vec![sql_op(
                "INSERT INTO param_test(n, b, i, f, s, arr) VALUES (?, ?, ?, ?, ?, ?)",
                vec![
                    Json::Null,
                    Json::Bool(true),
                    Json::integer(42),
                    json("2.5"),
                    Json::text("hello"),
                    json(r#"["a", "b"]"#),
                ],
            )],
        ),
    );
    assert_eq!(
        resp.status,
        WriteStatus::Committed,
        "params conversion should succeed; error: {:?}",
        resp.error
    );
    let row: (Option<String>, i64, i64, f64, String, String) = writer
        .connection()
        .query_row("SELECT n, b, i, f, s, arr FROM param_test", [], |r| {
            Ok((r.get(0)?, r.get(1)?, r.get(2)?, r.get(3)?, r.get(4)?, r.get(5)?))
        })
        .unwrap();
    assert_eq!(
        row,
        (None, 1, 42, 2.5, "hello".to_string(), r#"["a","b"]"#.to_string())
    );
}

#[test]
fn test_schema_write_rejected_by_default() {
    let config = GatewayConfig::new(":memory:");
    let mut writer = Writer::open(Connection::open_in_memory().unwrap(), config).unwrap();
    let resp = execute(
        &mut writer,
        make_request(
            "req-create",
            vec![sql_op("CREATE TABLE should_fail (id INTEGER PRIMARY KEY)", vec![])],
        ),
    );
    assert_eq!(
        resp.status,
        WriteStatus::Failed,
        "CREATE must be rejected when allow_schema_write=false"
    );
    let err = resp.error.expect("error must be set");
    assert!(err.contains("sql rejected"), "expected 'sql rejected', got: {err}");
}

#[test]
fn test_drop_rejected_by_default() {
    let mut writer =
        Writer::open(Connection::open_in_memory().unwrap(), schema_config()).unwrap();
    execute(
        &mut writer,
        make_request(
            "setup",
            vec![sql_op("CREATE TABLE drop_test (id INTEGER PRIMARY KEY)", vec![])],
        ),
    );
    let resp = execute(
        &mut writer,
        make_request("req-drop", vec![sql_op("DROP TABLE drop_test", vec![])]),
    );
    assert_eq!(
        resp.status,
        WriteStatus::Failed,
        "DROP must be rejected when allow_drop=false"
    );
    let err = resp.error.expect("error must be set");
    assert!(err.contains("sql rejected"), "expected 'sql rejected', got: {err}");
}

#[test]
fn test_delete_rejected_when_disabled() {
    let config = GatewayConfig { allow_delete: false, ..schema_config() };
    let mut writer = Writer::open(Connection::open_in_memory().unwrap(), config).unwrap();
    execute(
        &mut writer,
        make_request(
            "setup",
            vec![sql_op(
                "CREATE TABLE del_test (id INTEGER PRIMARY KEY, val TEXT NOT NULL)",
                vec![],
            )],
        ),
    );
    execute(
        &mut writer,
        make_request("insert", vec![sql_op("INSERT INTO del_test(val) VALUES ('row')", vec![])]),
    );
    let resp = execute(
        &mut writer,
        make_request("req-delete", vec![sql_op("DELETE FROM del_test", vec![])]),
    );
    assert_eq!(
        resp.status,
        WriteStatus::Failed,
        "DELETE must be rejected when allow_delete=false"
    );
    let err = resp.error.expect("error must be set");
    assert!(err.contains("sql rejected"), "expected 'sql rejected', got: {err}");
}

#[test]
fn test_idempotency_end_to_end() {
    let config = GatewayConfig { idempotency: true, track_commits: true, ..schema_config() };
    let mut writer = Writer::open(Connection::open_in_memory().unwrap(), config).unwrap();
    execute(
        &mut writer,
        make_request(
            "setup",
            vec![sql_op(
                "CREATE TABLE idem_test (id INTEGER PRIMARY KEY, val TEXT NOT NULL UNIQUE)",
                vec![],
            )],
        ),
    );
    let mut req = make_request(
        "req-idem",
        vec![sql_op("INSERT INTO idem_test(val) VALUES (?)", vec![Json::text("only-once")])],
    );
    req.idempotency_key = Some("idem-key-1".to_string());
    let resp1 = execute(&mut writer, req.clone());
    assert_eq!(resp1.status, WriteStatus::Committed);
    let resp2 = execute(&mut writer, req.clone());
    assert_eq!(
        resp2.status,
        WriteStatus::Committed,
        "second call with same idempotency_key must return Committed"
    );
    let mut probe = make_request(
        "probe",
        vec![sql_op("INSERT INTO idem_test(val) VALUES (?)", vec![Json::text("only-once")])],
    );
    probe.request_id = "probe-unique".to_string();
    let probe_resp = execute(&mut writer, probe);
    assert_eq!(
        probe_resp.status,
        WriteStatus::Failed,
        "duplicate UNIQUE value must still exist (idempotency prevented double-insert)"
    );
}

#[test]
fn test_latency_snapshot_after_commits() {
    let mut writer = open_memory_gateway(false);
    let before = writer.latency().summary();
    assert_eq!((before.sum, before.count, before.p95), (0, 0, 0));
    create_test_table(&mut writer);
    let after = writer.latency().summary();
    assert_eq!(after.count, 1);
    assert_eq!(after.sum, after.p95 as u128);
    assert!(after.p95 >= before.p95, "p95 must be non-decreasing");
}

#[test]
fn test_concurrent_inserts_single_writer() {
    const TASKS: i64 = 16;
    const INSERTS_PER_TASK: i64 = 100;
    let total = TASKS * INSERTS_PER_TASK;
    let config = GatewayConfig {
        batch: Some(BatchConfig::default()),
        track_commits: true,
        ..schema_config()
    };
    let mut writer = Writer::open(Connection::open_in_memory().unwrap(), config).unwrap();
    let created = execute(
        &mut writer,
        make_request(
            "stress-create",
            vec![sql_op(
                "CREATE TABLE stress_events (id INTEGER PRIMARY KEY AUTOINCREMENT, task_id INTEGER NOT NULL, seq INTEGER NOT NULL)",
                vec![],
            )],
        ),
    );
    assert_eq!(created.status, WriteStatus::Committed, "CREATE must commit");
    let mut waiting: Vec<Command<String, ()>> = Vec::new();
    for seq in 0..INSERTS_PER_TASK {
        for task in 0..TASKS {
            let id = format!("stress-{task}-{seq}");
            waiting.push(Command::Write {
                request: make_request(
                    &id,
                    vec![sql_op(
                        "INSERT INTO stress_events(task_id, seq) VALUES (?, ?)",
                        vec![Json::integer(task), Json::integer(seq)],
                    )],
                ),
                respond_to: id.clone(),
            });
        }
    }
    let mut waiting = waiting.into_iter();
    let mut numbers = Vec::new();
    while let Some(first) = waiting.next() {
        let mut drain = Drain::start(first, writer.config());
        while drain.wants_more() {
            drain = drain.offer(waiting.next());
        }
        let (batch, deferred) = drain.finish();
        assert!(deferred.is_none());
        for (to, response) in writer.commit_together(batch) {
            assert_eq!(response.request_id, to);
            assert_eq!(response.status, WriteStatus::Committed);
            numbers.push(response.commit_seq.expect("commit_seq must be present"));
        }
    }
    assert_eq!(numbers.len() as i64, total);
    let expected: Vec<i64> = (2..total + 2).collect();
    assert_eq!(numbers, expected, "commit_seqs must form a contiguous range");
    assert_eq!(count(&writer, "SELECT COUNT(*) FROM stress_events"), total);
}

#[test]
fn a_failed_request_may_be_sent_again() {
    let mut writer = make_idempotency_writer();
    let mut bad = make_write_request(vec![("INSERT INTO nowhere VALUES (?)", vec![Json::Null])]);
    bad.idempotency_key = Some("k".to_string());
    assert_eq!(writer.apply(bad).status, WriteStatus::Failed);
    assert_eq!(count(&writer, "SELECT COUNT(*) FROM squeuelite_requests"), 0);
    let mut good =
        make_write_request(vec![("INSERT INTO t(val) VALUES (?)", vec![Json::text("v")])]);
    good.idempotency_key = Some("k".to_string());
    assert_eq!(writer.apply(good).status, WriteStatus::Committed);
    assert_eq!(count(&writer, "SELECT COUNT(*) FROM squeuelite_requests"), 1);
}

#[test]
fn the_record_is_part_of_the_transaction() {
    let mut writer = make_idempotency_writer();
    writer.connection().execute_batch("DROP TABLE squeuelite_commits;").unwrap();
    let mut req = make_write_request(vec![("INSERT INTO t(val) VALUES ('v')", vec![])]);
    req.idempotency_key = Some("k".to_string());
    let resp = writer.apply(req);
    assert_eq!(resp.status, WriteStatus::Failed);
    assert_eq!(resp.error.as_deref(), Some("no such table: squeuelite_commits"));
    assert_eq!(count(&writer, "SELECT COUNT(*) FROM t"), 0);
    assert_eq!(count(&writer, "SELECT COUNT(*) FROM squeuelite_requests"), 0);
}

#[test]
fn commits_are_recorded_with_their_actor() {
    let mut writer = make_idempotency_writer();
    let mut req = make_write_request(vec![("INSERT INTO t(val) VALUES ('v')", vec![])]);
    req.run_id = Some("run-7".to_string());
    assert_eq!(writer.apply(req).commit_seq, Some(1));
    let row: (i64, String, String, String) = writer
        .connection()
        .query_row(
            "SELECT seq, request_id, actor_id, run_id FROM squeuelite_commits",
            [],
            |r| Ok((r.get(0)?, r.get(1)?, r.get(2)?, r.get(3)?)),
        )
        .unwrap();
    assert_eq!(
        row,
        (1, "test-req".to_string(), "test-actor".to_string(), "run-7".to_string())
    );
}

#[test]
fn an_unreadable_record_counts_as_committed() {
    let mut writer = make_idempotency_writer();
    let mut req = make_write_request(vec![("INSERT INTO t(val) VALUES ('v')", vec![])]);
    req.idempotency_key = Some("k".to_string());
    writer.apply(req.clone());
    for text in ["NULL", "'nonsense'"] {
        let sql = format!("UPDATE squeuelite_requests SET response_json = {text};");
        writer.connection().execute_batch(&sql).unwrap();
        let resp = writer.apply(req.clone());
        assert_eq!(resp.status, WriteStatus::Committed);
        assert_eq!(resp.commit_seq, None);
        assert_eq!(resp.request_id, "test-req");
    }
    assert_eq!(count(&writer, "SELECT COUNT(*) FROM t"), 1);
}

#[test]
fn a_key_is_ignored_without_idempotency() {
    let config = GatewayConfig { idempotency: false, ..schema_config() };
    let mut writer = Writer::open(Connection::open_in_memory().unwrap(), config).unwrap();
    create_test_table(&mut writer);
    let mut req = make_request(
        "r",
        vec![sql_op("INSERT INTO test_events(val) VALUES ('v')", vec![])],
    );
    req.idempotency_key = Some("k".to_string());
    execute(&mut writer, req.clone());
    execute(&mut writer, req);
    assert_eq!(count(&writer, "SELECT COUNT(*) FROM test_events"), 2);
    let tables = "SELECT COUNT(*) FROM sqlite_master WHERE name = 'squeuelite_requests'";
    assert_eq!(count(&writer, tables), 0);
}

#[test]
fn a_lookup_that_fails_fails_the_request() {
    let mut writer = make_test_writer();
    let mut req = make_write_request(vec![("INSERT INTO t(val) VALUES ('v')", vec![])]);
    req.idempotency_key = Some("k".to_string());
    let resp = writer.apply(req);
    assert_eq!(resp.status, WriteStatus::Failed);
    assert!(resp.error.unwrap().contains("no such table: squeuelite_requests"));
    assert_eq!(count(&writer, "SELECT COUNT(*) FROM t"), 0);
}

#[test]
fn keys_work_inside_a_batch() {
    let config = GatewayConfig { batch: Some(BatchConfig::default()), ..schema_config() };
    let mut writer = Writer::open(Connection::open_in_memory().unwrap(), config).unwrap();
    create_test_table(&mut writer);
    let keyed = |id: &str, key: &str, val: &str| {
        let op = sql_op("INSERT INTO test_events(val) VALUES (?)", vec![Json::text(val)]);
        WriteRequest { idempotency_key: Some(key.to_string()), ..make_request(id, vec![op]) }
    };
    let replies = writer.apply_batch(vec![
        (keyed("a", "k", "v"), 'a'),
        (keyed("b", "k", "v"), 'b'),
        (keyed("c", "k", "w"), 'c'),
        (keyed("d", "l", "w"), 'd'),
    ]);
    let seen: Vec<(char, &str, WriteStatus, Option<i64>)> = replies
        .iter()
        .map(|(to, r)| (*to, r.request_id.as_str(), r.status, r.commit_seq))
        .collect();
    assert_eq!(
        seen,
        vec![
            ('a', "a", WriteStatus::Committed, Some(2)),
            ('b', "a", WriteStatus::Committed, Some(2)),
            ('c', "c", WriteStatus::Failed, None),
            ('d', "d", WriteStatus::Committed, Some(3)),
        ]
    );
    assert_eq!(count(&writer, "SELECT COUNT(*) FROM test_events"), 2);
    let again = writer.apply(keyed("e", "l", "w"));
    assert_eq!((again.request_id.as_str(), again.commit_seq), ("d", Some(3)));
    let other = writer.apply(keyed("f", "l", "x"));
    assert_eq!(other.status, WriteStatus::Failed);
    assert_eq!(count(&writer, "SELECT COUNT(*) FROM test_events"), 2);
}

#[test]
fn a_batch_that_cannot_begin_fails_as_a_whole() {
    let mut writer = make_batch_writer();
    writer.connection().execute_batch("BEGIN").unwrap();
    let insert = |id: &str| make_request(id, vec![sql_op("INSERT INTO t(val) VALUES ('x')", vec![])]);
    let replies = writer.apply_batch(vec![(insert("a"), 1), (insert("b"), 2)]);
    for (_, response) in &replies {
        assert_eq!(response.status, WriteStatus::Failed);
        assert_eq!(
            response.error.as_deref(),
            Some("cannot start a transaction within a transaction")
        );
    }
    assert_eq!(replies[1].1.request_id, "b");
    assert_eq!(replies[1].0, 2);
    let alone = writer.apply(insert("c"));
    assert_eq!(
        alone.error.as_deref(),
        Some("cannot start a transaction within a transaction")
    );
}

#[test]
fn a_commit_that_fails_withdraws_what_it_would_have_kept() {
    let conn = Connection::open_in_memory().unwrap();
    conn.execute_batch(
        "PRAGMA foreign_keys = ON;
         CREATE TABLE p (id INTEGER PRIMARY KEY);
         CREATE TABLE c (pid INTEGER REFERENCES p(id) DEFERRABLE INITIALLY DEFERRED);",
    )
    .unwrap();
    let mut writer = Writer::new(conn, false, false, GatewayConfig::default());
    let op = |sql: &str| make_request(sql, vec![sql_op(sql, vec![])]);
    let alone = writer.apply(op("INSERT INTO c VALUES (9)"));
    assert_eq!(alone.error.as_deref(), Some("FOREIGN KEY constraint failed"));
    let replies = writer.apply_batch(vec![
        (op("INSERT INTO p VALUES (1)"), ()),
        (op("INSERT INTO nowhere VALUES (1)"), ()),
        (op("INSERT INTO c VALUES (9)"), ()),
    ]);
    assert_eq!(replies[0].1.error.as_deref(), Some("FOREIGN KEY constraint failed"));
    assert!(replies[1].1.error.as_deref().unwrap().starts_with("no such table: nowhere"));
    assert_eq!(replies[2].1.error.as_deref(), Some("FOREIGN KEY constraint failed"));
    assert_eq!(count(&writer, "SELECT COUNT(*) FROM p"), 0);
    assert_eq!(writer.latency().len(), 0);
    assert!(writer.connection().is_autocommit());
}

#[test]
fn bytes_reach_the_database_as_bytes() {
    let mut writer = make_test_writer();
    writer.connection().execute_batch("CREATE TABLE b (x BLOB);").unwrap();
    let data: Vec<u8> = (0..=255).rev().collect();
    let resp = writer.apply(make_write_request(vec![("INSERT INTO b VALUES (?)", vec![blob(&data)])]));
    assert_eq!(resp.status, WriteStatus::Committed);
    let stored: Vec<u8> =
        writer.connection().query_row("SELECT x FROM b", [], |r| r.get(0)).unwrap();
    assert_eq!(stored, data);
}

#[test]
fn a_parameter_that_cannot_be_bound_fails_the_request() {
    let mut writer = make_test_writer();
    let resp = writer.apply(make_write_request(vec![
        ("INSERT INTO t(val) VALUES ('v')", vec![]),
        ("INSERT INTO t(val) VALUES (?)", vec![json(r#"{"$blob":"%"}"#)]),
    ]));
    assert_eq!(
        resp.error.as_deref(),
        Some("invalid parameter: $blob base64 decode failed: Invalid symbol 37, offset 0.")
    );
    assert_eq!(count(&writer, "SELECT COUNT(*) FROM t"), 0);
}

#[test]
fn settings_are_applied() {
    let mut conn = Connection::open_in_memory().unwrap();
    let config = GatewayConfig { busy_timeout_ms: 1234, ..GatewayConfig::default() };
    apply_pragmas(&mut conn, &config).unwrap();
    let read = |sql: &str| -> i64 { conn.query_row(sql, [], |r| r.get(0)).unwrap() };
    assert_eq!(read("PRAGMA busy_timeout"), 1234);
    assert_eq!(read("PRAGMA synchronous"), 1);
    assert_eq!(read("PRAGMA foreign_keys"), 1);
    let mode: String = conn.query_row("PRAGMA journal_mode", [], |r| r.get(0)).unwrap();
    assert_eq!(mode, "memory");
}

#[test]
fn a_table_that_cannot_be_created_is_a_migration_error() {
    let mut conn = Connection::open_in_memory().unwrap();
    conn.execute_batch("CREATE TABLE x (a); CREATE INDEX squeuelite_commits ON x(a);").unwrap();
    let e = run_migrations(&mut conn, true, false).unwrap_err();
    assert_eq!(
        e.message(),
        "migration error: there is already an index named squeuelite_commits"
    );
}

#[test]
fn a_setting_that_cannot_be_applied_is_an_sqlite_error() {
    let mut conn = Connection::open_in_memory().unwrap();
    conn.execute_batch("BEGIN").unwrap();
    let e = apply_pragmas(&mut conn, &GatewayConfig::default()).unwrap_err();
    assert!(e.message().starts_with("sqlite error: "), "{}", e.message());
}

#[test]
fn the_log_is_moved_on_request() {
    let mut writer = open_memory_gateway(true);
    assert!(writer.checkpoint().is_ok());
    let command: Command<u8, u8> = Command::Checkpoint { report_to: 3 };
    assert!(matches!(writer.perform(command), Performed::Checkpointed(3, Ok(()))));
    let stop: Command<u8, u8> = Command::Shutdown;
    assert!(matches!(writer.perform(stop), Performed::Stop));
}

#[test]
fn a_retry_may_order_its_members_differently() {
    let mut writer = open_memory_gateway(true);
    create_test_table(&mut writer);
    let keyed = |id: &str, param: &str| {
        let op = sql_op("INSERT INTO test_events(val) VALUES (?)", vec![json(param)]);
        WriteRequest { idempotency_key: Some("k".to_string()), ..make_request(id, vec![op]) }
    };
    let first = writer.apply(keyed("a", r#"{"x":1,"y":[2]}"#));
    assert_eq!(first.status, WriteStatus::Committed);
    let again = writer.apply(keyed("b", r#"{"y":[2],"x":1}"#));
    assert_eq!((again.status, again.request_id.as_str()), (WriteStatus::Committed, "a"));
    assert_eq!(again.commit_seq, first.commit_seq);
    let other = writer.apply(keyed("c", r#"{"y":[1],"x":2}"#));
    assert_eq!(other.status, WriteStatus::Failed);
    assert_eq!(count(&writer, "SELECT COUNT(*) FROM test_events"), 1);
    assert_eq!(writer.latency().len(), 2);
}

#[test]
fn a_request_cannot_end_its_own_transaction() {
    let mut writer = open_memory_gateway(false);
    create_test_table(&mut writer);
    for word in ["END", "end;", "COMMIT;", "ROLLBACK;"] {
        let request = make_request(
            "r",
            vec![
                sql_op("INSERT INTO test_events(val) VALUES (?)", vec![Json::text("x")]),
                sql_op(word, vec![]),
            ],
        );
        let response = writer.apply(request);
        assert_eq!(response.status, WriteStatus::Failed);
        assert_eq!(response.commit_seq, None);
        assert!(response.error.unwrap().contains("forbidden keyword"));
        assert_eq!(count(&writer, "SELECT COUNT(*) FROM test_events"), 0);
    }
}

#[test]
fn tables_are_created_once() {
    let config = GatewayConfig::default();
    let mut conn = Connection::open_in_memory().unwrap();
    let tables = "SELECT COUNT(*) FROM sqlite_master WHERE name LIKE 'squeuelite_%'";
    for (track, idempotency, expected) in
        [(false, false, 0), (true, false, 1), (true, false, 1), (true, true, 2), (false, false, 2)]
    {
        squeuelite::store::run_migrations(&mut conn, track, idempotency).unwrap();
        let n: i64 = conn.query_row(tables, [], |row| row.get(0)).unwrap();
        assert_eq!(n, expected);
    }
    let mut writer = Writer::new(conn, true, true, GatewayConfig { allow_schema_write: true, ..config });
    create_test_table(&mut writer);
    assert_eq!(count(&writer, "SELECT COUNT(*) FROM squeuelite_commits"), 1);
}

#[test]
fn a_statement_that_ends_the_transaction_fails_the_whole_batch() {
    let config = GatewayConfig { batch: Some(BatchConfig::default()), ..schema_config() };
    let mut writer = Writer::open(Connection::open_in_memory().unwrap(), config).unwrap();
    let create = sql_op("CREATE TABLE u (val TEXT UNIQUE)", vec![]);
    assert_eq!(writer.apply(make_request("setup", vec![create])).status, WriteStatus::Committed);
    let insert = |id: &str, how: &str, val: &str| {
        let sql = format!("INSERT {how} INTO u(val) VALUES (?)");
        make_request(id, vec![sql_op(&sql, vec![Json::text(val)])])
    };
    let replies = writer.apply_batch(vec![
        (insert("a", "", "x"), 'a'),
        (insert("b", "OR ROLLBACK", "x"), 'b'),
        (insert("c", "", "y"), 'c'),
        (insert("d", "OR ABORT", "z"), 'd'),
    ]);
    let seen: Vec<(char, WriteStatus, Option<i64>, &str)> = replies
        .iter()
        .map(|(to, r)| (*to, r.status, r.commit_seq, r.error.as_deref().unwrap()))
        .collect();
    assert_eq!(
        seen,
        vec![
            ('a', WriteStatus::Failed, None, "no such savepoint: sp_1"),
            ('b', WriteStatus::Failed, None, "UNIQUE constraint failed: u.val"),
            ('c', WriteStatus::Failed, None, "no such savepoint: sp_1"),
            ('d', WriteStatus::Failed, None, "no such savepoint: sp_1"),
        ]
    );
    assert_eq!(count(&writer, "SELECT COUNT(*) FROM u"), 0);
    assert_eq!(writer.latency().len(), 1);
    let next = writer.apply_batch(vec![(insert("e", "", "x"), 1), (insert("f", "", "x"), 2), (insert("g", "", "y"), 3)]);
    let numbers: Vec<Option<i64>> = next.iter().map(|(_, r)| r.commit_seq).collect();
    assert_eq!(numbers, vec![Some(2), None, Some(3)]);
    assert_eq!(count(&writer, "SELECT COUNT(*) FROM u"), 2);
}

#[test]
fn fractions_are_told_apart_under_a_key() {
    let mut writer = open_memory_gateway(true);
    create_test_table(&mut writer);
    let keyed = |id: &str, param: &str| {
        let op = sql_op("INSERT INTO test_events(val) VALUES (?)", vec![json(param)]);
        WriteRequest { idempotency_key: Some("k".to_string()), ..make_request(id, vec![op]) }
    };
    assert_eq!(writer.apply(keyed("a", "0.1")).status, WriteStatus::Committed);
    assert_eq!(writer.apply(keyed("b", "0.10")).request_id, "a");
    assert_eq!(writer.apply(keyed("c", "0.10000000000000002")).status, WriteStatus::Failed);
    assert_eq!(count(&writer, "SELECT COUNT(*) FROM test_events"), 1);
}
