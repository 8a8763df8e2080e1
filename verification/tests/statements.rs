//! Which statements may run.
use squeuelite::config::GatewayConfig;
use squeuelite::error::Error;
use squeuelite::sql::validate_sql;

fn default_config() -> GatewayConfig {
    GatewayConfig { allow_schema_write: true, ..GatewayConfig::default() }
}

fn refusal(sql: &str, config: &GatewayConfig) -> String {
    match validate_sql(sql, config) {
        Ok(()) => "none".to_string(),
        Err(e) => e.message(),
    }
}

#[test]
fn test_reject_begin() {
    let cfg = default_config();
    assert!(validate_sql("BEGIN", &cfg).is_err());
    assert!(validate_sql("  begin TRANSACTION", &cfg).is_err());
    assert!(validate_sql("BEGIN IMMEDIATE", &cfg).is_err());
}

#[test]
fn test_reject_commit() {
    let cfg = default_config();
    assert!(validate_sql("COMMIT", &cfg).is_err());
    assert!(validate_sql("commit", &cfg).is_err());
}

#[test]
fn test_reject_rollback() {
    let cfg = default_config();
    assert!(validate_sql("ROLLBACK", &cfg).is_err());
}

#[test]
fn test_reject_savepoint() {
    let cfg = default_config();
    assert!(validate_sql("SAVEPOINT sp1", &cfg).is_err());
}

#[test]
fn test_reject_release() {
    let cfg = default_config();
    assert!(validate_sql("RELEASE sp1", &cfg).is_err());
}

#[test]
fn test_reject_pragma() {
    let cfg = default_config();
    assert!(validate_sql("PRAGMA journal_mode", &cfg).is_err());
    assert!(validate_sql("pragma journal_mode", &cfg).is_err());
}

#[test]
fn test_allow_insert() {
    let cfg = default_config();
    assert!(validate_sql("INSERT INTO t(v) VALUES (1)", &cfg).is_ok());
}

#[test]
fn test_allow_update() {
    let cfg = default_config();
    assert!(validate_sql("UPDATE t SET v = 1", &cfg).is_ok());
}

#[test]
fn test_allow_delete_default() {
    let cfg = default_config();
    assert!(validate_sql("DELETE FROM t", &cfg).is_ok());
}

#[test]
fn test_reject_delete_when_disabled() {
    let cfg = GatewayConfig {
        allow_delete: false,
        allow_schema_write: true,
        ..GatewayConfig::default()
    };
    assert!(validate_sql("DELETE FROM t", &cfg).is_err());
}

#[test]
fn test_allow_drop_when_enabled() {
    let cfg = GatewayConfig {
        allow_drop: true,
        allow_schema_write: true,
        ..GatewayConfig::default()
    };
    assert!(validate_sql("DROP TABLE t", &cfg).is_ok());
}

#[test]
fn test_reject_drop_default() {
    let cfg = GatewayConfig { allow_schema_write: true, ..GatewayConfig::default() };
    assert!(validate_sql("DROP TABLE t", &cfg).is_err());
}

#[test]
fn test_reject_create_when_schema_write_disabled() {
    let cfg = GatewayConfig::default();
    assert!(validate_sql("CREATE TABLE t (id INTEGER PRIMARY KEY)", &cfg).is_err());
}

#[test]
fn test_allow_create_when_schema_write_enabled() {
    let cfg = default_config();
    assert!(validate_sql("CREATE TABLE t (id INTEGER PRIMARY KEY)", &cfg).is_ok());
}

#[test]
fn test_reject_all_when_raw_sql_disabled() {
    let cfg = GatewayConfig {
        allow_raw_sql: false,
        allow_schema_write: true,
        ..GatewayConfig::default()
    };
    assert!(validate_sql("INSERT INTO t VALUES (1)", &cfg).is_err());
    assert!(validate_sql("SELECT 1", &cfg).is_err());
}

#[test]
fn test_mixed_case_begin() {
    let cfg = default_config();
    assert!(validate_sql("bEgIn TRANSACTION", &cfg).is_err());
}

#[test]
fn refusals_say_why() {
    let cfg = GatewayConfig::default();
    assert_eq!(
        refusal(" \tbEgIn\nx", &cfg),
        "sql rejected: statement starts with forbidden keyword 'bEgIn'"
    );
    assert_eq!(
        refusal("drop table t", &cfg),
        "sql rejected: DROP statements are disabled (allow_drop = false)"
    );
    assert_eq!(
        refusal("Alter table t", &cfg),
        "sql rejected: schema-write statements are disabled (allow_schema_write = false); statement starts with 'Alter'"
    );
    let no_delete = GatewayConfig { allow_delete: false, ..GatewayConfig::default() };
    assert_eq!(
        refusal("delete from t", &no_delete),
        "sql rejected: DELETE statements are disabled (allow_delete = false)"
    );
    let no_sql = GatewayConfig { allow_raw_sql: false, ..GatewayConfig::default() };
    assert_eq!(
        refusal("BEGIN", &no_sql),
        "sql rejected: raw SQL is disabled (allow_raw_sql = false)"
    );
}

#[test]
fn a_drop_needs_both_flags() {
    let only_drop = GatewayConfig { allow_drop: true, ..GatewayConfig::default() };
    assert_eq!(
        refusal("DROP TABLE t", &only_drop),
        "sql rejected: schema-write statements are disabled (allow_schema_write = false); statement starts with 'DROP'"
    );
}

#[test]
fn only_the_first_word_counts() {
    let cfg = GatewayConfig::default();
    assert_eq!(refusal("", &cfg), "none");
    assert_eq!(refusal("   ", &cfg), "none");
    assert_eq!(refusal("-- x\nBEGIN", &cfg), "none");
    assert_eq!(refusal("INSERT INTO t VALUES ('DROP TABLE t')", &cfg), "none");
    assert_eq!(
        refusal("\u{2003}\u{a0}COMMIT", &cfg),
        "sql rejected: statement starts with forbidden keyword 'COMMIT'"
    );
    assert_eq!(
        refusal("COMMIT\u{c}x", &cfg),
        "sql rejected: statement starts with forbidden keyword 'COMMIT'"
    );
    assert_eq!(refusal("COMMIT\u{a0}x", &cfg), "none");
    assert_eq!(refusal("COMMITTED", &cfg), "none");
    assert_eq!(refusal("commit_x", &cfg), "none");
    assert_eq!(refusal("\u{131}nsert", &cfg), "none");
}

#[test]
fn the_first_word_ends_at_punctuation() {
    let cfg = GatewayConfig { allow_delete: false, ..GatewayConfig::default() };
    for word in ["BEGIN", "COMMIT", "ROLLBACK", "SAVEPOINT", "RELEASE", "PRAGMA", "END", "end"] {
        for tail in ["", ";", "/**/", "--", "(", "\n;", "\"x\""] {
            assert_eq!(
                refusal(&format!(" {word}{tail}"), &cfg),
                format!("sql rejected: statement starts with forbidden keyword '{word}'")
            );
        }
    }
    assert_eq!(
        refusal("DROP;", &cfg),
        "sql rejected: DROP statements are disabled (allow_drop = false)"
    );
    assert_eq!(
        refusal("DELETE/**/FROM t", &cfg),
        "sql rejected: DELETE statements are disabled (allow_delete = false)"
    );
}

#[test]
fn a_refusal_is_its_own_kind_of_error() {
    let e = validate_sql("COMMIT", &GatewayConfig::default()).unwrap_err();
    assert!(matches!(e, Error::SqlRejected(_)));
}
