//! JSON values, requests, responses and errors as values.
use squeuelite::error::Error;
use squeuelite::json::{from_value, to_value, Json, JsonObject};
use squeuelite::request::{
    hash_operations, read_response, write_response, SqlOperation, WriteResponse, WriteStatus,
};

fn same(a: &WriteResponse, b: &WriteResponse) -> bool {
    a.request_id == b.request_id
        && a.status == b.status
        && a.commit_seq == b.commit_seq
        && a.error == b.error
}

#[test]
fn errors_read_as_they_should() {
    let s = || "x".to_string();
    assert_eq!(Error::Sqlite(s()).message(), "sqlite error: x");
    assert_eq!(Error::Json(s()).message(), "json error: x");
    assert_eq!(Error::Migration(s()).message(), "migration error: x");
    assert_eq!(Error::SqlRejected(s()).message(), "sql rejected: x");
    assert_eq!(Error::GatewayClosed.message(), "gateway is closed");
    assert_eq!(Error::GatewayOverloaded.message(), "gateway overloaded");
    assert_eq!(
        Error::IdempotencyConflict(s()).message(),
        "idempotency conflict: key 'x' already used with a different request hash"
    );
    assert_eq!(Error::InvalidParam(s()).message(), "invalid parameter: x");
    assert_eq!(Error::Io(s()).message(), "io error: x");
    assert_eq!(Error::Protocol(s()).message(), "protocol error: x");
}

#[test]
fn json_is_read_and_written() {
    let text = r#"{"a":{"k":{}},"z":[1,-2,null,true,"a\nb"]}"#;
    let value = Json::parse(text).unwrap();
    assert_eq!(value.to_text(), text);
    assert_eq!(from_value(to_value(&value)), value);
    assert_eq!(value.clone(), value);
    assert_eq!(
        Json::parse("[1,").unwrap_err(),
        "EOF while parsing a value at line 1 column 3"
    );
}

#[test]
fn json_is_read_up_to_its_nesting_limit() {
    let deep = |n: usize| format!("{}{}", "[".repeat(n), "]".repeat(n));
    let text = deep(127);
    assert_eq!(Json::parse(&text).unwrap().to_text(), text);
    assert!(Json::parse(&deep(128)).is_err());
}

#[test]
fn objects_keep_one_value_per_key() {
    let mut o = JsonObject::new();
    o.insert("a".to_string(), Json::integer(1));
    o.insert("b".to_string(), Json::Null);
    o.insert("a".to_string(), Json::Bool(true));
    assert_eq!(o.len(), 2);
    assert_eq!(o.key_at(0), "a");
    assert_eq!(o.value_at(0), &Json::Bool(true));
    assert_eq!(o.get("b"), Some(&Json::Null));
    assert_eq!(o.get("c"), None);
    assert_eq!(Json::Object(o.clone()).to_text(), r#"{"a":true,"b":null}"#);
}

#[test]
fn members_come_in_the_order_of_their_keys() {
    let sent = r#"{"b":{"y":1,"x":2},"":0,"\u00e9":3,"ab":4,"a":[{"z":5,"Z":6}],"\ud83d\ude00":7,"\uffff":8}"#;
    let read = Json::parse(sent).unwrap().to_text();
    assert_eq!(
        read,
        "{\"\":0,\"a\":[{\"Z\":6,\"z\":5}],\"ab\":4,\"b\":{\"x\":2,\"y\":1},\"\u{e9}\":3,\"\u{ffff}\":8,\"\u{1f600}\":7}"
    );
    let mut o = JsonObject::new();
    for key in ["b", "", "\u{e9}", "ab", "a", "\u{1f600}", "\u{ffff}", "b"] {
        o.insert(key.to_string(), Json::Null);
    }
    let keys: Vec<&str> = (0..o.len()).map(|i| o.key_at(i).as_str()).collect();
    assert_eq!(keys, vec!["", "a", "ab", "b", "\u{e9}", "\u{ffff}", "\u{1f600}"]);
}

#[test]
fn responses_are_read_back_from_their_record() {
    let done = WriteResponse::committed("r-1".to_string(), Some(42));
    let text = write_response(&done);
    assert_eq!(
        text,
        r#"{"request_id":"r-1","status":"committed","commit_seq":42,"error":null}"#
    );
    assert!(same(&read_response(&text).unwrap(), &done));
    let lost = WriteResponse::failed("r-2".to_string(), "no \"luck\"".to_string());
    assert!(same(&read_response(&write_response(&lost)).unwrap(), &lost));
    assert_eq!(lost.commit_seq, None);
    assert_eq!(lost.status, WriteStatus::Failed);
}

#[test]
fn other_forms_of_a_recorded_response_are_read_too() {
    let short = read_response(r#"{"status":"failed","request_id":"r","x":1}"#).unwrap();
    assert_eq!(short.status, WriteStatus::Failed);
    assert_eq!(short.error, None);
    let array = read_response(r#"["r","committed",7,null]"#).unwrap();
    assert!(same(&array, &WriteResponse::committed("r".to_string(), Some(7))));
    let tagged = read_response(r#"{"request_id":"r","status":{"committed":null}}"#).unwrap();
    assert_eq!(tagged.status, WriteStatus::Committed);
    for text in [
        "",
        "7",
        "{}",
        r#"["r","committed",7]"#,
        r#"{"request_id":1,"status":"committed"}"#,
        r#"{"request_id":"r","status":"done"}"#,
        r#"{"request_id":"r","status":"committed","commit_seq":1.0}"#,
        r#"{"request_id":"r","status":"committed","error":1}"#,
        r#"{"request_id":"r","status":{"committed":1}}"#,
    ] {
        assert!(read_response(text).is_none(), "{text}");
    }
}

#[test]
fn the_hash_of_operations_is_their_json() {
    let ops = vec![
        SqlOperation { sql: "INSERT 1".to_string(), params: vec![Json::integer(1), Json::Null] },
        SqlOperation { sql: "INSERT 2".to_string(), params: vec![] },
    ];
    assert_eq!(
        hash_operations(&ops),
        r#"[{"sql":"INSERT 1","params":[1,null]},{"sql":"INSERT 2","params":[]}]"#
    );
    assert_eq!(hash_operations(&vec![]), "[]");
    let with = |param: &str| {
        let params = vec![Json::parse(param).unwrap()];
        hash_operations(&vec![SqlOperation { sql: "s".to_string(), params }])
    };
    assert_eq!(with(r#"{"b":1,"a":2}"#), r#"[{"sql":"s","params":[{"a":2,"b":1}]}]"#);
    assert_eq!(with(r#"{"b":1,"a":2}"#), with(r#"{"a":2,"b":1}"#));
    assert_ne!(with(r#"{"b":1,"a":2}"#), with(r#"{"b":2,"a":1}"#));
}

#[test]
fn values_that_are_handed_in_are_ordered_too() {
    let value: serde_json::Value = serde_json::from_str(r#"{"b":[{"d":1,"c":2}],"a":3}"#).unwrap();
    assert_eq!(from_value(value).to_text(), r#"{"a":3,"b":[{"c":2,"d":1}]}"#);
}

#[test]
fn the_mark_of_the_parser_is_not_read_back() {
    let mut o = JsonObject::new();
    o.insert("$serde_json::private::RawValue".to_string(), Json::text("[1]"));
    let text = Json::Object(o).to_text();
    assert_eq!(text, r#"{"$serde_json::private::RawValue":"[1]"}"#);
    assert_eq!(Json::parse(&text).unwrap().to_text(), "[1]");
}
