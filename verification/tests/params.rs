//! How JSON parameters become SQLite values.
use squeuelite::json::Json;
use squeuelite::params::{blob, json_to_sqlite, params_from, SqlValue};

fn json(text: &str) -> Json {
    Json::parse(text).unwrap()
}

#[test]
fn test_json_null_converts_to_sqlite_null() {
    let result = json_to_sqlite(&json("null")).unwrap();
    assert!(matches!(result, SqlValue::Null));
}

#[test]
fn test_json_bool_true_converts_to_integer_1() {
    let result = json_to_sqlite(&json("true")).unwrap();
    assert_eq!(result, SqlValue::Integer(1));
}

#[test]
fn test_json_bool_false_converts_to_integer_0() {
    let result = json_to_sqlite(&json("false")).unwrap();
    assert_eq!(result, SqlValue::Integer(0));
}

#[test]
fn test_json_integer_converts_to_sqlite_integer() {
    let result = json_to_sqlite(&Json::integer(42)).unwrap();
    assert_eq!(result, SqlValue::Integer(42));
}

#[test]
fn test_json_float_converts_to_sqlite_real() {
    let number = serde_json::Number::from_f64(2.5).unwrap();
    let result = json_to_sqlite(&Json::Number(number.clone())).unwrap();
    assert_eq!(result, SqlValue::Real(number));
    match json_to_sqlite(&json("2.5")).unwrap() {
        SqlValue::Real(n) => assert_eq!(n.as_f64(), Some(2.5)),
        other => panic!("expected a real, got {other:?}"),
    }
}

#[test]
fn test_json_string_converts_to_sqlite_text() {
    let result = json_to_sqlite(&Json::text("hello")).unwrap();
    assert_eq!(result, SqlValue::Text("hello".to_string()));
}

#[test]
fn test_json_array_converts_to_sqlite_text_json() {
    let result = json_to_sqlite(&json(r#"["a", "b"]"#)).unwrap();
    assert_eq!(result, SqlValue::Text(r#"["a","b"]"#.to_string()));
}

#[test]
fn test_json_object_converts_to_sqlite_text_json() {
    let result = json_to_sqlite(&json(r#"{"key": "val"}"#)).unwrap();
    assert_eq!(result, SqlValue::Text(r#"{"key":"val"}"#.to_string()));
}

#[test]
fn test_blob_sentinel_decodes_base64_to_blob() {
    let result = json_to_sqlite(&json(r#"{"$blob": "aGVsbG8="}"#)).unwrap();
    assert_eq!(result, SqlValue::Blob(b"hello".to_vec()));
}

#[test]
fn test_blob_sentinel_invalid_base64_returns_err() {
    let result = json_to_sqlite(&json(r#"{"$blob": "!!!notbase64!!!"}"#));
    assert!(result.is_err(), "invalid base64 must return Err");
    let err_msg = result.unwrap_err().message();
    assert!(
        err_msg.contains("invalid parameter"),
        "error must mention 'invalid parameter', got: {err_msg}"
    );
    assert!(err_msg.starts_with("invalid parameter: $blob base64 decode failed: Invalid symbol 33"));
}

#[test]
fn test_blob_sentinel_non_string_value_falls_through_to_text() {
    let result = json_to_sqlite(&json(r#"{"$blob": 123}"#)).unwrap();
    assert_eq!(result, SqlValue::Text(r#"{"$blob":123}"#.to_string()));
}

#[test]
fn test_blob_sentinel_multiple_keys_falls_through_to_text() {
    let result = json_to_sqlite(&json(r#"{"$blob": "aGVsbG8=", "x": 1}"#)).unwrap();
    assert!(
        matches!(result, SqlValue::Text(_)),
        "multi-key object must be stored as Text(JSON)"
    );
    assert!(
        !matches!(result, SqlValue::Blob(_)),
        "multi-key object must not be decoded as Blob"
    );
    assert_eq!(result, SqlValue::Text(r#"{"$blob":"aGVsbG8=","x":1}"#.to_string()));
}

#[test]
fn numbers_beyond_the_integers_are_reals() {
    assert_eq!(
        json_to_sqlite(&json("9223372036854775807")).unwrap(),
        SqlValue::Integer(i64::MAX)
    );
    assert_eq!(
        json_to_sqlite(&json("-9223372036854775808")).unwrap(),
        SqlValue::Integer(i64::MIN)
    );
    assert!(matches!(json_to_sqlite(&json("9223372036854775808")).unwrap(), SqlValue::Real(_)));
    assert!(matches!(json_to_sqlite(&json("1.0")).unwrap(), SqlValue::Real(_)));
}

#[test]
fn bytes_survive_as_a_parameter() {
    let every: Vec<u8> = (0..=255).collect();
    assert_eq!(json_to_sqlite(&blob(&every)).unwrap(), SqlValue::Blob(every));
    assert_eq!(json_to_sqlite(&blob(b"")).unwrap(), SqlValue::Blob(vec![]));
    assert_eq!(blob(b"hello").to_text(), r#"{"$blob":"aGVsbG8="}"#);
}

#[test]
fn the_first_bad_parameter_is_reported() {
    let good = vec![Json::Null, Json::integer(7), Json::text("x")];
    assert_eq!(
        params_from(&good).unwrap(),
        vec![SqlValue::Null, SqlValue::Integer(7), SqlValue::Text("x".to_string())]
    );
    let bad = vec![Json::Null, json(r#"{"$blob":"*"}"#), json(r#"{"$blob":"aGVsbG8"}"#)];
    let message = params_from(&bad).unwrap_err().message();
    assert_eq!(
        message,
        "invalid parameter: $blob base64 decode failed: Invalid symbol 42, offset 0."
    );
}

#[test]
fn keys_are_ordered_and_keep_the_last_value() {
    let sent = json(r#"{"b":1,"a":2,"b":3}"#);
    assert_eq!(
        json_to_sqlite(&sent).unwrap(),
        SqlValue::Text(r#"{"a":2,"b":3}"#.to_string())
    );
}
