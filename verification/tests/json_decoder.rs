//! The JSON decoder, across mappings and modes.

use pathfinder::configuration::JsonMapping;
use pathfinder::errors::{ConfigError, DecodeError};
use pathfinder::json_serde::JsonDataSerde;
use pathfinder::json_value::{JsonValue, ValueMap};

fn mapping(pairs: &[(&str, &str)]) -> JsonMapping {
    let mut out: Vec<(String, String)> = Vec::new();
    for (k, v) in pairs {
        out.push((k.to_string(), v.to_string()));
    }
    JsonMapping(out)
}

fn get_str(map: &ValueMap, key: &str) -> Option<String> {
    match map.get(&key.to_string()) {
        Some(JsonValue::Str(s)) => Some(s.clone()),
        _ => None,
    }
}

fn get_int(map: &ValueMap, key: &str) -> Option<i64> {
    match map.get(&key.to_string()) {
        Some(JsonValue::Int(i)) => Some(*i),
        _ => None,
    }
}

#[test]
fn test_extract_values_without_mapping_non_strict() {
    let serde = JsonDataSerde::new(JsonMapping::default(), false).unwrap();
    let data = r#"{"id":"abc","createdAt":123}"#.as_bytes().to_vec();
    let result = serde.extract_values(data).unwrap();

    assert_eq!(get_str(&result, "id"), Some("abc".to_string()));
    assert_eq!(get_int(&result, "createdAt"), Some(123));
}

#[test]
fn test_extract_values_without_mapping_strict() {
    assert!(JsonDataSerde::new(JsonMapping::default(), true).is_err());
    assert_eq!(
        JsonDataSerde::new(JsonMapping::default(), true).err(),
        Some(ConfigError::EmptyJsonMapping)
    );
}

#[test]
fn test_extract_values_with_full_mapping_non_strict() {
    let mapping = mapping(&[("id", "account_id"), ("createdAt", "created_at")]);
    let serde = JsonDataSerde::new(mapping, false).unwrap();
    let data = r#"{"account_id":"abc","created_at":123}"#.as_bytes().to_vec();
    let result = serde.extract_values(data).unwrap();

    assert_eq!(get_str(&result, "id"), Some("abc".to_string()));
    assert_eq!(get_int(&result, "createdAt"), Some(123));
}

#[test]
fn test_extract_values_with_partial_mapping_non_strict() {
    let mapping = mapping(&[("createdAt", "created_at")]);
    let serde = JsonDataSerde::new(mapping, false).unwrap();
    let data = r#"{"account_id":"abc","created_at":123}"#.as_bytes().to_vec();
    let result = serde.extract_values(data).unwrap();

    assert_eq!(get_str(&result, "account_id"), Some("abc".to_string()));
    assert_eq!(get_int(&result, "createdAt"), Some(123));
}

#[test]
fn test_extract_values_with_partial_mapping_strict() {
    let mapping = mapping(&[("createdAt", "created_at")]);
    let serde = JsonDataSerde::new(mapping, true).unwrap();
    let data = r#"{"account_id":"abc","created_at":123}"#.as_bytes().to_vec();
    let result = serde.extract_values(data).unwrap();

    assert_eq!(result.len_exec(), 1);
    assert!(result.get(&"account_id".to_string()).is_none());
    assert_eq!(get_int(&result, "createdAt"), Some(123));
}

#[test]
fn test_extract_values_with_empty_data_non_strict() {
    let serde = JsonDataSerde::new(JsonMapping::default(), false).unwrap();
    let result = serde.extract_values(Vec::new()).unwrap();

    assert_eq!(result.len_exec(), 0);
}

#[test]
fn json_decoder_rejects_bad_input() {
    let serde = JsonDataSerde::new(JsonMapping::default(), false).unwrap();
    assert_eq!(
        serde.extract_values(b"not json".to_vec()).err(),
        Some(DecodeError::InvalidJson)
    );
    // A top-level array is not an object.
    assert_eq!(
        serde.extract_values(b"[1,2]".to_vec()).err(),
        Some(DecodeError::InvalidJson)
    );
}

#[test]
fn json_mapping_copies_source_field() {
    // Non-strict: the renamed field sits alongside the source entry —
    // the source is left in place — and untouched fields ride along.
    let mapping = mapping(&[("id", "account_id")]);
    let serde = JsonDataSerde::new(mapping, false).unwrap();
    let data = r#"{"account_id":"abc","other":true}"#.as_bytes().to_vec();
    let result = serde.extract_values(data).unwrap();

    assert_eq!(get_str(&result, "id"), Some("abc".to_string()));
    assert_eq!(get_str(&result, "account_id"), Some("abc".to_string()));
    assert!(matches!(
        result.get(&"other".to_string()),
        Some(JsonValue::Bool(true))
    ));
    assert_eq!(result.len_exec(), 3);
}

#[test]
fn json_strict_mapping_reads_presence_against_the_input() {
    // Two outputs sharing one source both fire: presence is read against
    // the input object, not a shrinking copy of it.
    let mapping = mapping(&[("first", "x"), ("second", "x")]);
    let serde = JsonDataSerde::new(mapping, true).unwrap();
    let data = r#"{"x":"v"}"#.as_bytes().to_vec();
    let result = serde.extract_values(data).unwrap();

    assert_eq!(result.len_exec(), 2);
    assert_eq!(get_str(&result, "first"), Some("v".to_string()));
    assert_eq!(get_str(&result, "second"), Some("v".to_string()));
}

#[test]
fn json_nested_values_ride_through() {
    let serde = JsonDataSerde::new(JsonMapping::default(), false).unwrap();
    let data = r#"{"id":"x","meta":{"a":1}}"#.as_bytes().to_vec();
    let result = serde.extract_values(data).unwrap();

    match result.get(&"meta".to_string()) {
        Some(JsonValue::Raw(text)) => {
            let round: serde_json::Value = serde_json::from_str(text).unwrap();
            assert_eq!(round["a"], serde_json::Value::from(1));
        }
        _ => panic!("expected a raw fragment"),
    }
}
