//! The protobuf wire decoder, against payloads built with prost's own
//! encoders.

use pathfinder::configuration::ProtobufMapping;
use pathfinder::errors::DecodeError;
use pathfinder::json_value::{JsonValue, ValueMap};
use pathfinder::protobuf_serde::ProtobufDataSerde;

fn mapping(pairs: &[(&str, u32)]) -> ProtobufMapping {
    let mut out: Vec<(String, u32)> = Vec::new();
    for (k, tag) in pairs {
        out.push((k.to_string(), *tag));
    }
    ProtobufMapping(out)
}

fn get_str(map: &ValueMap, key: &str) -> Option<String> {
    match map.get(&key.to_string()) {
        Some(JsonValue::Str(s)) => Some(s.clone()),
        _ => None,
    }
}

fn encode_test_message(
    field_a: &str,
    field_b: Option<&str>,
    field_c: i32,
    field_d: f64,
    field_e: i64,
    field_f: f32,
) -> Vec<u8> {
    // The same bytes a prost-derived message with string tag 1, optional
    // string tag 2, int32 tag 3, double tag 4, int64 tag 5 and float
    // tag 6 encodes to: default values are omitted.
    let mut buf: Vec<u8> = Vec::new();
    if !field_a.is_empty() {
        prost::encoding::string::encode(1, &field_a.to_string(), &mut buf);
    }
    if let Some(b) = field_b {
        prost::encoding::string::encode(2, &b.to_string(), &mut buf);
    }
    if field_c != 0 {
        prost::encoding::int32::encode(3, &field_c, &mut buf);
    }
    if field_d != 0.0 {
        prost::encoding::double::encode(4, &field_d, &mut buf);
    }
    if field_e != 0 {
        prost::encoding::int64::encode(5, &field_e, &mut buf);
    }
    if field_f != 0.0 {
        prost::encoding::float::encode(6, &field_f, &mut buf);
    }
    buf
}

#[test]
fn test_extract_values_without_mapping() {
    assert!(ProtobufDataSerde::new(ProtobufMapping(Vec::new()), false).is_err());
}

#[test]
fn test_extract_values_full() {
    let mapping = mapping(&[
        ("fieldA", 1),
        ("fieldB", 2),
        ("fieldC", 3),
        ("fieldD", 4),
        ("fieldE", 5),
        ("fieldF", 6),
    ]);
    let serde = ProtobufDataSerde::new(mapping, false).unwrap();
    let data = encode_test_message("abc", Some("def"), 123, 456.789, 988, 123.456);
    let result = serde.extract_values(data).unwrap();

    assert_eq!(result.len_exec(), 6);
    assert_eq!(get_str(&result, "fieldA"), Some("abc".to_string()));
    assert_eq!(get_str(&result, "fieldB"), Some("def".to_string()));
    assert!(matches!(
        result.get(&"fieldC".to_string()),
        Some(JsonValue::Int(123))
    ));
    match result.get(&"fieldD".to_string()) {
        Some(JsonValue::DoubleBits(bits)) => assert_eq!(f64::from_bits(*bits), 456.789),
        _ => panic!("expected a double"),
    }
    assert!(matches!(
        result.get(&"fieldE".to_string()),
        Some(JsonValue::Int(988))
    ));
    match result.get(&"fieldF".to_string()) {
        Some(JsonValue::FloatBits(bits)) => assert_eq!(f32::from_bits(*bits), 123.456),
        _ => panic!("expected a float"),
    }
}

#[test]
fn test_extract_values_empty() {
    let mapping = mapping(&[("fieldA", 1), ("fieldB", 2), ("fieldC", 3), ("fieldD", 4)]);
    let serde = ProtobufDataSerde::new(mapping, false).unwrap();
    let data = encode_test_message("abc", None, 0, 0.0, 0, 0.0);
    let result = serde.extract_values(data).unwrap();

    assert_eq!(result.len_exec(), 1);
    assert_eq!(get_str(&result, "fieldA"), Some("abc".to_string()));
}

#[test]
fn test_extract_values_full_wire() {
    let mapping = mapping(&[("fieldA", 1), ("fieldB", 2)]);
    let serde = ProtobufDataSerde::new(mapping, true).unwrap();
    let mut wire_data = vec![0x00u8, 0x01, 0x02, 0x03, 0x04, 0x00];
    wire_data.extend(encode_test_message("abc", Some("def"), 0, 0.0, 0, 0.0));
    let result = serde.extract_values(wire_data).unwrap();

    assert_eq!(result.len_exec(), 2);
    assert_eq!(get_str(&result, "fieldA"), Some("abc".to_string()));
    assert_eq!(get_str(&result, "fieldB"), Some("def".to_string()));
}

#[test]
fn unmapped_tags_do_not_affect_the_result() {
    // The same mapped field, with and without unmapped neighbours of
    // every wire shape, decodes to the same map.
    let mapping = mapping(&[("id", 1)]);
    let serde = ProtobufDataSerde::new(mapping, false).unwrap();

    let mut bare: Vec<u8> = Vec::new();
    prost::encoding::string::encode(1, &"X".to_string(), &mut bare);

    let mut noisy: Vec<u8> = Vec::new();
    prost::encoding::int64::encode(7, &42, &mut noisy);
    prost::encoding::string::encode(1, &"X".to_string(), &mut noisy);
    prost::encoding::double::encode(9, &1.5, &mut noisy);
    prost::encoding::string::encode(12, &"junk".to_string(), &mut noisy);

    let bare_map = serde.extract_values(bare).unwrap();
    let noisy_map = serde.extract_values(noisy).unwrap();

    assert_eq!(bare_map.len_exec(), 1);
    assert_eq!(noisy_map.len_exec(), 1);
    assert_eq!(get_str(&bare_map, "id"), Some("X".to_string()));
    assert_eq!(get_str(&noisy_map, "id"), Some("X".to_string()));
}

#[test]
fn wire_envelope_is_discarded_exactly() {
    // Six bytes of envelope in wire mode equal no envelope in plain
    // mode; a short input decodes to the empty map.
    let plain = ProtobufDataSerde::new(mapping(&[("id", 1)]), false).unwrap();
    let wired = ProtobufDataSerde::new(mapping(&[("id", 1)]), true).unwrap();

    let mut message: Vec<u8> = Vec::new();
    prost::encoding::string::encode(1, &"X".to_string(), &mut message);
    let mut enveloped = vec![0x00u8, 0x09, 0x08, 0x07, 0x06, 0x01];
    enveloped.extend(message.clone());

    let from_plain = plain.extract_values(message).unwrap();
    let from_wire = wired.extract_values(enveloped).unwrap();
    assert_eq!(get_str(&from_plain, "id"), get_str(&from_wire, "id"));
    assert_eq!(from_plain.len_exec(), from_wire.len_exec());

    let short = wired.extract_values(vec![1, 2, 3]).unwrap();
    assert_eq!(short.len_exec(), 0);
}

#[test]
fn repeated_fields_keep_the_last_value() {
    let serde = ProtobufDataSerde::new(mapping(&[("id", 1)]), false).unwrap();
    let mut data: Vec<u8> = Vec::new();
    prost::encoding::string::encode(1, &"first".to_string(), &mut data);
    prost::encoding::string::encode(1, &"second".to_string(), &mut data);
    let result = serde.extract_values(data).unwrap();
    assert_eq!(get_str(&result, "id"), Some("second".to_string()));
}

#[test]
fn malformed_wire_data_is_a_decode_error() {
    let serde = ProtobufDataSerde::new(mapping(&[("id", 1)]), false).unwrap();
    // A lone continuation byte is a truncated varint.
    assert_eq!(
        serde.extract_values(vec![0x80]).err(),
        Some(DecodeError::InvalidWire)
    );
    // Tag 1 with wire type 2 announcing more bytes than there are.
    assert_eq!(
        serde.extract_values(vec![0x0a, 0x10, 0x61]).err(),
        Some(DecodeError::InvalidWire)
    );
}
