//! Whole-message encode/decode behavior, exercised with the real
//! `serde_json` linked in.

use native_messaging_host::read_input;
use native_messaging_host::send_message;
use native_messaging_host::Fault;

/// One frame as the peer would send it: little-endian length, then payload.
fn frame(payload: &[u8]) -> Vec<u8> {
    let mut out = (payload.len() as u32).to_le_bytes().to_vec();
    out.extend_from_slice(payload);
    out
}

#[test]
fn round_trip_null() {
    let value: serde_json::Value = serde_json::from_str("null").unwrap();
    let encoded = send_message(&value).unwrap();
    let (decoded, consumed) = read_input(&encoded, 0).unwrap();
    assert_eq!(consumed, encoded.len());
    assert_eq!(decoded, value);
}

#[test]
fn round_trip_nested_object() {
    let text = "{\"a\":[1,2,3],\"b\":{\"c\":\"x\",\"d\":false},\"e\":-7.5}";
    let value: serde_json::Value = serde_json::from_str(text).unwrap();
    let encoded = send_message(&value).unwrap();
    let (decoded, consumed) = read_input(&encoded, 0).unwrap();
    assert_eq!(consumed, encoded.len());
    assert_eq!(decoded, value);
}

#[test]
fn round_trip_string_with_escapes() {
    let value = serde_json::Value::String("line\none\t\"quoted\"\\".to_string());
    let encoded = send_message(&value).unwrap();
    let (decoded, _) = read_input(&encoded, 0).unwrap();
    assert_eq!(decoded, value);
}

#[test]
fn length_field_matches_payload() {
    let value: serde_json::Value = serde_json::from_str("[true,null]").unwrap();
    let encoded = send_message(&value).unwrap();
    let length = u32::from_le_bytes([encoded[0], encoded[1], encoded[2], encoded[3]]);
    assert_eq!(length as usize, encoded.len() - 4);
    assert_eq!(&encoded[4..], b"[true,null]");
}

#[test]
fn size_ceiling_exact_limit_succeeds() {
    // A JSON string of 1_048_574 characters serializes, with its two
    // quotes, to exactly 1_048_576 bytes.
    let value = serde_json::Value::String("x".repeat(1_048_574));
    let encoded = send_message(&value).unwrap();
    assert_eq!(encoded.len(), 4 + 1_048_576);
}

#[test]
fn size_ceiling_one_over_fails() {
    let value = serde_json::Value::String("x".repeat(1_048_575));
    match send_message(&value) {
        Err(Fault::MessageTooLarge { size }) => assert_eq!(size, 1_048_577),
        _ => panic!("expected the size fault"),
    }
}

#[test]
fn exhausted_before_any_byte() {
    let input: Vec<u8> = Vec::new();
    assert!(matches!(read_input(&input, 0), Err(Fault::NoMoreInput)));
}

#[test]
fn closed_after_two_length_bytes() {
    let input: Vec<u8> = vec![0, 0];
    assert!(matches!(read_input(&input, 0), Err(Fault::TruncatedFrame)));
}

#[test]
fn closed_inside_payload() {
    let mut input = frame(b"null");
    input.truncate(6);
    assert!(matches!(read_input(&input, 0), Err(Fault::TruncatedFrame)));
}

#[test]
fn non_canonical_payload_still_decodes() {
    let input = frame(b" {  \"a\" :\t1 } ");
    let (decoded, consumed) = read_input(&input, 0).unwrap();
    assert_eq!(consumed, input.len());
    assert_eq!(decoded, serde_json::from_str::<serde_json::Value>("{\"a\":1}").unwrap());
}

#[test]
fn nesting_beyond_parser_limit_is_a_decode_fault() {
    // The serializer imposes no nesting limit, so these bytes are the
    // canonical form of a real value; the parser's recursion limit still
    // rejects them, which is why the round trip is conditioned on depth.
    let deep = format!("{}{}", "[".repeat(130), "]".repeat(130));
    let value: serde_json::Value = {
        let mut v = serde_json::Value::Array(Vec::new());
        for _ in 0..129 {
            v = serde_json::Value::Array(vec![v]);
        }
        v
    };
    let encoded = send_message(&value).unwrap();
    assert_eq!(&encoded[4..], deep.as_bytes());
    assert!(matches!(read_input(&encoded, 0), Err(Fault::InvalidJson { .. })));
}

#[test]
fn unparsable_payload_is_a_decode_fault() {
    let input = frame(b"{oops");
    match read_input(&input, 0) {
        Err(Fault::InvalidJson { detail }) => assert!(!detail.is_empty()),
        _ => panic!("expected the decode fault"),
    }
}

#[test]
fn decode_starts_at_the_given_offset() {
    let mut input = frame(b"true");
    let second_start = input.len();
    input.extend_from_slice(&frame(b"false"));
    let (decoded, consumed) = read_input(&input, second_start).unwrap();
    assert_eq!(decoded, serde_json::Value::Bool(false));
    assert_eq!(consumed, 4 + 5);
}

#[test]
fn fault_descriptions() {
    assert_eq!(Fault::NoMoreInput.describe(), "input stream exhausted");
    assert_eq!(
        Fault::TruncatedFrame.describe(),
        "input stream ended in the middle of a frame"
    );
    let invalid = Fault::InvalidJson {
        detail: "key must be a string".to_string(),
    };
    assert_eq!(
        invalid.describe(),
        "frame payload is not valid JSON: key must be a string"
    );
    let io = Fault::Io {
        detail: "device not ready".to_string(),
    };
    assert_eq!(io.describe(), "input stream failed: device not ready");
    let large = Fault::MessageTooLarge { size: 2_000_000 };
    assert_eq!(
        large.describe(),
        "message of 2000000 bytes exceeds the one-mebibyte limit"
    );
    let small = Fault::MessageTooLarge { size: 0 };
    assert_eq!(
        small.describe(),
        "message of 0 bytes exceeds the one-mebibyte limit"
    );
    let awkward = Fault::MessageTooLarge { size: 1_048_577 };
    assert_eq!(
        awkward.describe(),
        "message of 1048577 bytes exceeds the one-mebibyte limit"
    );
}
