//! The dispatch loop, driven over in-memory input with real callbacks.

use native_messaging_host::event_loop;
use native_messaging_host::Callback;
use native_messaging_host::Fault;

/// One frame as the peer would send it: little-endian length, then payload.
fn frame(payload: &[u8]) -> Vec<u8> {
    let mut out = (payload.len() as u32).to_le_bytes().to_vec();
    out.extend_from_slice(payload);
    out
}

/// Split a frame stream back into its payloads, checking each length field.
fn split_frames(mut bytes: &[u8]) -> Vec<Vec<u8>> {
    let mut payloads = Vec::new();
    while !bytes.is_empty() {
        assert!(bytes.len() >= 4);
        let length = u32::from_le_bytes([bytes[0], bytes[1], bytes[2], bytes[3]]) as usize;
        assert!(bytes.len() >= 4 + length);
        payloads.push(bytes[4..4 + length].to_vec());
        bytes = &bytes[4 + length..];
    }
    payloads
}

/// Answers `{"payload": "ok"}` to every message, like a host echo stub.
struct EchoOk;

impl Callback for EchoOk {
    fn allows(
        &self,
        _message: serde_json::Value,
        reply: Result<serde_json::Value, String>,
    ) -> bool {
        reply.is_ok()
    }

    fn call(&self, _message: serde_json::Value) -> Result<serde_json::Value, String> {
        let mut map = serde_json::Map::new();
        map.insert(
            "payload".to_string(),
            serde_json::Value::String("ok".to_string()),
        );
        Ok(serde_json::Value::Object(map))
    }
}

/// Reports every message as a failure with a fixed display text.
struct AlwaysFails;

impl Callback for AlwaysFails {
    fn allows(
        &self,
        _message: serde_json::Value,
        reply: Result<serde_json::Value, String>,
    ) -> bool {
        matches!(reply, Err(ref text) if text == "nope")
    }

    fn call(&self, _message: serde_json::Value) -> Result<serde_json::Value, String> {
        Err("nope".to_string())
    }
}

/// Succeeds with a value far over the one-mebibyte ceiling.
struct TooTalkative;

impl Callback for TooTalkative {
    fn allows(
        &self,
        _message: serde_json::Value,
        reply: Result<serde_json::Value, String>,
    ) -> bool {
        reply.is_ok()
    }

    fn call(&self, _message: serde_json::Value) -> Result<serde_json::Value, String> {
        Ok(serde_json::Value::String("y".repeat(2_000_000)))
    }
}

#[test]
fn echo_null_frame() {
    let input = frame(b"null");
    let output = event_loop(&input, &EchoOk).unwrap();
    assert_eq!(output, frame(b"{\"payload\":\"ok\"}"));
}

#[test]
fn empty_input_yields_empty_output() {
    let input: Vec<u8> = Vec::new();
    let output = event_loop(&input, &EchoOk).unwrap();
    assert!(output.is_empty());
}

#[test]
fn malformed_payload_then_wellformed_frame() {
    let mut input = frame(b"{oops");
    input.extend_from_slice(&frame(b"null"));
    let output = event_loop(&input, &EchoOk).unwrap();
    let payloads = split_frames(&output);
    assert_eq!(payloads.len(), 2);
    let first: serde_json::Value = serde_json::from_slice(&payloads[0]).unwrap();
    assert!(first.get("error").is_some());
    assert_eq!(payloads[1], b"{\"payload\":\"ok\"}");
}

#[test]
fn lone_truncated_fragment_is_answered() {
    let input: Vec<u8> = vec![9, 0];
    let output = event_loop(&input, &EchoOk).unwrap();
    let payloads = split_frames(&output);
    assert_eq!(payloads.len(), 1);
    let outcome: serde_json::Value = serde_json::from_slice(&payloads[0]).unwrap();
    assert_eq!(
        outcome.get("error").and_then(serde_json::Value::as_str),
        Some("input stream ended in the middle of a frame")
    );
}

#[test]
fn unparsable_frames_are_always_answered() {
    let mut input = frame(b"{oops");
    input.extend_from_slice(&frame(b"]["));
    let output = event_loop(&input, &EchoOk).unwrap();
    let payloads = split_frames(&output);
    assert_eq!(payloads.len(), 2);
    for payload in &payloads {
        let outcome: serde_json::Value = serde_json::from_slice(payload).unwrap();
        let text = outcome.get("error").and_then(serde_json::Value::as_str).unwrap();
        assert!(text.starts_with("frame payload is not valid JSON: "));
    }
}

#[test]
fn callback_failure_becomes_error_outcome() {
    let input = frame(b"42");
    let output = event_loop(&input, &AlwaysFails).unwrap();
    let payloads = split_frames(&output);
    assert_eq!(payloads.len(), 1);
    assert_eq!(payloads[0], b"{\"error\":\"nope\"}");
}

#[test]
fn truncated_tail_still_answered() {
    let mut input = frame(b"null");
    input.extend_from_slice(&[9, 0]);
    let output = event_loop(&input, &EchoOk).unwrap();
    let payloads = split_frames(&output);
    assert_eq!(payloads.len(), 2);
    assert_eq!(payloads[0], b"{\"payload\":\"ok\"}");
    let second: serde_json::Value = serde_json::from_slice(&payloads[1]).unwrap();
    assert_eq!(
        second.get("error").and_then(serde_json::Value::as_str),
        Some("input stream ended in the middle of a frame")
    );
}

/// Fails every message with a text too long for any legal error outcome.
struct FailsAtLength;

impl Callback for FailsAtLength {
    fn allows(
        &self,
        _message: serde_json::Value,
        reply: Result<serde_json::Value, String>,
    ) -> bool {
        reply.is_err()
    }

    fn call(&self, _message: serde_json::Value) -> Result<serde_json::Value, String> {
        Err("z".repeat(2_000_000))
    }
}

#[test]
fn oversized_error_outcome_is_fatal() {
    let input = frame(b"null");
    assert!(matches!(
        event_loop(&input, &FailsAtLength),
        Err(Fault::MessageTooLarge { .. })
    ));
}

#[test]
fn oversized_outcome_is_fatal() {
    let input = frame(b"null");
    match event_loop(&input, &TooTalkative) {
        Err(Fault::MessageTooLarge { size }) => assert_eq!(size, 2_000_002),
        _ => panic!("expected the size fault"),
    }
}
