//! The boundary to `serde_json`, the JSON implementation this crate calls.
//!
//! JSON text handling is not re-implemented here: serialization and
//! parsing are `serde_json`'s work, reached through the trusted items of
//! this module, and a JSON document is carried through the rest of the
//! crate as an opaque `serde_json::Value`.
//!
//! The one name the contracts build on is [`json_bytes_of`]: the byte
//! string `serde_json` serializes a value to.  It is well defined because
//! that serialization depends on the value alone: `serde_json`'s maps are
//! backed by `BTreeMap` (the `preserve_order` feature is off), so even
//! object key order is determined.

use vstd::prelude::*;

verus! {

#[verifier::external_type_specification]
#[verifier::external_body]
pub struct ExValue(serde_json::Value);

#[verifier::external_type_specification]
#[verifier::external_body]
pub struct ExJsonError(serde_json::Error);

/// The byte string that `serde_json` serializes `v` to.
pub uninterp spec fn json_bytes_of(v: serde_json::Value) -> Seq<u8>;

/// Holds exactly of the byte strings that `serde_json::from_slice` reads
/// as a JSON document: well-formed JSON text whose nesting stays within
/// the parser's recursion limit.
pub uninterp spec fn json_parsable(bytes: Seq<u8>) -> bool;

/// The canonical form of a parsable byte string: what the document that
/// `serde_json::from_slice` reads from `bytes` serializes back to.
pub uninterp spec fn json_canon(bytes: Seq<u8>) -> Seq<u8>;

/// Holds exactly of the values whose serialization `serde_json::from_slice`
/// reads back: those nested within the parser's recursion limit.  The
/// serializer imposes no such limit, so a value nested deeper can be
/// encoded yet not decoded; on those the round trip genuinely fails.
pub uninterp spec fn json_within_depth(v: serde_json::Value) -> bool;

/// The display text of the parse error `serde_json::from_slice` reports
/// for `bytes`.  Meaningful only where parsing fails; parsing is
/// deterministic, so the text depends on the bytes alone.
pub uninterp spec fn json_parse_error_text(bytes: Seq<u8>) -> Seq<char>;

/// The display text of a `serde_json::Error`.
pub uninterp spec fn error_display_of(e: serde_json::Error) -> Seq<char>;

/// The serialization of the error outcome `{"error": <message>}`.
pub uninterp spec fn error_doc(message: Seq<char>) -> Seq<u8>;

/// The serialization of the panic outcome
/// `{"file": <file|null>, "line": <line|null>, "payload": <message>, "status": "panic"}`.
pub uninterp spec fn panic_doc(message: Seq<char>, file: Option<Seq<char>>, line: Option<
    u32,
>) -> Seq<u8>;

/// Relies on `serde_json::to_vec`: the bytes depend on the value alone,
/// and serializing a `Value` cannot fail (its maps are string-keyed and
/// its numbers are finite, the only failure sources its documentation
/// names).
#[verifier::external_body]
pub(crate) fn to_json_bytes(value: &serde_json::Value) -> (r: Vec<u8>)
    ensures
        r@ == json_bytes_of(*value),
{
    serde_json::to_vec(value).unwrap()
}

/// Relies on `serde_json::from_slice`: parsing depends on the bytes
/// alone, succeeding exactly on the parsable byte strings; and — with
/// the `float_roundtrip` feature on, so that floats are re-read to the
/// exact value they were printed from — the output of
/// `serde_json::to_vec` parses back to an equal value, provided its
/// nesting stays within the parser's recursion limit (the one thing the
/// parser enforces that the serializer does not).  On failure the
/// error's display text is a fixed template plus a line and a column
/// number, well under 128 characters.
#[verifier::external_body]
pub(crate) fn parse_json(bytes: &Vec<u8>) -> (r: Result<serde_json::Value, serde_json::Error>)
    ensures
        r is Ok <==> json_parsable(bytes@),
        r is Ok ==> json_bytes_of(r->Ok_0) == json_canon(bytes@),
        forall|v: serde_json::Value|
            bytes@ == json_bytes_of(v) && #[trigger] json_within_depth(v) ==> r is Ok && r->Ok_0
                == v,
        r is Err ==> error_display_of(r->Err_0) == json_parse_error_text(bytes@)
            && json_parse_error_text(bytes@).len() <= 128,
{
    serde_json::from_slice(bytes.as_slice())
}

/// Relies on `serde_json::Error`'s `Display` implementation: the
/// parser's description of what made a payload unreadable, a pure
/// function of the error value.
#[verifier::external_body]
pub(crate) fn json_error_text(error: &serde_json::Error) -> (r: String)
    ensures
        r@ == error_display_of(*error),
{
    error.to_string()
}

/// Relies on `serde_json::Map::insert` and `Value`'s constructors: builds
/// the one-entry object `{"error": <message>}`, whose serialization
/// depends on the message alone.  The length bound is `serde_json`'s
/// string escaping: a character becomes at most six bytes (`\u00XX`),
/// and the object's punctuation, key and quotes are twelve bytes.
#[verifier::external_body]
pub(crate) fn error_value(message: &String) -> (r: serde_json::Value)
    ensures
        json_bytes_of(r) == error_doc(message@),
        json_bytes_of(r).len() <= 12 + 6 * message@.len(),
{
    let mut map = serde_json::Map::new();
    map.insert("error".to_string(), serde_json::Value::String(message.clone()));
    serde_json::Value::Object(map)
}

/// Relies on `serde_json::Map::insert` and `Value`'s constructors: builds
/// the panic outcome object with fields `status` (the string `"panic"`),
/// `payload` (the message), and `file`/`line` (the fault's source
/// location, or `null` where it is unknown).  Its serialization depends
/// on the three arguments alone.  The length bound is `serde_json`'s
/// string escaping (at most six bytes per character) plus the object's
/// fixed punctuation, keys, the `"panic"` literal, and a line number of
/// at most ten digits.
#[verifier::external_body]
pub(crate) fn panic_value(message: &String, file: Option<String>, line: Option<u32>) -> (r:
    serde_json::Value)
    ensures
        json_bytes_of(r) == panic_doc(message@, file.deep_view(), line),
        json_bytes_of(r).len() <= 64 + 6 * message@.len() + 6 * (match file {
            Some(f) => f@.len(),
            None => 0,
        }),
{
    let mut map = serde_json::Map::new();
    map.insert("status".to_string(), serde_json::Value::String("panic".to_string()));
    map.insert("payload".to_string(), serde_json::Value::String(message.clone()));
    map.insert("file".to_string(), file.map_or(serde_json::Value::Null, serde_json::Value::String));
    map.insert("line".to_string(), line.map_or(serde_json::Value::Null, serde_json::Value::from));
    serde_json::Value::Object(map)
}

} // verus!
