//! Whole-message encode and decode: the frame codec and the JSON layer
//! combined.
//!
//! [`send_message`] turns a JSON value into one outgoing frame, enforcing
//! the one-mebibyte ceiling before anything would be written.
//! [`read_input`] decodes one incoming message from buffered input,
//! telling clean exhaustion, truncation and unparsable payloads apart.

use vstd::bytes::*;
use vstd::prelude::*;

use crate::errors::Fault;
use crate::frame::frame_bytes;
use crate::frame::read_frame;
use crate::frame::write_frame;
use crate::frame::MAX_MESSAGE_SIZE;
use crate::json::error_doc;
use crate::json::json_canon;
use crate::json::json_parsable;
use crate::json::json_within_depth;
use crate::json::error_value;
use crate::json::json_bytes_of;
use crate::json::json_error_text;
use crate::json::json_parse_error_text;
use crate::json::panic_doc;
use crate::json::panic_value;
use crate::json::parse_json;
use crate::json::to_json_bytes;

verus! {

/// Encode `value` as one frame, ready to be written to the output stream:
/// the serialized length as four little-endian bytes, then the JSON text.
///
/// Succeeds if and only if the serialized form is at most
/// [`MAX_MESSAGE_SIZE`] bytes; a larger value yields
/// [`Fault::MessageTooLarge`] carrying the actual size, and no bytes at
/// all.
pub fn send_message(value: &serde_json::Value) -> (r: Result<Vec<u8>, Fault>)
    ensures
        r is Ok <==> json_bytes_of(*value).len() <= MAX_MESSAGE_SIZE,
        r is Ok ==> r->Ok_0@ == frame_bytes(json_bytes_of(*value)),
        json_bytes_of(*value).len() > MAX_MESSAGE_SIZE ==> r == Err::<Vec<u8>, Fault>(
            (Fault::MessageTooLarge { size: json_bytes_of(*value).len() as usize }),
        ),
        json_bytes_of(*value).len() <= usize::MAX,
        r is Err ==> (r->Err_0 matches Fault::MessageTooLarge { size } && size
            > MAX_MESSAGE_SIZE),
{
    let bytes = to_json_bytes(value);
    let _byte_count: usize = bytes.len();
    write_frame(&bytes)
}

/// Encode the error outcome `{"error": <message>}` as one frame: how a
/// fault met while serving a request is reported to the peer.
///
/// Succeeds if and only if the outcome document fits the ceiling, and
/// then yields exactly the frame carrying that document.  Success is
/// owed outright for any message short enough that the document cannot
/// exceed the ceiling.
pub fn send_error(message: &String) -> (r: Result<Vec<u8>, Fault>)
    ensures
        12 + 6 * message@.len() <= MAX_MESSAGE_SIZE ==> r is Ok,
        r is Ok <==> error_doc(message@).len() <= MAX_MESSAGE_SIZE,
        r is Ok ==> r->Ok_0@ == frame_bytes(error_doc(message@)),
        error_doc(message@).len() > MAX_MESSAGE_SIZE ==> r == Err::<Vec<u8>, Fault>(
            (Fault::MessageTooLarge { size: error_doc(message@).len() as usize }),
        ),
        error_doc(message@).len() <= usize::MAX,
        r is Err ==> (r->Err_0 matches Fault::MessageTooLarge { size } && size
            > MAX_MESSAGE_SIZE),
{
    send_message(&error_value(message))
}

/// Encode the panic outcome — `status` `"panic"`, the fault's message as
/// `payload`, and its source location as `file` and `line` (`null` where
/// unknown) — as one frame: the last word the peer hears before an
/// uncaught fault ends the process.
///
/// Succeeds if and only if the outcome document fits the ceiling, and
/// then yields exactly the frame carrying that document.  Success is
/// owed outright when the message and the file name are short enough
/// that the document cannot exceed the ceiling — so a panic report with
/// an ordinary message is always delivered.
pub fn send_panic(message: &String, file: Option<String>, line: Option<u32>) -> (r: Result<
    Vec<u8>,
    Fault,
>)
    ensures
        64 + 6 * message@.len() + 6 * (match file {
            Some(f) => f@.len(),
            None => 0,
        }) <= MAX_MESSAGE_SIZE ==> r is Ok,
        r is Ok <==> panic_doc(message@, file.deep_view(), line).len() <= MAX_MESSAGE_SIZE,
        r is Ok ==> r->Ok_0@ == frame_bytes(panic_doc(message@, file.deep_view(), line)),
        panic_doc(message@, file.deep_view(), line).len() > MAX_MESSAGE_SIZE ==> r == Err::<
            Vec<u8>,
            Fault,
        >(
            (Fault::MessageTooLarge {
                size: panic_doc(message@, file.deep_view(), line).len() as usize,
            }),
        ),
        panic_doc(message@, file.deep_view(), line).len() <= usize::MAX,
        r is Err ==> (r->Err_0 matches Fault::MessageTooLarge { size } && size
            > MAX_MESSAGE_SIZE),
{
    send_message(&panic_value(message, file, line))
}

/// Decode one message from `input`, starting at offset `start`.
///
/// Returns the decoded JSON value and the number of bytes consumed, or:
/// [`Fault::NoMoreInput`] exactly when no byte is left (the peer closed
/// the stream cleanly); [`Fault::TruncatedFrame`] exactly when the input
/// ends inside the length field or inside the payload;
/// [`Fault::InvalidJson`] exactly when a complete payload is not
/// parsable JSON text.  On success the decoded value serializes to the
/// payload's canonical form.
///
/// The last `ensures` clause is the round trip: whenever the input starts
/// with a frame exactly as [`send_message`] emits it — for a value
/// nested within the parser's recursion limit — decoding succeeds and
/// yields a value whose serialized form is that frame's payload, byte
/// for byte.
pub fn read_input(input: &Vec<u8>, start: usize) -> (r: Result<(serde_json::Value, usize), Fault>)
    requires
        start <= input@.len(),
    ensures
        ({
            let s = input@.skip(start as int);
            &&& (r == Err::<(serde_json::Value, usize), Fault>(Fault::NoMoreInput) <==> s.len()
                == 0)
            &&& (0 < s.len() < 4 ==> r == Err::<(serde_json::Value, usize), Fault>(
                Fault::TruncatedFrame,
            ))
            &&& (s.len() >= 4 ==> ({
                let n = spec_u32_from_le_bytes(s.subrange(0, 4)) as int;
                &&& (s.len() < 4 + n ==> r == Err::<(serde_json::Value, usize), Fault>(
                    Fault::TruncatedFrame,
                ))
                &&& (s.len() >= 4 + n ==> {
                    &&& (r is Ok <==> json_parsable(s.subrange(4, 4 + n)))
                    &&& (r is Ok ==> r->Ok_0.1 == 4 + n && json_bytes_of(r->Ok_0.0) == json_canon(
                        s.subrange(4, 4 + n),
                    ))
                    &&& (r is Err ==> (r->Err_0 matches Fault::InvalidJson { detail } && detail@
                        == json_parse_error_text(s.subrange(4, 4 + n))))
                })
            }))
        }),
        forall|v: serde_json::Value|
            #[trigger] frame_bytes(json_bytes_of(v)).is_prefix_of(input@.skip(start as int))
                && json_bytes_of(v).len() <= u32::MAX && json_within_depth(v) ==> r is Ok
                && r->Ok_0.0 == v && r->Ok_0.1 == 4 + json_bytes_of(v).len(),
{
    let ghost s = input@.skip(start as int);
    proof {
        lemma_auto_spec_u32_to_from_le_bytes();
    }
    match read_frame(input, start) {
        Err(fault) => {
            proof {
                assert forall|v: serde_json::Value|
                    #[trigger] frame_bytes(json_bytes_of(v)).is_prefix_of(s) && json_bytes_of(
                        v,
                    ).len() <= u32::MAX && json_within_depth(v) implies false by {
                    lemma_prefix_frame_header(s, json_bytes_of(v));
                }
            }
            Err(fault)
        },
        Ok((payload, consumed)) => {
            match parse_json(&payload) {
                Ok(value) => {
                    proof {
                        assert forall|v: serde_json::Value|
                            #[trigger] frame_bytes(json_bytes_of(v)).is_prefix_of(s)
                                && json_bytes_of(v).len() <= u32::MAX && json_within_depth(
                                v,
                            ) implies value == v && consumed == 4 + json_bytes_of(v).len() by {
                            lemma_prefix_frame_header(s, json_bytes_of(v));
                        }
                    }
                    Ok((value, consumed))
                },
                Err(parse_error) => {
                    proof {
                        assert forall|v: serde_json::Value|
                            #[trigger] frame_bytes(json_bytes_of(v)).is_prefix_of(s)
                                && json_bytes_of(v).len() <= u32::MAX && json_within_depth(
                                v,
                            ) implies false by {
                            lemma_prefix_frame_header(s, json_bytes_of(v));
                        }
                    }
                    let detail = json_error_text(&parse_error);
                    Err(Fault::InvalidJson { detail })
                },
            }
        },
    }
}

/// Where a whole frame carrying `payload` sits at the front of `s`, the
/// length field of `s` reads back as `payload`'s length and the bytes
/// after it are `payload` itself.
proof fn lemma_prefix_frame_header(s: Seq<u8>, payload: Seq<u8>)
    requires
        frame_bytes(payload).is_prefix_of(s),
        payload.len() <= u32::MAX,
    ensures
        s.len() >= 4 + payload.len(),
        spec_u32_from_le_bytes(s.subrange(0, 4)) == payload.len(),
        s.subrange(4, 4 + payload.len() as int) == payload,
{
    crate::frame::lemma_frame_layout(payload);
    let f = frame_bytes(payload);
    assert(s.subrange(0, 4) =~= f.subrange(0, 4));
    assert(s.subrange(4, 4 + payload.len() as int) =~= f.subrange(4, f.len() as int));
}

} // verus!
