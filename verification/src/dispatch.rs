//! The callback contract and the dispatch loop.
//!
//! The loop is strictly sequential: decode one message, hand it to the
//! callback, encode the outcome, append it to the output — and repeat
//! until the input is exhausted.  A malformed frame does not end the
//! loop: it is answered with an error outcome and the next frame is
//! processed ("degrade, don't die").  Only a failure on the sending side
//! — an outcome over the size ceiling — is unrecoverable, because there
//! is no longer a channel to report it through.

use vstd::bytes::spec_u32_from_le_bytes;
use vstd::prelude::*;

use crate::codec::send_message;
use crate::errors::invalid_json_text;
use crate::errors::Fault;
use crate::frame::frame_bytes;
use crate::frame::frame_count;
use crate::frame::is_frame_stream;
use crate::frame::lemma_frame_stream_snoc;
use crate::frame::read_frame;
use crate::frame::MAX_MESSAGE_SIZE;
use crate::json::error_doc;
use crate::json::error_value;
use crate::json::json_bytes_of;
use crate::json::json_canon;
use crate::json::json_error_text;
use crate::json::json_parsable;
use crate::json::json_parse_error_text;
use crate::json::parse_json;

verus! {

/// The one operation the loop depends on: map a decoded message to
/// either a success value, encoded as-is, or a failure text, reported to
/// the peer as an error outcome.  Implemented by the application,
/// outside this crate.
///
/// [`Callback::allows`] is the implementation's own contract: which
/// replies its `call` may return for a message.  The dispatch loop hands
/// every outcome back through it, so what the loop writes for a parsable
/// frame is pinned exactly as tightly as the implementation's `allows`
/// pins its replies.  Implementations are written outside the verified
/// library, so nothing here checks them against it; an implementation
/// that promises more than its `call` keeps weakens only what is proved
/// about its own sessions.
pub trait Callback {
    /// Which replies this callback may return for `message`.
    spec fn allows(&self, message: serde_json::Value, reply: Result<serde_json::Value, String>) -> bool;

    /// Handle one decoded message.
    fn call(&self, message: serde_json::Value) -> (r: Result<serde_json::Value, String>)
        ensures
            self.allows(message, r),
    ;
}

/// How many outcomes the protocol owes for the input `s`: none for a
/// cleanly exhausted (empty) input; one for each complete frame at the
/// front; and one for a truncated remainder, which is answered with an
/// error outcome before the loop ends.
pub open spec fn outcomes_owed(s: Seq<u8>) -> nat
    decreases s.len(),
{
    if s.len() == 0 {
        0
    } else if s.len() < 4 {
        1
    } else {
        let n = spec_u32_from_le_bytes(s.subrange(0, 4)) as int;
        if s.len() < 4 + n {
            1
        } else {
            1 + outcomes_owed(s.skip(4 + n))
        }
    }
}

/// Holds where no frame of `s` ever reaches the callback: every owed
/// outcome — for a truncated remainder or an unparsable payload — is one
/// of the library's own error documents, which are bounded well under
/// the ceiling, so the loop owes success outright on such input.
pub open spec fn library_decides(s: Seq<u8>) -> bool
    decreases s.len(),
{
    if s.len() == 0 {
        true
    } else if s.len() < 4 {
        true
    } else {
        let n = spec_u32_from_le_bytes(s.subrange(0, 4)) as int;
        if s.len() < 4 + n {
            true
        } else {
            !json_parsable(s.subrange(4, 4 + n)) && library_decides(s.skip(4 + n))
        }
    }
}

/// The byte stream carrying the outcome documents `docs`, one frame each,
/// in order.
pub open spec fn concat_frames(docs: Seq<Seq<u8>>) -> Seq<u8>
    decreases docs.len(),
{
    if docs.len() == 0 {
        Seq::empty()
    } else {
        frame_bytes(docs[0]) + concat_frames(docs.skip(1))
    }
}

/// What stands as the outcome document answering one complete frame with
/// payload `payload`.  For a parsable payload the callback decides: the
/// document is the serialization of a success value, or the error
/// document of a failure text, in either case a reply its `allows`
/// admits for the decoded message.  For an unparsable payload the
/// document is exactly the error document quoting the parser's
/// description.
pub open spec fn answers_frame<C: Callback>(callback: &C, payload: Seq<u8>, doc: Seq<u8>) -> bool {
    if json_parsable(payload) {
        exists|message: serde_json::Value, reply: Result<serde_json::Value, String>|
            {
                &&& #[trigger] callback.allows(message, reply)
                &&& json_bytes_of(message) == json_canon(payload)
                &&& (match reply {
                    Ok(success) => doc == json_bytes_of(success),
                    Err(text) => doc == error_doc(text@),
                })
            }
    } else {
        doc == error_doc(invalid_json_text(json_parse_error_text(payload)))
    }
}

/// The outcome documents `docs` answer the input, one per owed outcome
/// and in input order: for each complete frame of the input a document
/// as [`answers_frame`] fixes it, and for a truncated remainder exactly
/// the error document reporting the truncation.
pub open spec fn docs_answer_input<C: Callback>(
    callback: &C,
    input: Seq<u8>,
    docs: Seq<Seq<u8>>,
) -> bool
    decreases input.len(),
{
    if input.len() == 0 {
        docs.len() == 0
    } else if input.len() < 4 {
        docs.len() == 1 && docs[0] == error_doc(Fault::TruncatedFrame.spec_describe())
    } else {
        let n = spec_u32_from_le_bytes(input.subrange(0, 4)) as int;
        if input.len() < 4 + n {
            docs.len() == 1 && docs[0] == error_doc(Fault::TruncatedFrame.spec_describe())
        } else {
            docs.len() >= 1 && answers_frame(callback, input.subrange(4, 4 + n), docs[0])
                && docs_answer_input(callback, input.skip(4 + n), docs.skip(1))
        }
    }
}

/// Law: the frame stream carrying one more document holds one more frame.
proof fn lemma_concat_frames_snoc(docs: Seq<Seq<u8>>, doc: Seq<u8>)
    ensures
        concat_frames(docs.push(doc)) == concat_frames(docs) + frame_bytes(doc),
    decreases docs.len(),
{
    if docs.len() == 0 {
        assert(docs.push(doc)[0] == doc);
        assert(docs.push(doc).skip(1) =~= Seq::<Seq<u8>>::empty());
        assert(concat_frames(Seq::<Seq<u8>>::empty()) =~= Seq::<u8>::empty());
        assert(concat_frames(docs.push(doc)) =~= frame_bytes(doc));
        assert(concat_frames(docs.push(doc)) =~= concat_frames(docs) + frame_bytes(doc));
    } else {
        assert(docs.push(doc)[0] == docs[0]);
        assert(docs.push(doc).skip(1) =~= docs.skip(1).push(doc));
        lemma_concat_frames_snoc(docs.skip(1), doc);
        assert(concat_frames(docs.push(doc)) =~= concat_frames(docs) + frame_bytes(doc));
    }
}

/// Run the dispatch cycle over buffered input: decode a frame, invoke the
/// callback, append the encoded outcome to the output, until the input is
/// exhausted.
///
/// Every frame of the input draws exactly one outcome: the callback's
/// success value, or an error outcome carrying the callback's failure
/// text, or an error outcome describing why the frame could not be
/// decoded.  Clean exhaustion ends the loop quietly; a truncated final
/// frame is answered with an error outcome first.  The one fatal
/// condition is an outcome over the size ceiling: the loop stops and
/// hands that fault back, since nothing legal can be sent in its place.
///
/// The contract: on success the output is a well-formed frame stream
/// carrying, in input order, one outcome document per outcome owed, each
/// as [`docs_answer_input`] fixes it — the exact decode-fault document
/// for a truncated remainder or an unparsable payload, and a reply the
/// callback's own contract admits for a parsable frame.  An empty input
/// yields an empty output.  A returned fault is always of the oversize
/// kind and names a size over the ceiling; and where no frame of the
/// input reaches the callback ([`library_decides`]), every outcome is a
/// bounded error document, so success is owed outright.
pub fn event_loop<C: Callback>(input: &Vec<u8>, callback: &C) -> (r: Result<Vec<u8>, Fault>)
    ensures
        r is Ok ==> is_frame_stream(r->Ok_0@),
        r is Ok ==> frame_count(r->Ok_0@) == outcomes_owed(input@),
        r is Ok ==> exists|docs: Seq<Seq<u8>>|
            #[trigger] docs_answer_input(callback, input@, docs) && r->Ok_0@ == concat_frames(
                docs,
            ),
        input@.len() == 0 ==> r is Ok && r->Ok_0@.len() == 0,
        library_decides(input@) ==> r is Ok,
        r is Err ==> (r->Err_0 matches Fault::MessageTooLarge { size } && size
            > MAX_MESSAGE_SIZE),
{
    let mut pos: usize = 0;
    let mut out: Vec<u8> = Vec::new();
    let total: usize = input.len();
    let ghost mut docs: Seq<Seq<u8>> = Seq::empty();
    proof {
        assert(input@.skip(0) =~= input@);
        assert forall|rest: Seq<Seq<u8>>| #[trigger] docs_answer_input(
            callback,
            input@.skip(0),
            rest,
        ) implies docs_answer_input(callback, input@, docs + rest) by {
            assert(docs + rest =~= rest);
        }
    }
    loop
        invariant
            pos <= input@.len(),
            total == input@.len(),
            is_frame_stream(out@),
            frame_count(out@) + outcomes_owed(input@.skip(pos as int)) == outcomes_owed(input@),
            library_decides(input@) ==> library_decides(input@.skip(pos as int)),
            out@ == concat_frames(docs),
            forall|rest: Seq<Seq<u8>>|
                #[trigger] docs_answer_input(callback, input@.skip(pos as int), rest)
                    ==> docs_answer_input(callback, input@, docs + rest),
            input@.len() == 0 ==> out@.len() == 0,
        decreases input@.len() - pos,
    {
        match read_frame(input, pos) {
            Err(fault) => {
                match fault {
                    Fault::NoMoreInput => {
                        proof {
                            assert(outcomes_owed(input@.skip(pos as int)) == 0);
                            assert(docs_answer_input(
                                callback,
                                input@.skip(pos as int),
                                Seq::<Seq<u8>>::empty(),
                            ));
                            assert(docs + Seq::<Seq<u8>>::empty() =~= docs);
                        }
                        return Ok(out);
                    },
                    other_fault => {
                        // The input died mid-frame: no further frame can
                        // follow, so report the fault and let the next
                        // round observe exhaustion.
                        proof {
                            assert(other_fault == Fault::TruncatedFrame);
                            assert(outcomes_owed(input@.skip(pos as int)) == 1);
                            assert(input@.skip(total as int) =~= Seq::<u8>::empty());
                            assert(outcomes_owed(input@.skip(total as int)) == 0);
                        }
                        let reply = error_value(&other_fault.describe());
                        match send_message(&reply) {
                            Ok(mut frame) => {
                                proof {
                                    let doc = json_bytes_of(reply);
                                    lemma_frame_stream_snoc(out@, doc);
                                    lemma_concat_frames_snoc(docs, doc);
                                    assert(docs_answer_input(
                                        callback,
                                        input@.skip(pos as int),
                                        seq![doc],
                                    ));
                                    assert(docs + seq![doc] =~= docs.push(doc));
                                    assert(docs_answer_input(callback, input@, docs.push(doc)));
                                    assert forall|rest: Seq<Seq<u8>>| #[trigger] docs_answer_input(
                                        callback,
                                        input@.skip(total as int),
                                        rest,
                                    ) implies docs_answer_input(
                                        callback,
                                        input@,
                                        docs.push(doc) + rest,
                                    ) by {
                                        assert(rest =~= Seq::<Seq<u8>>::empty());
                                        assert(docs.push(doc) + rest =~= docs.push(doc));
                                    }
                                    docs = docs.push(doc);
                                }
                                out.append(&mut frame);
                            },
                            Err(send_fault) => {
                                // Unreachable: the truncation document is
                                // bounded far under the ceiling.
                                proof {
                                    reveal_strlit("input stream ended in the middle of a frame");
                                    assert(Fault::TruncatedFrame.spec_describe().len() == 43);
                                    assert(json_bytes_of(reply).len() <= 12 + 6 * 43);
                                    assert(false);
                                }
                                return Err(send_fault);
                            },
                        }
                        pos = total;
                    },
                }
            },
            Ok((payload, consumed)) => {
                let ghost old_pos = pos;
                proof {
                    let s = input@.skip(pos as int);
                    assert(s.skip(consumed as int) =~= input@.skip(pos + consumed));
                    assert(outcomes_owed(s) == 1 + outcomes_owed(s.skip(consumed as int)));
                    if library_decides(input@) {
                        assert(library_decides(s));
                        assert(!json_parsable(payload@));
                        assert(library_decides(input@.skip(pos + consumed)));
                    }
                }
                pos = pos + consumed;
                let reply = match parse_json(&payload) {
                    Ok(message) => {
                        let ghost msg = message;
                        match callback.call(message) {
                            Ok(success) => {
                                proof {
                                    assert(callback.allows(
                                        msg,
                                        Result::<serde_json::Value, String>::Ok(success),
                                    ));
                                    assert(answers_frame(
                                        callback,
                                        payload@,
                                        json_bytes_of(success),
                                    ));
                                }
                                success
                            },
                            Err(failure_text) => {
                                let error_reply = error_value(&failure_text);
                                proof {
                                    assert(callback.allows(
                                        msg,
                                        Result::<serde_json::Value, String>::Err(failure_text),
                                    ));
                                    assert(answers_frame(
                                        callback,
                                        payload@,
                                        json_bytes_of(error_reply),
                                    ));
                                }
                                error_reply
                            },
                        }
                    },
                    Err(parse_error) => {
                        let fault = Fault::InvalidJson { detail: json_error_text(&parse_error) };
                        let error_reply = error_value(&fault.describe());
                        proof {
                            reveal_strlit("frame payload is not valid JSON: ");
                            assert(answers_frame(callback, payload@, json_bytes_of(error_reply)));
                            assert(json_bytes_of(error_reply).len() <= 12 + 6 * (33 + 128));
                        }
                        error_reply
                    },
                };
                match send_message(&reply) {
                    Ok(mut frame) => {
                        proof {
                            let doc = json_bytes_of(reply);
                            lemma_frame_stream_snoc(out@, doc);
                            lemma_concat_frames_snoc(docs, doc);
                            assert forall|rest: Seq<Seq<u8>>| #[trigger] docs_answer_input(
                                callback,
                                input@.skip(pos as int),
                                rest,
                            ) implies docs_answer_input(callback, input@, docs.push(doc) + rest) by {
                                let with_head = rest.insert(0, doc);
                                assert(with_head.skip(1) =~= rest);
                                assert(with_head[0] == doc);
                                let s = input@.skip(old_pos as int);
                                assert(s.skip(consumed as int) =~= input@.skip(pos as int));
                                assert(docs_answer_input(callback, s, with_head));
                                assert(docs + with_head =~= docs.push(doc) + rest);
                            }
                            docs = docs.push(doc);
                        }
                        out.append(&mut frame);
                    },
                    Err(send_fault) => {
                        proof {
                            if library_decides(input@) {
                                // The payload was unparsable, so the reply
                                // is the bounded decode-fault document and
                                // sending it cannot have failed.
                                assert(json_bytes_of(reply).len() <= MAX_MESSAGE_SIZE);
                                assert(false);
                            }
                        }
                        return Err(send_fault);
                    },
                }
            },
        }
    }
}

} // verus!
