//! The byte-level frame codec.
//!
//! A frame is a 4-byte length, an unsigned 32-bit integer in little-endian
//! byte order, followed by exactly that many payload bytes.  The byte
//! order is a deliberate, fixed choice of this implementation: both sides
//! of the connection must agree on it, so it is pinned here rather than
//! inherited from the host machine.
//!
//! This module knows nothing about JSON: it turns payload byte strings
//! into framed byte strings and back, and is verified down to the bytes.

use vstd::bytes::*;
use vstd::prelude::*;
use vstd::slice::slice_subrange;

use crate::errors::Fault;

verus! {

/// The hard ceiling the host imposes on one outgoing message: one mebibyte.
pub const MAX_MESSAGE_SIZE: usize = 1048576;

/// The wire form of a frame carrying `payload`: the payload's length as
/// four little-endian bytes, then the payload itself.
pub open spec fn frame_bytes(payload: Seq<u8>) -> Seq<u8>
    recommends
        payload.len() <= u32::MAX,
{
    spec_u32_to_le_bytes(payload.len() as u32) + payload
}

/// A byte string that is a concatenation of zero or more well-formed
/// frames, each with a payload of at most [`MAX_MESSAGE_SIZE`] bytes.
/// Everything the dispatch loop emits satisfies this.
pub open spec fn is_frame_stream(b: Seq<u8>) -> bool
    decreases b.len(),
{
    if b.len() == 0 {
        true
    } else if b.len() < 4 {
        false
    } else {
        let n = spec_u32_from_le_bytes(b.subrange(0, 4)) as int;
        if n <= MAX_MESSAGE_SIZE && 4 + n <= b.len() {
            is_frame_stream(b.skip(4 + n))
        } else {
            false
        }
    }
}

/// How many whole frames sit at the front of `b`: zero for too few bytes
/// to hold a length field, and one more for each complete frame.  On a
/// well-formed frame stream this is exactly the number of frames.
pub open spec fn frame_count(b: Seq<u8>) -> nat
    decreases b.len(),
{
    if b.len() < 4 {
        0
    } else {
        let n = spec_u32_from_le_bytes(b.subrange(0, 4)) as int;
        if 4 + n <= b.len() {
            1 + frame_count(b.skip(4 + n))
        } else {
            0
        }
    }
}

/// Law: the length field of every encoded frame, read back in the same
/// byte order it was written in, equals the exact byte length of the
/// payload that follows it, and the bytes after the length field are that
/// payload, unchanged.  Decoding what [`write_frame`] encodes therefore
/// recovers the payload exactly.
pub proof fn lemma_frame_layout(payload: Seq<u8>)
    requires
        payload.len() <= u32::MAX,
    ensures
        frame_bytes(payload).len() == 4 + payload.len(),
        frame_bytes(payload).subrange(0, 4) == spec_u32_to_le_bytes(payload.len() as u32),
        spec_u32_from_le_bytes(frame_bytes(payload).subrange(0, 4)) == payload.len(),
        frame_bytes(payload).subrange(4, frame_bytes(payload).len() as int) == payload,
{
    lemma_auto_spec_u32_to_from_le_bytes();
    assert(frame_bytes(payload).subrange(0, 4) =~= spec_u32_to_le_bytes(payload.len() as u32));
    assert(frame_bytes(payload).subrange(4, frame_bytes(payload).len() as int) =~= payload);
}

/// Law: appending one more well-formed frame to a well-formed frame
/// stream yields a well-formed frame stream holding exactly one more
/// frame.  This is the invariant by which the dispatch loop's whole
/// output is a legal frame stream with one outcome per request.
pub proof fn lemma_frame_stream_snoc(stream: Seq<u8>, payload: Seq<u8>)
    requires
        is_frame_stream(stream),
        payload.len() <= MAX_MESSAGE_SIZE,
    ensures
        is_frame_stream(stream + frame_bytes(payload)),
        frame_count(stream + frame_bytes(payload)) == frame_count(stream) + 1,
    decreases stream.len(),
{
    lemma_auto_spec_u32_to_from_le_bytes();
    let whole = stream + frame_bytes(payload);
    if stream.len() == 0 {
        assert(whole =~= frame_bytes(payload));
        lemma_frame_layout(payload);
        let n = spec_u32_from_le_bytes(whole.subrange(0, 4)) as int;
        assert(n == payload.len());
        assert(whole.skip(4 + n) =~= Seq::<u8>::empty());
        assert(is_frame_stream(whole.skip(4 + n)));
        assert(is_frame_stream(whole));
        assert(frame_count(whole.skip(4 + n)) == 0);
        assert(frame_count(stream) == 0);
    } else {
        assert(stream.len() >= 4);
        let n = spec_u32_from_le_bytes(stream.subrange(0, 4)) as int;
        assert(n <= MAX_MESSAGE_SIZE && 4 + n <= stream.len());
        assert(whole.subrange(0, 4) =~= stream.subrange(0, 4));
        assert(whole.skip(4 + n) =~= stream.skip(4 + n) + frame_bytes(payload));
        lemma_frame_stream_snoc(stream.skip(4 + n), payload);
        assert(is_frame_stream(whole));
        assert(frame_count(whole) == 1 + frame_count(whole.skip(4 + n)));
        assert(frame_count(stream) == 1 + frame_count(stream.skip(4 + n)));
    }
}

/// Encode one frame: the payload's length as four little-endian bytes,
/// then the payload.  Fails, writing nothing, if and only if the payload
/// exceeds [`MAX_MESSAGE_SIZE`] bytes.
pub fn write_frame(payload: &Vec<u8>) -> (r: Result<Vec<u8>, Fault>)
    ensures
        r is Ok <==> payload@.len() <= MAX_MESSAGE_SIZE,
        r is Ok ==> r->Ok_0@ == frame_bytes(payload@),
        payload@.len() > MAX_MESSAGE_SIZE ==> r == Err::<Vec<u8>, Fault>(
            (Fault::MessageTooLarge { size: payload@.len() as usize }),
        ),
{
    if payload.len() > MAX_MESSAGE_SIZE {
        return Err(Fault::MessageTooLarge { size: payload.len() });
    }
    let mut out = u32_to_le_bytes(payload.len() as u32);
    let mut i: usize = 0;
    while i < payload.len()
        invariant
            i <= payload@.len() <= MAX_MESSAGE_SIZE,
            out@ == spec_u32_to_le_bytes(payload@.len() as u32) + payload@.subrange(0, i as int),
        decreases payload@.len() - i,
    {
        out.push(payload[i]);
        proof {
            assert(out@ =~= spec_u32_to_le_bytes(payload@.len() as u32) + payload@.subrange(
                0,
                i + 1,
            ));
        }
        i = i + 1;
    }
    proof {
        assert(out@ =~= frame_bytes(payload@));
    }
    Ok(out)
}

/// Decode one frame from `input`, starting at offset `start`.
///
/// Distinguishes clean exhaustion from truncation: no bytes at all left
/// means the peer closed the stream ([`Fault::NoMoreInput`]); an
/// incomplete length field or an incomplete payload means the stream died
/// mid-frame ([`Fault::TruncatedFrame`]).  On success returns the payload
/// bytes and the number of bytes consumed.
pub fn read_frame(input: &Vec<u8>, start: usize) -> (r: Result<(Vec<u8>, usize), Fault>)
    requires
        start <= input@.len(),
    ensures
        ({
            let s = input@.skip(start as int);
            &&& (r == Err::<(Vec<u8>, usize), Fault>(Fault::NoMoreInput) <==> s.len() == 0)
            &&& (0 < s.len() < 4 ==> r == Err::<(Vec<u8>, usize), Fault>(Fault::TruncatedFrame))
            &&& (s.len() >= 4 ==> ({
                let n = spec_u32_from_le_bytes(s.subrange(0, 4)) as int;
                &&& (s.len() < 4 + n ==> r == Err::<(Vec<u8>, usize), Fault>(
                    Fault::TruncatedFrame,
                ))
                &&& (s.len() >= 4 + n ==> {
                    &&& r is Ok
                    &&& r->Ok_0.0@ == s.subrange(4, 4 + n)
                    &&& r->Ok_0.1 == 4 + n
                })
            }))
        }),
{
    let ghost s = input@.skip(start as int);
    let avail: usize = input.len() - start;
    if avail == 0 {
        return Err(Fault::NoMoreInput);
    }
    if avail < 4 {
        return Err(Fault::TruncatedFrame);
    }
    let header = slice_subrange(input.as_slice(), start, start + 4);
    proof {
        assert(header@ =~= s.subrange(0, 4));
    }
    let length_u32 = u32_from_le_bytes(header);
    let length = length_u32 as usize;
    if avail - 4 < length {
        return Err(Fault::TruncatedFrame);
    }
    let mut payload: Vec<u8> = Vec::new();
    let mut i: usize = 0;
    while i < length
        invariant
            start + 4 + length <= input@.len(),
            input@.len() <= usize::MAX,
            i <= length,
            s == input@.skip(start as int),
            payload@ == s.subrange(4, 4 + i),
        decreases length - i,
    {
        payload.push(input[start + 4 + i]);
        proof {
            assert(payload@ =~= s.subrange(4, 4 + (i + 1)));
        }
        i = i + 1;
    }
    Ok((payload, 4 + length))
}

} // verus!
