//! The closed fault taxonomy of the protocol.
//!
//! Exhaustion of the input stream is a distinguished, non-fatal condition:
//! it means the peer closed the connection cleanly and the dispatch loop
//! should end.  Every other variant is a genuine fault.

use vstd::prelude::*;
use vstd::string::StringExecFns;

verus! {

/// Everything that can go wrong while reading or writing a frame.
#[derive(Debug)]
pub enum Fault {
    /// The input ended cleanly before the first byte of a frame: the peer
    /// closed the connection.  Ends the dispatch loop; not an error.
    NoMoreInput,
    /// The input ended inside a frame: after some but not all of the four
    /// length bytes, or before `length` payload bytes were available.
    TruncatedFrame,
    /// The stream itself failed — a read or write error other than
    /// running out of input.  `detail` carries the stream's description
    /// of the failure.  The buffered codec never produces this; the live
    /// stream plumbing does.
    Io { detail: String },
    /// The frame's payload is not valid JSON text.  `detail` carries the
    /// parser's description of the problem.
    InvalidJson { detail: String },
    /// An outgoing message serializes to more than [`crate::frame::MAX_MESSAGE_SIZE`]
    /// bytes; `size` is the actual serialized length.  Nothing is written.
    MessageTooLarge { size: usize },
}

/// The character of one decimal digit.
pub open spec fn spec_digit(d: nat) -> char {
    if d == 0 {
        '0'
    } else if d == 1 {
        '1'
    } else if d == 2 {
        '2'
    } else if d == 3 {
        '3'
    } else if d == 4 {
        '4'
    } else if d == 5 {
        '5'
    } else if d == 6 {
        '6'
    } else if d == 7 {
        '7'
    } else if d == 8 {
        '8'
    } else {
        '9'
    }
}

/// The decimal numeral of `n`, most significant digit first, without
/// leading zeros (except for `n == 0` itself).
pub open spec fn spec_decimal(n: nat) -> Seq<char>
    decreases n,
{
    if n < 10 {
        seq![spec_digit(n)]
    } else {
        spec_decimal(n / 10).push(spec_digit(n % 10))
    }
}

/// One decimal digit as text.
fn digit_str(d: usize) -> (r: &'static str)
    requires
        d < 10,
    ensures
        r@ == seq![spec_digit(d as nat)],
{
    proof {
        reveal_strlit("0");
        reveal_strlit("1");
        reveal_strlit("2");
        reveal_strlit("3");
        reveal_strlit("4");
        reveal_strlit("5");
        reveal_strlit("6");
        reveal_strlit("7");
        reveal_strlit("8");
        reveal_strlit("9");
    }
    let r = match d {
        0 => "0",
        1 => "1",
        2 => "2",
        3 => "3",
        4 => "4",
        5 => "5",
        6 => "6",
        7 => "7",
        8 => "8",
        _ => "9",
    };
    proof {
        assert(r@ =~= seq![spec_digit(d as nat)]);
    }
    r
}

/// Write `n` in decimal.
pub fn decimal_string(n: usize) -> (r: String)
    ensures
        r@ == spec_decimal(n as nat),
    decreases n,
{
    let last = digit_str(n % 10);
    if n < 10 {
        let r = last.to_owned();
        proof {
            assert(r@ =~= spec_decimal(n as nat));
        }
        r
    } else {
        let mut prefix = decimal_string(n / 10);
        prefix.append(last);
        proof {
            assert(prefix@ =~= spec_decimal(n as nat));
        }
        prefix
    }
}

/// The description text of an [`Fault::InvalidJson`] fault carrying
/// `detail`: what the peer reads in the error outcome for an unparsable
/// payload.
pub open spec fn invalid_json_text(detail: Seq<char>) -> Seq<char> {
    "frame payload is not valid JSON: "@ + detail
}

impl Fault {
    /// The text that [`Fault::describe`] returns for this fault.
    pub open spec fn spec_describe(self) -> Seq<char> {
        match self {
            Fault::NoMoreInput => "input stream exhausted"@,
            Fault::TruncatedFrame => "input stream ended in the middle of a frame"@,
            Fault::Io { detail } => "input stream failed: "@ + detail@,
            Fault::InvalidJson { detail } => invalid_json_text(detail@),
            Fault::MessageTooLarge { size } => "message of "@ + spec_decimal(size as nat)
                + " bytes exceeds the one-mebibyte limit"@,
        }
    }

    /// A human-readable description of the fault, as it is reported to the
    /// peer inside an error outcome.
    pub fn describe(&self) -> (r: String)
        ensures
            r@ == self.spec_describe(),
    {
        match self {
            Fault::NoMoreInput => "input stream exhausted".to_owned(),
            Fault::TruncatedFrame => "input stream ended in the middle of a frame".to_owned(),
            Fault::Io { detail } => {
                let mut text = "input stream failed: ".to_owned();
                text.append(detail.as_str());
                text
            },
            Fault::InvalidJson { detail } => {
                let mut text = "frame payload is not valid JSON: ".to_owned();
                text.append(detail.as_str());
                text
            },
            Fault::MessageTooLarge { size } => {
                let mut text = "message of ".to_owned();
                text.append(decimal_string(*size).as_str());
                text.append(" bytes exceeds the one-mebibyte limit");
                proof {
                    assert(text@ =~= self.spec_describe());
                }
                text
            },
        }
    }
}

} // verus!
