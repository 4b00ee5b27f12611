//! Where the head of a request ends in what was read from a connection.

use vstd::prelude::*;
use vstd::string::StringSliceAdditionalSpecFns;
use vstd::utf8::{decode_utf8, encode_utf8_decode_utf8, valid_utf8};
use crate::message::Response;
use crate::response::{bare, error_response, BAD_REQUEST};

verus! {

/// The four bytes that end the head of a request: CR LF CR LF.
pub open spec fn terminator() -> Seq<u8> {
    seq![13u8, 10u8, 13u8, 10u8]
}

/// Whether `buffer` ends with the terminator.
pub open spec fn ends_head(buffer: Seq<u8>) -> bool {
    buffer.len() >= 4 && buffer.subrange(buffer.len() - 4, buffer.len() as int) == terminator()
}

/// How far the reading of a request's head has come.
#[derive(Debug, Clone, Copy, PartialEq, Eq, Structural)]
pub enum Framing {
    /// The head has not ended: read on.
    More,
    /// The buffer ends with the terminator: the head is whole.
    Complete,
    /// The peer closed the connection before the head ended.
    Closed,
}

/// The state after a read that appended `read` bytes to `buffer`.
pub open spec fn framing_after(buffer: Seq<u8>, read: int) -> Framing {
    if read == 0 {
        Framing::Closed
    } else if ends_head(buffer) {
        Framing::Complete
    } else {
        Framing::More
    }
}

/// Whether `buffer` ends with CR LF CR LF.
pub fn ends_with_terminator(buffer: &[u8]) -> (ends: bool)
    ensures
        ends == ends_head(buffer@),
{
    let n: usize = buffer.len();
    if n < 4 {
        return false;
    }
    let ends = buffer[n - 4] == 13 && buffer[n - 3] == 10 && buffer[n - 2] == 13 && buffer[n - 1]
        == 10;
    proof {
        let tail = buffer@.subrange(n - 4, n as int);
        if ends {
            assert(tail =~= terminator());
        } else {
            assert(tail[0] == buffer@[n - 4] && tail[1] == buffer@[n - 3] && tail[2] == buffer@[n
                - 2] && tail[3] == buffer@[n - 1]);
        }
    }
    ends
}

/// Says, after a read that appended `read` bytes to `buffer`, whether the
/// head is whole, whether the peer has closed, or whether to read on.
pub fn frame_step(buffer: &[u8], read: usize) -> (framing: Framing)
    ensures
        framing == framing_after(buffer@, read as int),
{
    if read == 0 {
        Framing::Closed
    } else if ends_with_terminator(buffer) {
        Framing::Complete
    } else {
        Framing::More
    }
}

/// `core::str::from_utf8` hands the bytes out as text where they are
/// well-formed UTF-8, and gives nothing where they are not.
#[verifier::external_body]
fn text_of_utf8(bytes: &[u8]) -> (text: Option<&str>)
    ensures
        text is Some <==> valid_utf8(bytes@),
        text matches Some(s) ==> s.spec_bytes() == bytes@,
{
    core::str::from_utf8(bytes).ok()
}

/// What the head of a request is read as: the text that `buffer` encodes,
/// where it ends with the terminator and is well-formed UTF-8.
pub open spec fn head_text(buffer: Seq<u8>) -> Option<Seq<char>> {
    if ends_head(buffer) && valid_utf8(buffer) {
        Some(decode_utf8(buffer))
    } else {
        None
    }
}

/// The text of a request's head, or the response that turns the request
/// away: status 400 where the buffer does not end with the terminator, as
/// after the peer has closed before the head was whole, and where its
/// bytes are not well-formed UTF-8.
pub fn accept_head(buffer: &[u8]) -> (head: Result<String, Response>)
    ensures
        match head {
            Ok(text) => head_text(buffer@) == Some(text@),
            Err(response) => head_text(buffer@) is None && response@ == bare(BAD_REQUEST),
        },
{
    if !ends_with_terminator(buffer) {
        return Err(error_response(BAD_REQUEST));
    }
    match text_of_utf8(buffer) {
        Some(text) => {
            proof {
                encode_utf8_decode_utf8(text@);
            }
            Ok(text.to_owned())
        },
        None => Err(error_response(BAD_REQUEST)),
    }
}

} // verus!
