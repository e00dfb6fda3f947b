//! The payload encoding. Bodies travel in postcard's format: a request as a
//! byte string, a reply as a `Result` of a byte string or nothing.

use crate::table::found_view;
use vstd::prelude::*;

verus! {

/// What `postcard::from_bytes` makes of `payload` when it reads a
/// `Result<Vec<u8>, ()>` from it: the reply, or `None` where it turns the
/// payload down. The length of a body is read as a `usize`, so the width of
/// that type is the second argument.
pub uninterp spec fn decoded_reply(payload: Seq<u8>, width: u32) -> Option<Result<Seq<u8>, ()>>;

/// The reply that an inbound payload holds, if it holds one.
pub open spec fn decoded(payload: Seq<u8>) -> Option<Result<Seq<u8>, ()>> {
    decoded_reply(payload, usize::BITS)
}

/// The encoding of a request body of fewer than 128 bytes: one byte that
/// holds its length, then the body.
pub open spec fn request_wire(body: Seq<u8>) -> Seq<u8> {
    seq![body.len() as u8] + body
}

/// `postcard::to_slice` on a byte string and a buffer of `room` bytes. It
/// writes the length as a varint, which below 128 is the one byte that
/// holds the number, and then the bytes; it fails where the buffer is too
/// small for that. The part that it wrote is returned as a vector.
#[verifier::external_body]
pub(crate) fn to_slice(body: &Vec<u8>, room: usize) -> (out: Option<Vec<u8>>)
    requires
        room <= 128,
    ensures
        (out is Some) == (body.len() < room),
        out matches Some(wire) ==> wire@ == request_wire(body@),
{
    let mut buffer = vec![0u8; room];
    postcard::to_slice(body, &mut buffer).ok().map(|used| used.to_vec())
}

/// `postcard::from_bytes` at `Result<Vec<u8>, ()>`; an error becomes `None`.
#[verifier::external_body]
pub(crate) fn from_bytes(payload: &[u8]) -> (out: Option<Result<Vec<u8>, ()>>)
    ensures
        found_view(out) == decoded_reply(payload@, usize::BITS),
{
    postcard::from_bytes::<Result<Vec<u8>, ()>>(payload).ok()
}

} // verus!
