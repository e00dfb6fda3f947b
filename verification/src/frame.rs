//! The wire format of a frame: a four-byte correlation id, lowest byte first,
//! followed by the payload.

use vstd::prelude::*;

verus! {

/// The number of bytes that the correlation id takes at the head of a frame.
pub const PREFIX_LEN: usize = 4;

/// The size of the write grant that a frame has to fit in.
pub const MAX_FRAME: usize = 128;

/// The four bytes that carry `id`, lowest byte first.
pub open spec fn id_bytes(id: u32) -> Seq<u8> {
    seq![
        (id as int % 256) as u8,
        (id as int / 256 % 256) as u8,
        (id as int / 65536 % 256) as u8,
        (id as int / 16777216 % 256) as u8,
    ]
}

/// The id that the first four bytes of `bytes` carry.
pub open spec fn id_of(bytes: Seq<u8>) -> u32
    recommends
        bytes.len() >= 4,
{
    (bytes[0] as int + 256 * (bytes[1] as int) + 65536 * (bytes[2] as int) + 16777216 * (
    bytes[3] as int)) as u32
}

/// The frame that carries `payload` under `id`.
pub open spec fn frame_of(id: u32, payload: Seq<u8>) -> Seq<u8> {
    id_bytes(id) + payload
}

/// The id and the payload of a frame; a frame too short to hold an id has neither.
pub open spec fn parse_frame(frame: Seq<u8>) -> Option<(u32, Seq<u8>)> {
    if frame.len() >= 4 {
        Some((id_of(frame), frame.skip(4)))
    } else {
        None
    }
}

/// What `split_frame` hands out, with the payload as a sequence.
pub open spec fn split_view(out: Option<(u32, &[u8])>) -> Option<(u32, Seq<u8>)> {
    match out {
        Some((id, payload)) => Some((id, payload@)),
        None => None,
    }
}

/// Reading the id back from its four bytes gives the id.
pub proof fn lemma_id_round_trip(id: u32)
    ensures
        id_bytes(id).len() == 4,
        id_of(id_bytes(id)) == id,
{
    let n = id as int;
    assert(n == n % 256 + 256 * (n / 256 % 256) + 65536 * (n / 65536 % 256) + 16777216 * (n
        / 16777216 % 256)) by (nonlinear_arith)
        requires
            0 <= n < 0x1_0000_0000,
    ;
}

/// A frame gives back the id and the payload that it was built from.
pub proof fn lemma_frame_round_trip(id: u32, payload: Seq<u8>)
    ensures
        frame_of(id, payload).len() == 4 + payload.len(),
        parse_frame(frame_of(id, payload)) == Some((id, payload)),
{
    lemma_id_round_trip(id);
    let frame = frame_of(id, payload);
    assert(frame.skip(4) =~= payload);
    assert(frame[0] == id_bytes(id)[0]);
    assert(frame[1] == id_bytes(id)[1]);
    assert(frame[2] == id_bytes(id)[2]);
    assert(frame[3] == id_bytes(id)[3]);
}

/// Builds the frame that carries `payload` under `id`.
pub fn encode_frame(id: u32, payload: &[u8]) -> (frame: Vec<u8>)
    ensures
        frame@ == frame_of(id, payload@),
{
    let mut frame: Vec<u8> = Vec::new();
    frame.push((id % 256) as u8);
    frame.push((id / 256 % 256) as u8);
    frame.push((id / 65536 % 256) as u8);
    frame.push((id / 16777216 % 256) as u8);
    assert(frame@ =~= id_bytes(id));
    frame.extend_from_slice(payload);
    frame
}

/// Splits a frame into its id and its payload. A frame of fewer than four
/// bytes holds no id and gives `None`.
pub fn split_frame(frame: &[u8]) -> (out: Option<(u32, &[u8])>)
    ensures
        split_view(out) == parse_frame(frame@),
{
    if frame.len() < PREFIX_LEN {
        return None;
    }
    let b0: u32 = frame[0] as u32;
    let b1: u32 = frame[1] as u32;
    let b2: u32 = frame[2] as u32;
    let b3: u32 = frame[3] as u32;
    let id: u32 = b0 + 256 * b1 + 65536 * b2 + 16777216 * b3;
    let (_, payload) = frame.split_at(PREFIX_LEN);
    assert(payload@ =~= frame@.skip(4));
    Some((id, payload))
}

} // verus!
