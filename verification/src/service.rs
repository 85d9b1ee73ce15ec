//! Decisions of the preview service that do not need its database, timer or
//! sockets: the HTTP status that answers a failed request, and the framing
//! of rendered frames sent to a client.

use vstd::prelude::*;
use crate::text::{contains_str, has_substring};

verus! {

/// HTTP 400 Bad Request.
pub const BAD_REQUEST: u16 = 400;

/// HTTP 404 Not Found.
pub const NOT_FOUND: u16 = 404;

/// HTTP 500 Internal Server Error.
pub const INTERNAL_SERVER_ERROR: u16 = 500;

/// The status answering a failure to load a project: not found when the
/// database found no row, an internal error otherwise.
pub open spec fn load_error_status_spec(msg: Seq<char>) -> u16 {
    if has_substring(msg, "QueryReturnedNoRows"@) || has_substring(msg, "Query returned no rows"@) {
        NOT_FOUND
    } else {
        INTERNAL_SERVER_ERROR
    }
}

/// Decide the status answering a failure to load a project, from the
/// failure's message.
pub fn load_error_status(msg: &str) -> (s: u16)
    ensures
        s == load_error_status_spec(msg@),
{
    if contains_str(msg, "QueryReturnedNoRows") || contains_str(msg, "Query returned no rows") {
        NOT_FOUND
    } else {
        INTERNAL_SERVER_ERROR
    }
}

/// The status answering a rejected edit: not found when the project or the
/// layer does not exist, a bad request otherwise.
pub open spec fn mutation_error_status_spec(msg: Seq<char>) -> u16 {
    if has_substring(msg, "Project not found"@) || has_substring(msg, "Layer not found"@) {
        NOT_FOUND
    } else {
        BAD_REQUEST
    }
}

/// Decide the status answering a rejected edit, from the rejection's
/// message.
pub fn mutation_error_status(msg: &str) -> (s: u16)
    ensures
        s == mutation_error_status_spec(msg@),
{
    if contains_str(msg, "Project not found") || contains_str(msg, "Layer not found") {
        NOT_FOUND
    } else {
        BAD_REQUEST
    }
}

/// The four bytes of `n`, most significant first.
pub open spec fn be_bytes(n: u32) -> Seq<u8> {
    seq![(n / 0x100_0000) as u8, ((n / 0x1_0000) % 0x100) as u8, ((n / 0x100) % 0x100) as u8, (n % 0x100) as u8]
}

/// The number that four bytes spell, most significant first.
pub open spec fn be_value(b: Seq<u8>) -> int {
    b[0] * 0x100_0000 + b[1] * 0x1_0000 + b[2] * 0x100 + b[3]
}

/// A client that reads the first four bytes of a frame message as a
/// big-endian number gets the frame number back, and the rest of the message
/// is the encoded image unchanged.
pub proof fn lemma_frame_number_round_trip(frame: u32, data: Seq<u8>)
    ensures
        be_value((be_bytes(frame) + data).take(4)) == frame,
        (be_bytes(frame) + data).skip(4) == data,
{
    let m = be_bytes(frame) + data;
    assert(m.skip(4) =~= data);
    assert((frame / 0x100_0000) as u8 as int * 0x100_0000 + ((frame / 0x1_0000) % 0x100) as u8 as int
        * 0x1_0000 + ((frame / 0x100) % 0x100) as u8 as int * 0x100 + (frame % 0x100) as u8 as int
        == frame) by (bit_vector);
}

/// A rendered frame on its way to a client: its number and its encoded
/// image.
#[derive(Clone, Debug)]
pub struct FramePackage {
    pub frame: u32,
    pub data: Vec<u8>,
}

impl FramePackage {
    /// The message that carries this frame to a client.
    pub fn payload(&self) -> (p: Vec<u8>)
        ensures
            p@ == be_bytes(self.frame) + self.data@,
    {
        frame_payload(self.frame, self.data.as_slice())
    }
}

/// The message carrying a rendered frame to a client: the frame number in
/// four bytes, most significant first, followed by the encoded image.
pub fn frame_payload(frame: u32, data: &[u8]) -> (payload: Vec<u8>)
    ensures
        payload@ == be_bytes(frame) + data@,
{
    let mut payload: Vec<u8> = Vec::new();
    payload.push((frame / 0x100_0000) as u8);
    payload.push(((frame / 0x1_0000) % 0x100) as u8);
    payload.push(((frame / 0x100) % 0x100) as u8);
    payload.push((frame % 0x100) as u8);
    let mut i: usize = 0;
    while i < data.len()
        invariant
            i <= data@.len(),
            payload@ == be_bytes(frame) + data@.take(i as int),
        decreases data@.len() - i,
    {
        payload.push(data[i]);
        assert(data@.take(i + 1) =~= data@.take(i as int).push(data@[i as int]));
        assert(payload@ =~= be_bytes(frame) + data@.take(i + 1));
        i = i + 1;
    }
    assert(data@.take(data@.len() as int) =~= data@);
    payload
}

} // verus!
