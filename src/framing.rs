use vstd::prelude::*;
use vstd::bytes::{
    lemma_auto_spec_u64_to_from_le_bytes,
    spec_u64_from_le_bytes,
    spec_u64_to_le_bytes,
    u64_from_le_bytes,
    u64_to_le_bytes,
};

use crate::config::SIZE_CEILING;
use crate::error::ProtocolError;

verus! {

/// Bytes in the header that opens a transfer stream.
pub const HEADER_LEN: usize = 8;

/// The payload length a stream declares in its first eight bytes, read as a
/// little-endian unsigned integer.
pub open spec fn declared_len(stream: Seq<u8>) -> u64
    recommends
        stream.len() >= HEADER_LEN,
{
    spec_u64_from_le_bytes(stream.take(HEADER_LEN as int))
}

/// How far a transfer stream has come, judged from the bytes received so far.
#[derive(Debug, Clone, Copy, PartialEq, Eq, Structural)]
pub enum FrameState {
    /// Fewer than eight bytes have arrived.
    AwaitingHeader,
    /// The header declares more than the size ceiling.
    Rejected,
    /// The header is accepted and part of the payload is still owed.
    Copying,
    /// The header and every declared payload byte have arrived.
    Complete,
}

pub open spec fn frame_state(stream: Seq<u8>) -> FrameState {
    if stream.len() < HEADER_LEN {
        FrameState::AwaitingHeader
    } else if declared_len(stream) > SIZE_CEILING {
        FrameState::Rejected
    } else if stream.len() < HEADER_LEN + declared_len(stream) {
        FrameState::Copying
    } else {
        FrameState::Complete
    }
}

/// The payload bytes that a stream has delivered: those after the header, up
/// to the declared length and no further. A rejected stream delivers none.
pub open spec fn frame_payload(stream: Seq<u8>) -> Seq<u8> {
    if stream.len() < HEADER_LEN || declared_len(stream) > SIZE_CEILING {
        Seq::empty()
    } else if stream.len() < HEADER_LEN + declared_len(stream) {
        stream.subrange(HEADER_LEN as int, stream.len() as int)
    } else {
        stream.subrange(HEADER_LEN as int, HEADER_LEN + declared_len(stream))
    }
}

/// How many more bytes the stream owes before it is complete; none once it is
/// complete or rejected.
pub open spec fn bytes_owed(stream: Seq<u8>) -> nat {
    match frame_state(stream) {
        FrameState::AwaitingHeader => (HEADER_LEN - stream.len()) as nat,
        FrameState::Copying => (HEADER_LEN + declared_len(stream) - stream.len()) as nat,
        _ => 0,
    }
}

/// The header that announces a payload of `len` bytes.
pub fn encode_header(len: u64) -> (header: Vec<u8>)
    ensures
        header@ == spec_u64_to_le_bytes(len),
        header@.len() == HEADER_LEN,
{
    u64_to_le_bytes(len)
}

/// Reads a header and checks the declared length against the size ceiling.
pub fn decode_header(header: &[u8]) -> (r: Result<u64, ProtocolError>)
    requires
        header@.len() == HEADER_LEN,
    ensures
        spec_u64_from_le_bytes(header@) <= SIZE_CEILING <==> r is Ok,
        r matches Ok(len) ==> len == spec_u64_from_le_bytes(header@),
        r matches Err(e) ==> e == (ProtocolError::TooLarge {
            declared: spec_u64_from_le_bytes(header@),
        }),
{
    let declared = u64_from_le_bytes(header);
    if declared > SIZE_CEILING {
        Err(ProtocolError::TooLarge { declared })
    } else {
        Ok(declared)
    }
}

/// A stream made of the header for a payload of at most the ceiling, the
/// payload, and anything after it, is complete and delivers exactly that
/// payload: what follows is not read as another frame.
pub proof fn lemma_transfer_fidelity(payload: Seq<u8>, trailing: Seq<u8>)
    requires
        payload.len() <= SIZE_CEILING,
    ensures
        frame_state(spec_u64_to_le_bytes(payload.len() as u64) + payload + trailing)
            == FrameState::Complete,
        frame_payload(spec_u64_to_le_bytes(payload.len() as u64) + payload + trailing)
            == payload,
{
    lemma_auto_spec_u64_to_from_le_bytes();
    let header = spec_u64_to_le_bytes(payload.len() as u64);
    let stream = header + payload + trailing;
    assert(stream.take(HEADER_LEN as int) =~= header);
    assert(declared_len(stream) == payload.len());
    assert(stream.subrange(HEADER_LEN as int, HEADER_LEN + payload.len()) =~= payload);
}

/// A header that declares more than the ceiling rejects the stream, whatever
/// follows it, and no byte after it is delivered.
pub proof fn lemma_oversize_rejected(header: Seq<u8>, rest: Seq<u8>)
    requires
        header.len() == HEADER_LEN,
        spec_u64_from_le_bytes(header) > SIZE_CEILING,
    ensures
        frame_state(header + rest) == FrameState::Rejected,
        frame_payload(header + rest) == Seq::<u8>::empty(),
{
    assert((header + rest).take(HEADER_LEN as int) =~= header);
}

} // verus!
