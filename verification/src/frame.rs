//! Length-prefixed frames: every unit on the wire is a 4-byte big-endian
//! length followed by that many payload bytes.
//!
//! A maximum frame size is enforced on both sides, so a peer cannot make
//! the receiver allocate an unbounded buffer by declaring a huge length.

use vstd::prelude::*;
use crate::errors::FrameError;

verus! {

/// Enforced maximum payload length of one frame: 8 MiB.
pub const MAX_FRAME_LEN: u32 = 0x0080_0000;

/// The four big-endian bytes of a 32-bit length.
pub open spec fn be32_of(n: u32) -> Seq<u8> {
    seq![
        ((n >> 24) & 0xff) as u8,
        ((n >> 16) & 0xff) as u8,
        ((n >> 8) & 0xff) as u8,
        (n & 0xff) as u8,
    ]
}

/// The 32-bit value of four big-endian bytes.
pub open spec fn be32_val(s: Seq<u8>) -> u32 {
    (((s[0] as u32) << 24) | ((s[1] as u32) << 16) | ((s[2] as u32) << 8) | (s[3] as u32)) as u32
}

/// The frame that carries `payload`: its big-endian length, then the
/// payload itself.
pub open spec fn frame_of(payload: Seq<u8>) -> Seq<u8> {
    be32_of(payload.len() as u32) + payload
}

/// Reading four big-endian bytes gives back the length they were made
/// from.
pub proof fn lemma_be32_round_trip(n: u32)
    ensures
        be32_val(be32_of(n)) == n,
{
    assert((((((n >> 24) & 0xff) as u8) as u32) << 24) | (((((n >> 16) & 0xff) as u8) as u32)
        << 16) | (((((n >> 8) & 0xff) as u8) as u32) << 8) | ((((n & 0xff) as u8) as u32))
        == n) by (bit_vector);
}

/// Encode one frame: the payload preceded by its 4-byte big-endian length.
/// Payloads over [`MAX_FRAME_LEN`] are refused.
pub fn encode_frame(payload: &[u8]) -> (r: Result<Vec<u8>, FrameError>)
    ensures
        match r {
            Ok(f) => payload@.len() <= MAX_FRAME_LEN && f@ == frame_of(payload@),
            Err(e) => e == FrameError::FrameTooLarge && payload@.len() > MAX_FRAME_LEN,
        },
{
    if payload.len() > MAX_FRAME_LEN as usize {
        return Err(FrameError::FrameTooLarge);
    }
    let n = payload.len() as u32;
    let mut f: Vec<u8> = Vec::new();
    f.push(((n >> 24) & 0xff) as u8);
    f.push(((n >> 16) & 0xff) as u8);
    f.push(((n >> 8) & 0xff) as u8);
    f.push((n & 0xff) as u8);
    f.extend_from_slice(payload);
    assert(f@ =~= frame_of(payload@));
    Ok(f)
}

/// Read the payload length out of a 4-byte frame header, enforcing the
/// maximum frame size.
pub fn parse_frame_len(header: &[u8]) -> (r: Result<u32, FrameError>)
    requires
        header@.len() == 4,
    ensures
        match r {
            Ok(n) => n == be32_val(header@) && n <= MAX_FRAME_LEN,
            Err(e) => e == FrameError::FrameTooLarge && be32_val(header@) > MAX_FRAME_LEN,
        },
{
    let n: u32 = ((header[0] as u32) << 24) | ((header[1] as u32) << 16) | ((header[2] as u32)
        << 8) | (header[3] as u32);
    if n > MAX_FRAME_LEN {
        Err(FrameError::FrameTooLarge)
    } else {
        Ok(n)
    }
}

/// A frame decodes to the payload it was encoded from: the header holds
/// exactly the payload's length, and the rest of the frame is the payload
/// unchanged.
pub proof fn lemma_frame_round_trip(payload: Seq<u8>)
    requires
        payload.len() <= MAX_FRAME_LEN,
    ensures
        frame_of(payload).len() == payload.len() + 4,
        be32_val(frame_of(payload).subrange(0, 4)) == payload.len(),
        frame_of(payload).subrange(4, frame_of(payload).len() as int) == payload,
{
    let f = frame_of(payload);
    assert(f.subrange(0, 4) =~= be32_of(payload.len() as u32));
    lemma_be32_round_trip(payload.len() as u32);
    assert(f.subrange(4, f.len() as int) =~= payload);
}

} // verus!
