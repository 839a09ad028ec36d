//! The frame format of a session: a four-byte big-endian length `L`, then
//! `L` bytes that carry one serialized message. Empty frames and frames over
//! the reader's cap are refused.

use vstd::prelude::*;
use crate::protocol::crypto::{be_bytes, be_value, be_value_of_be_bytes};
use crate::text::owned;

verus! {

/// A cap that is safe for every deployment: 16 MiB.
pub const DEFAULT_MAX_FRAME_LEN: u32 = 0x100_0000;

/// Why a frame is refused.
#[derive(Clone, Copy, Debug, PartialEq, Eq, Structural)]
pub enum FrameError {
    /// The length field is zero.
    Empty,
    /// The length exceeds the cap, or does not fit the length field.
    TooLarge,
}

impl FrameError {
    pub open spec fn spec_message(self) -> Seq<char> {
        match self {
            FrameError::Empty => "empty frame"@,
            FrameError::TooLarge => "frame too large"@,
        }
    }

    /// The error in words.
    pub fn message(&self) -> (s: String)
        ensures
            s@ == self.spec_message(),
    {
        match self {
            FrameError::Empty => owned("empty frame"),
            FrameError::TooLarge => owned("frame too large"),
        }
    }
}

/// The verdict on a length field read from the wire.
pub open spec fn spec_check_length(len: u32, max_len: u32) -> Result<nat, FrameError> {
    if len == 0 {
        Err(FrameError::Empty)
    } else if len > max_len {
        Err(FrameError::TooLarge)
    } else {
        Ok(len as nat)
    }
}

/// The bytes of the frame that carries `payload`.
pub open spec fn framed(payload: Seq<u8>) -> Seq<u8>
    recommends
        payload.len() <= u32::MAX,
{
    be_bytes(payload.len() as u32) + payload
}

/// What a writer puts on the wire for `payload` under the cap `max_len`.
pub open spec fn spec_encode(payload: Seq<u8>, max_len: u32) -> Result<Seq<u8>, FrameError> {
    if payload.len() == 0 {
        Err(FrameError::Empty)
    } else if payload.len() > max_len {
        Err(FrameError::TooLarge)
    } else {
        Ok(framed(payload))
    }
}

/// What a reader makes of the bytes received so far: a refusal, `None` while
/// the first frame is still incomplete, or the first frame's payload with
/// the number of bytes it took.
pub open spec fn spec_decode(buf: Seq<u8>, max_len: u32) -> Result<
    Option<(Seq<u8>, nat)>,
    FrameError,
> {
    if buf.len() < 4 {
        Ok(None)
    } else {
        let len = be_value(buf.subrange(0, 4));
        if len == 0 {
            Err(FrameError::Empty)
        } else if len > max_len {
            Err(FrameError::TooLarge)
        } else if buf.len() < 4 + len {
            Ok(None)
        } else {
            Ok(Some((buf.subrange(4, 4 + len as int), 4 + len)))
        }
    }
}

/// Decoding an encoded frame gives back the payload and consumes the whole
/// frame, whatever bytes follow it on the wire.
pub proof fn frame_round_trip(payload: Seq<u8>, rest: Seq<u8>, max_len: u32)
    requires
        0 < payload.len() <= max_len,
    ensures
        spec_encode(payload, max_len) == Ok::<Seq<u8>, FrameError>(framed(payload)),
        spec_decode(framed(payload) + rest, max_len) == Ok::<Option<(Seq<u8>, nat)>, FrameError>(
            Some((payload, 4 + payload.len())),
        ),
{
    let buf = framed(payload) + rest;
    be_value_of_be_bytes(payload.len() as u32);
    assert(buf.subrange(0, 4) =~= be_bytes(payload.len() as u32));
    assert(buf.subrange(4, 4 + payload.len() as int) =~= payload);
}

/// A frame that was cut short is never mistaken for a whole one: the reader
/// asks for more bytes.
pub proof fn partial_frame_is_incomplete(payload: Seq<u8>, cut: int, max_len: u32)
    requires
        0 < payload.len() <= max_len,
        0 <= cut < 4 + payload.len(),
    ensures
        spec_decode(framed(payload).subrange(0, cut), max_len) == Ok::<
            Option<(Seq<u8>, nat)>,
            FrameError,
        >(None),
{
    let buf = framed(payload).subrange(0, cut);
    if cut >= 4 {
        be_value_of_be_bytes(payload.len() as u32);
        assert(buf.subrange(0, 4) =~= be_bytes(payload.len() as u32));
    }
}

/// Judges a length field before its payload is read.
pub fn check_length(len: u32, max_len: u32) -> (r: Result<usize, FrameError>)
    ensures
        match r {
            Ok(n) => spec_check_length(len, max_len) == Ok::<nat, FrameError>(n as nat),
            Err(e) => spec_check_length(len, max_len) == Err::<nat, FrameError>(e),
        },
{
    if len == 0 {
        Err(FrameError::Empty)
    } else if len > max_len {
        Err(FrameError::TooLarge)
    } else {
        Ok(len as usize)
    }
}

/// Builds the frame for one serialized message.
pub fn encode_frame(payload: &[u8], max_len: u32) -> (r: Result<Vec<u8>, FrameError>)
    ensures
        match r {
            Ok(frame) => spec_encode(payload@, max_len) == Ok::<Seq<u8>, FrameError>(frame@),
            Err(e) => spec_encode(payload@, max_len) == Err::<Seq<u8>, FrameError>(e),
        },
{
    if payload.len() == 0 {
        return Err(FrameError::Empty);
    }
    if payload.len() as u64 > max_len as u64 {
        return Err(FrameError::TooLarge);
    }
    let n: u32 = payload.len() as u32;
    let mut frame: Vec<u8> = Vec::new();
    frame.push((n / 0x100_0000) as u8);
    frame.push(((n / 0x1_0000) % 0x100) as u8);
    frame.push(((n / 0x100) % 0x100) as u8);
    frame.push((n % 0x100) as u8);
    assert(frame@ =~= be_bytes(n));
    frame.extend_from_slice(payload);
    assert(frame@ =~= framed(payload@));
    Ok(frame)
}

/// Takes the first frame out of `buf`, if it is all there.
pub fn decode_frame(buf: &[u8], max_len: u32) -> (r: Result<Option<(Vec<u8>, usize)>, FrameError>)
    ensures
        match r {
            Ok(Some((payload, consumed))) => spec_decode(buf@, max_len) == Ok::<
                Option<(Seq<u8>, nat)>,
                FrameError,
            >(Some((payload@, consumed as nat))),
            Ok(None) => spec_decode(buf@, max_len) == Ok::<Option<(Seq<u8>, nat)>, FrameError>(
                None,
            ),
            Err(e) => spec_decode(buf@, max_len) == Err::<Option<(Seq<u8>, nat)>, FrameError>(e),
        },
{
    if buf.len() < 4 {
        return Ok(None);
    }
    let len: u64 = (buf[0] as u64) * 0x100_0000 + (buf[1] as u64) * 0x1_0000 + (buf[2] as u64)
        * 0x100 + (buf[3] as u64);
    assert(len == be_value(buf@.subrange(0, 4)));
    if len == 0 {
        return Err(FrameError::Empty);
    }
    if len > max_len as u64 {
        return Err(FrameError::TooLarge);
    }
    if ((buf.len() - 4) as u64) < len {
        return Ok(None);
    }
    let end: usize = 4 + len as usize;
    let body = vstd::slice::slice_subrange(buf, 4, end);
    let payload = vstd::slice::slice_to_vec(body);
    Ok(Some((payload, end)))
}

} // verus!
