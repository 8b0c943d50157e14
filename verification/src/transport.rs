//! Framing: how messages are cut out of the stream of bytes from the
//! driver, and how they are put into the stream to it.
//!
//! A frame is the length of the payload, as four bytes with the lowest
//! first, followed by the payload.

use crate::error::Error;
use vstd::prelude::*;
use vstd::string::StringExecFns;

verus! {

/// The number of bytes that hold the length of a payload.
pub const PREFIX_LEN: usize = 4;

/// The longest payload that a frame can hold.
pub const MAX_PAYLOAD_LEN: usize = 0xffff_ffff;

/// The four bytes that stand for a length, the lowest first.
pub open spec fn length_prefix(len: nat) -> Seq<u8>
    recommends
        len <= 0xffff_ffff,
{
    seq![
        (len % 256) as u8,
        (len / 256 % 256) as u8,
        (len / 65536 % 256) as u8,
        (len / 16777216 % 256) as u8,
    ]
}

/// The length that the first four bytes stand for.
pub open spec fn declared_len(bytes: Seq<u8>) -> nat
    recommends
        bytes.len() >= 4,
{
    (bytes[0] as nat) + (bytes[1] as nat) * 256 + (bytes[2] as nat) * 65536 + (bytes[3] as nat)
        * 16777216
}

/// The frame that carries a payload.
pub open spec fn frame_of(payload: Seq<u8>) -> Seq<u8> {
    length_prefix(payload.len()) + payload
}

/// Whether the bytes begin with a whole frame.
pub open spec fn has_frame(bytes: Seq<u8>) -> bool {
    bytes.len() >= 4 && bytes.len() >= 4 + declared_len(bytes)
}

/// The payload of the frame that the bytes begin with.
pub open spec fn first_payload(bytes: Seq<u8>) -> Seq<u8>
    recommends
        has_frame(bytes),
{
    bytes.subrange(4, 4 + declared_len(bytes) as int)
}

/// What follows the frame that the bytes begin with.
pub open spec fn after_first(bytes: Seq<u8>) -> Seq<u8>
    recommends
        has_frame(bytes),
{
    bytes.subrange(4 + declared_len(bytes) as int, bytes.len() as int)
}

/// A frame is read back as it was written: bytes that begin with the
/// frame of a payload begin with a whole frame, whose payload is that
/// payload, and what follows the frame is what was put after it.
pub proof fn lemma_frame_round_trip(payload: Seq<u8>, rest: Seq<u8>)
    requires
        payload.len() <= 0xffff_ffff,
    ensures
        declared_len(frame_of(payload) + rest) == payload.len(),
        has_frame(frame_of(payload) + rest),
        first_payload(frame_of(payload) + rest) == payload,
        after_first(frame_of(payload) + rest) == rest,
{
    let len = payload.len();
    let bytes = frame_of(payload) + rest;
    assert(bytes[0] == (len % 256) as u8);
    assert(bytes[1] == (len / 256 % 256) as u8);
    assert(bytes[2] == (len / 65536 % 256) as u8);
    assert(bytes[3] == (len / 16777216 % 256) as u8);
    assert(first_payload(bytes) =~= payload);
    assert(after_first(bytes) =~= rest);
}

/// Frames that are equal carry equal payloads.
pub proof fn lemma_frame_injective(a: Seq<u8>, b: Seq<u8>)
    requires
        a.len() <= 0xffff_ffff,
        b.len() <= 0xffff_ffff,
        frame_of(a) == frame_of(b),
    ensures
        a == b,
{
    lemma_frame_round_trip(a, Seq::empty());
    lemma_frame_round_trip(b, Seq::empty());
    assert(frame_of(a) + Seq::<u8>::empty() =~= frame_of(a));
    assert(frame_of(b) + Seq::<u8>::empty() =~= frame_of(b));
}

/// The frame that carries `payload`: its length in four bytes, the lowest
/// first, then the payload. A payload that is too long for the four bytes
/// is refused as a protocol error.
pub fn encode_frame(payload: &[u8]) -> (framed: Result<Vec<u8>, Error>)
    ensures
        match framed {
            Ok(frame) => payload@.len() <= 0xffff_ffff && frame@ == frame_of(payload@),
            Err(Error::ProtocolError(m)) => payload@.len() > 0xffff_ffff && m@
                == "Frame payload too large"@,
            Err(_) => false,
        },
{
    let len = payload.len();
    if len > MAX_PAYLOAD_LEN {
        return Err(Error::ProtocolError(String::from_str("Frame payload too large")));
    }
    let mut frame: Vec<u8> = Vec::new();
    frame.push((len % 256) as u8);
    frame.push((len / 256 % 256) as u8);
    frame.push((len / 65536 % 256) as u8);
    frame.push((len / 16777216 % 256) as u8);
    let mut i: usize = 0;
    while i < len
        invariant
            i <= len,
            len == payload@.len(),
            frame@ == length_prefix(len as nat) + payload@.subrange(0, i as int),
        decreases len - i,
    {
        frame.push(payload[i]);
        assert(payload@.subrange(0, i + 1) =~= payload@.subrange(0, i as int).push(
            payload@[i as int],
        ));
        i += 1;
    }
    assert(payload@.subrange(0, len as int) =~= payload@);
    Ok(frame)
}

/// The bytes that have come in and have not yet been handed out as
/// frames.
#[derive(Debug)]
pub struct FrameReader {
    buffer: Vec<u8>,
}

impl View for FrameReader {
    type V = Seq<u8>;

    closed spec fn view(&self) -> Seq<u8> {
        self.buffer@
    }
}

impl FrameReader {
    /// A reader that has seen no bytes.
    pub fn new() -> (reader: FrameReader)
        ensures
            reader@ == Seq::<u8>::empty(),
    {
        FrameReader { buffer: Vec::new() }
    }

    /// How many bytes wait in the reader.
    pub fn buffered(&self) -> (n: usize)
        ensures
            n == self@.len(),
    {
        self.buffer.len()
    }

    /// Takes bytes that were read from the stream; they may end anywhere,
    /// within a frame or between two.
    pub fn push(&mut self, bytes: &[u8])
        ensures
            final(self)@ == old(self)@ + bytes@,
    {
        let mut i: usize = 0;
        while i < bytes.len()
            invariant
                i <= bytes.len(),
                self@ == old(self)@ + bytes@.subrange(0, i as int),
            decreases bytes.len() - i,
        {
            self.buffer.push(bytes[i]);
            assert(bytes@.subrange(0, i + 1) =~= bytes@.subrange(0, i as int).push(
                bytes@[i as int],
            ));
            i += 1;
        }
        assert(bytes@.subrange(0, bytes@.len() as int) =~= bytes@);
    }

    /// Hands out the payload of the next frame, once all of it has come
    /// in, and keeps what follows it. `None`, and no change, while the
    /// frame is not whole.
    pub fn next_frame(&mut self) -> (payload: Option<Vec<u8>>)
        ensures
            match payload {
                Some(payload) => {
                    &&& has_frame(old(self)@)
                    &&& payload@ == first_payload(old(self)@)
                    &&& final(self)@ == after_first(old(self)@)
                },
                None => !has_frame(old(self)@) && final(self)@ == old(self)@,
            },
    {
        if self.buffer.len() < PREFIX_LEN {
            return None;
        }
        let declared: u32 = (self.buffer[0] as u32) + (self.buffer[1] as u32) * 256 + (
        self.buffer[2] as u32) * 65536 + (self.buffer[3] as u32) * 16777216;
        let len = declared as usize;
        if self.buffer.len() - PREFIX_LEN < len {
            return None;
        }
        let rest = self.buffer.split_off(PREFIX_LEN + len);
        let payload = self.buffer.split_off(PREFIX_LEN);
        self.buffer = rest;
        proof {
            assert(payload@ =~= first_payload(old(self)@));
        }
        Some(payload)
    }

    /// What the end of the stream means: the transport is closed if it
    /// ends between two frames, and it is a protocol error if it ends
    /// within one.
    pub fn finish(&self) -> (end: Error)
        ensures
            if self@.len() == 0 {
                end is TransportClosed
            } else {
                end matches Error::ProtocolError(m) && m@ == "Stream ended within a frame"@
            },
    {
        if self.buffer.len() == 0 {
            Error::TransportClosed
        } else {
            Error::ProtocolError(String::from_str("Stream ended within a frame"))
        }
    }
}

} // verus!
