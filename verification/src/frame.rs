//! The frame codec: one length-prefixed transmission unit on the wire.
//!
//! A frame on the wire is the marker byte, one length byte, and that many
//! payload bytes. The codec knows nothing of packets or events.

use vstd::prelude::*;

verus! {

/// The byte that opens every frame on the wire.
pub const FRAME_MARKER: u8 = 0x00;

/// The most payload bytes a single frame can carry.
pub const MAX_FRAME_PAYLOAD: usize = 255;

/// Why a byte string is not a frame.
#[derive(Clone, Copy, Debug, PartialEq, Eq, Structural)]
pub enum FrameError {
    /// The bytes end before the marker, the length byte, or the declared
    /// number of payload bytes.
    Truncated,
    /// The first byte is not the frame marker.
    BadMarker,
}

/// One physical transmission unit: at most 255 payload bytes.
#[derive(Debug, PartialEq, Eq)]
pub struct Frame {
    payload: Vec<u8>,
}

impl View for Frame {
    type V = Seq<u8>;

    closed spec fn view(&self) -> Seq<u8> {
        self.payload@
    }
}

/// The wire image of a frame with the given payload.
pub open spec fn encode_spec(payload: Seq<u8>) -> Seq<u8> {
    seq![FRAME_MARKER, payload.len() as u8] + payload
}

/// What decoding the front of `bytes` gives: the payload of the frame found
/// there and the number of bytes it occupies.
pub open spec fn decode_spec(bytes: Seq<u8>) -> Result<(Seq<u8>, int), FrameError> {
    if bytes.len() == 0 {
        Err(FrameError::Truncated)
    } else if bytes[0] != FRAME_MARKER {
        Err(FrameError::BadMarker)
    } else if bytes.len() < 2 || bytes.len() < 2 + bytes[1] {
        Err(FrameError::Truncated)
    } else {
        Ok((bytes.subrange(2, 2 + bytes[1]), 2 + bytes[1]))
    }
}

impl Frame {
    /// A frame is well formed when its payload fits the one-byte length.
    #[verifier::type_invariant]
    pub open spec fn wf(&self) -> bool {
        self@.len() <= MAX_FRAME_PAYLOAD
    }

    /// Makes a frame of `payload`, or nothing if it exceeds 255 bytes.
    pub fn new(payload: Vec<u8>) -> (frame: Option<Frame>)
        ensures
            frame is Some <==> payload@.len() <= MAX_FRAME_PAYLOAD,
            frame matches Some(f) ==> f@ == payload@,
    {
        if payload.len() <= MAX_FRAME_PAYLOAD {
            Some(Frame { payload })
        } else {
            None
        }
    }

    /// The payload bytes.
    pub fn payload(&self) -> (bytes: &Vec<u8>)
        ensures
            bytes@ == self@,
    {
        &self.payload
    }

    /// The number of payload bytes, as the length byte carries it.
    pub fn len(&self) -> (n: u8)
        ensures
            n == self@.len(),
    {
        proof {
            use_type_invariant(self);
        }
        self.payload.len() as u8
    }

    /// The bytes of this frame on the wire: marker, length, payload.
    pub fn encode(&self) -> (bytes: Vec<u8>)
        ensures
            bytes@ == encode_spec(self@),
    {
        proof {
            use_type_invariant(self);
        }
        let mut bytes: Vec<u8> = Vec::with_capacity(self.payload.len() + 2);
        bytes.push(FRAME_MARKER);
        bytes.push(self.payload.len() as u8);
        let mut i: usize = 0;
        while i < self.payload.len()
            invariant
                i <= self.payload@.len(),
                bytes@ == seq![FRAME_MARKER, self.payload@.len() as u8] + self.payload@.take(i as int),
            decreases self.payload@.len() - i,
        {
            bytes.push(self.payload[i]);
            i += 1;
        }
        bytes
    }

    /// Reads one frame from the front of `bytes`.
    ///
    /// Returns the frame and the number of bytes it occupied: exactly the
    /// marker, the length byte, and as many payload bytes as the length byte
    /// declares. Bytes after the frame are left alone.
    pub fn decode(bytes: &[u8]) -> (result: Result<(Frame, usize), FrameError>)
        ensures
            match result {
                Ok((frame, used)) => decode_spec(bytes@) == Ok::<(Seq<u8>, int), FrameError>(
                    (frame@, used as int),
                ),
                Err(e) => decode_spec(bytes@) == Err::<(Seq<u8>, int), FrameError>(e),
            },
    {
        if bytes.len() == 0 {
            return Err(FrameError::Truncated);
        }
        if bytes[0] != FRAME_MARKER {
            return Err(FrameError::BadMarker);
        }
        if bytes.len() < 2 {
            return Err(FrameError::Truncated);
        }
        let declared: usize = bytes[1] as usize;
        if bytes.len() - 2 < declared {
            return Err(FrameError::Truncated);
        }
        let mut payload: Vec<u8> = Vec::with_capacity(declared);
        let mut i: usize = 0;
        while i < declared
            invariant
                i <= declared <= MAX_FRAME_PAYLOAD,
                declared + 2 <= bytes@.len(),
                payload@ == bytes@.subrange(2, 2 + i as int),
            decreases declared - i,
        {
            payload.push(bytes[i + 2]);
            i += 1;
        }
        Ok((Frame { payload }, declared + 2))
    }
}

/// Decoding the wire image of a frame gives the frame back and consumes the
/// whole image, whatever bytes follow it.
pub proof fn lemma_decode_encode(payload: Seq<u8>, rest: Seq<u8>)
    requires
        payload.len() <= MAX_FRAME_PAYLOAD,
    ensures
        decode_spec(encode_spec(payload) + rest) == Ok::<(Seq<u8>, int), FrameError>(
            (payload, payload.len() as int + 2),
        ),
        decode_spec(encode_spec(payload)) == Ok::<(Seq<u8>, int), FrameError>(
            (payload, payload.len() as int + 2),
        ),
{
    let wire = encode_spec(payload) + rest;
    assert(wire.subrange(2, 2 + payload.len() as int) == payload);
    let bare = encode_spec(payload);
    assert(bare.subrange(2, 2 + payload.len() as int) == payload);
}

} // verus!
