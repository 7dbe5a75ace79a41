//! The serial transport, free of the port itself.
//!
//! Sending turns a packet into the byte strings to write, one per frame.
//! Receiving takes the bytes that have arrived so far, skips what is not a
//! frame, feeds each whole frame to the reassembler, and stops at the first
//! complete packet or the first error. The caller owns the port: it writes
//! what it is given, and keeps the bytes that were not used for the next
//! call.

use vstd::prelude::*;
use vstd::slice::slice_subrange;

use crate::bytes::{byte_views, join};
use crate::frame::{decode_spec, encode_spec, lemma_decode_encode, Frame, FrameError, FRAME_MARKER};
use crate::packet::{
    add_frame_spec,
    assemble,
    frame_content,
    frame_count,
    frame_views,
    frames_spec,
    idle,
    lemma_frames_fit,
    lemma_reassemble_split,
    BuilderError,
    BuilderView,
    Packet,
    PacketBuilder,
    MAX_PACKET_PAYLOAD,
};

verus! {

/// Why the transport could not deliver or accept a packet.
#[derive(Clone, Copy, Debug, PartialEq, Eq, Structural)]
pub enum RossSerialError {
    /// Reading from the port failed.
    ReadError,
    /// Writing to the port, or flushing it, failed.
    WriteError,
    /// The frames received do not form a packet.
    BuilderError(BuilderError),
    /// The bytes received do not hold a whole frame.
    FrameError(FrameError),
}

/// What one call of [`RossSerial::try_get_packet`] found.
#[derive(Debug, PartialEq, Eq)]
pub struct Received {
    /// How many bytes of the input were used up. The caller drops them and
    /// offers the rest again, with what arrives later.
    pub used: usize,
    /// The packet completed, the error met, or nothing if the input ran out
    /// first.
    pub outcome: Option<Result<Packet, RossSerialError>>,
}

/// What receiving gives, in terms of byte sequences: the state of the
/// reassembler afterwards, the bytes used, and the outcome.
pub ghost struct ReceivedView {
    pub state: BuilderView,
    pub used: int,
    pub outcome: Option<Result<Seq<u8>, RossSerialError>>,
}

impl ReceivedView {
    /// The same result, seen from `skipped` bytes earlier in the input.
    pub open spec fn after(self, skipped: int) -> ReceivedView {
        ReceivedView { state: self.state, used: self.used + skipped, outcome: self.outcome }
    }
}

/// The outcome of a reception, with the packet as its byte sequence.
pub open spec fn outcome_view(outcome: Option<Result<Packet, RossSerialError>>) -> Option<
    Result<Seq<u8>, RossSerialError>,
> {
    match outcome {
        None => None,
        Some(Ok(packet)) => Some(Ok(packet@)),
        Some(Err(e)) => Some(Err(e)),
    }
}

/// What receiving from `input` gives when the reassembler is in state `b`.
///
/// Bytes before a marker are skipped. At a marker, a frame that the input
/// does not hold whole is reported and not used up. A whole frame is used up
/// and offered to the reassembler: if it is rejected, the error is reported;
/// if it completes a packet, the packet is; otherwise receiving goes on
/// behind it. When the input runs out, there is nothing to report.
pub open spec fn receive_spec(b: BuilderView, input: Seq<u8>) -> ReceivedView
    decreases input.len(),
{
    if input.len() == 0 {
        ReceivedView { state: b, used: 0, outcome: None }
    } else if input[0] != FRAME_MARKER {
        receive_spec(b, input.skip(1)).after(1)
    } else {
        match decode_spec(input) {
            Err(e) => ReceivedView {
                state: b,
                used: 0,
                outcome: Some(Err(RossSerialError::FrameError(e))),
            },
            Ok((frame, used)) => match add_frame_spec(b, frame) {
                Err(e) => ReceivedView {
                    state: idle(),
                    used,
                    outcome: Some(Err(RossSerialError::BuilderError(e))),
                },
                Ok(next) => if next.frames_expected == 0 {
                    ReceivedView {
                        state: idle(),
                        used,
                        outcome: Some(Ok(assemble(next.frames_received))),
                    }
                } else {
                    receive_spec(next, input.skip(used)).after(used)
                },
            },
        }
    }
}

/// The byte strings written for a packet: the wire image of each of its
/// frames, in order.
pub open spec fn wire_frames(payload: Seq<u8>) -> Seq<Seq<u8>> {
    Seq::new(
        frame_count(payload.len() as int) as nat,
        |i: int| encode_spec(frame_content(payload, i)),
    )
}

/// The transport's side of a serial link: the reassembly in progress.
#[derive(Debug)]
pub struct RossSerial {
    packet_builder: PacketBuilder,
}

impl View for RossSerial {
    type V = BuilderView;

    closed spec fn view(&self) -> BuilderView {
        self.packet_builder@
    }
}

impl RossSerial {
    /// A transport with no packet in progress.
    pub fn new() -> (serial: RossSerial)
        ensures
            serial@ == idle(),
    {
        RossSerial { packet_builder: PacketBuilder::new() }
    }

    /// Receives from the bytes that have arrived.
    ///
    /// Reads until a packet is complete, an error is met, or `input` runs
    /// out, as [`receive_spec`] says, and reports how many bytes were used
    /// up. A packet in progress is kept from one call to the next.
    pub fn try_get_packet(&mut self, input: &[u8]) -> (received: Received)
        ensures
            final(self)@ == receive_spec(old(self)@, input@).state,
            received.used == receive_spec(old(self)@, input@).used,
            received.used <= input@.len(),
            outcome_view(received.outcome) == receive_spec(old(self)@, input@).outcome,
    {
        let mut pos: usize = 0;
        assert(input@.skip(0) == input@);
        loop
            invariant
                pos <= input@.len(),
                receive_spec(old(self)@, input@) == receive_spec(self@, input@.skip(pos as int)).after(
                    pos as int,
                ),
            decreases input@.len() - pos,
        {
            let ghost rest_view = input@.skip(pos as int);
            if pos == input.len() {
                return Received { used: pos, outcome: None };
            }
            if input[pos] != FRAME_MARKER {
                assert(rest_view.skip(1) == input@.skip(pos + 1));
                pos += 1;
            } else {
                let rest = slice_subrange(input, pos, input.len());
                match Frame::decode(rest) {
                    Err(e) => {
                        return Received {
                            used: pos,
                            outcome: Some(Err(RossSerialError::FrameError(e))),
                        };
                    },
                    Ok((frame, used)) => {
                        assert(rest_view.skip(used as int) == input@.skip(pos + used));
                        match self.packet_builder.add_frame(frame) {
                            Err(e) => {
                                return Received {
                                    used: pos + used,
                                    outcome: Some(Err(RossSerialError::BuilderError(e))),
                                };
                            },
                            Ok(()) => {
                                if self.packet_builder.frames_left() == 0 {
                                    let built = self.packet_builder.build();
                                    let outcome = match built {
                                        Ok(packet) => Ok(packet),
                                        Err(e) => Err(RossSerialError::BuilderError(e)),
                                    };
                                    return Received { used: pos + used, outcome: Some(outcome) };
                                }
                                pos += used;
                            },
                        }
                    },
                }
            }
        }
    }

    /// The byte strings to write for `packet`: one per frame, in order.
    ///
    /// The caller writes them one after the other and then flushes; if a
    /// write or the flush fails it stops there and reports a write error.
    pub fn try_send_packet(&self, packet: &Packet) -> (wire: Vec<Vec<u8>>)
        ensures
            byte_views(wire@) == wire_frames(packet@),
    {
        let frames = packet.to_frames();
        let mut wire: Vec<Vec<u8>> = Vec::with_capacity(frames.len());
        let mut i: usize = 0;
        while i < frames.len()
            invariant
                i <= frames@.len(),
                frame_views(frames@) == frames_spec(packet@),
                wire@.len() == i,
                forall|k: int|
                    0 <= k < i ==> (#[trigger] wire@[k])@ == encode_spec(frame_content(packet@, k)),
            decreases frames@.len() - i,
        {
            assert(frame_views(frames@).len() == frames@.len());
            assert(frames_spec(packet@)[i as int] == frame_content(packet@, i as int));
            wire.push(frames[i].encode());
            i += 1;
        }
        assert(frame_views(frames@).len() == frames@.len());
        wire
    }
}

/// Bytes that hold no marker are skipped, whatever follows them.
pub proof fn lemma_noise_is_skipped(b: BuilderView, noise: Seq<u8>, rest: Seq<u8>)
    requires
        forall|i: int| 0 <= i < noise.len() ==> noise[i] != FRAME_MARKER,
    ensures
        receive_spec(b, noise + rest) == receive_spec(b, rest).after(noise.len() as int),
    decreases noise.len(),
{
    if noise.len() > 0 {
        assert((noise + rest).skip(1) == noise.skip(1) + rest);
        lemma_noise_is_skipped(b, noise.skip(1), rest);
    }
}

/// With the first `k` frames of a packet taken, receiving the wire images of
/// the others, followed by anything, completes the packet and uses up
/// exactly those images.
proof fn lemma_receive_rest(payload: Seq<u8>, k: int, tail: Seq<u8>)
    requires
        payload.len() <= MAX_PACKET_PAYLOAD,
        0 <= k < frame_count(payload.len() as int),
    ensures
        receive_spec(
            if k == 0 {
                idle()
            } else {
                BuilderView {
                    frames_expected: (frame_count(payload.len() as int) - k) as nat,
                    frames_received: frames_spec(payload).take(k),
                }
            },
            join(wire_frames(payload).skip(k)) + tail,
        ) == (ReceivedView {
            state: idle(),
            used: join(wire_frames(payload).skip(k)).len() as int,
            outcome: Some(Ok(payload)),
        }),
    decreases frame_count(payload.len() as int) - k,
{
    let count = frame_count(payload.len() as int);
    let frames = frames_spec(payload);
    let wire = wire_frames(payload);
    let parts = wire.skip(k);
    let content = frame_content(payload, k);
    let later = join(parts.drop_first());
    let input = join(parts) + tail;
    lemma_frames_fit(payload);
    assert(parts.drop_first() == wire.skip(k + 1));
    assert(input == encode_spec(content) + (later + tail));
    lemma_decode_encode(content, later + tail);
    assert(input.skip(content.len() as int + 2) == later + tail);
    assert(frames.take(k).push(content) == frames.take(k + 1));
    if k == 0 {
        assert(seq![content] == frames.take(1));
    }
    if k + 1 == count {
        assert(frames.take(k + 1) == frames);
        lemma_reassemble_split(payload);
    } else {
        lemma_receive_rest(payload, k + 1, tail);
    }
}

/// What is sent for a packet is received as that packet: from a transport
/// with no packet in progress, the byte strings written for a packet, in
/// order, after any bytes that hold no marker and before any bytes at all,
/// give the packet back, use up everything up to its last byte, and leave
/// no packet in progress.
pub proof fn lemma_receive_sent(payload: Seq<u8>, noise: Seq<u8>, tail: Seq<u8>)
    requires
        payload.len() <= MAX_PACKET_PAYLOAD,
        forall|i: int| 0 <= i < noise.len() ==> noise[i] != FRAME_MARKER,
    ensures
        receive_spec(idle(), noise + join(wire_frames(payload)) + tail) == (ReceivedView {
            state: idle(),
            used: (noise.len() + join(wire_frames(payload)).len()) as int,
            outcome: Some(Ok(payload)),
        }),
{
    let stream = join(wire_frames(payload));
    assert(wire_frames(payload).skip(0) == wire_frames(payload));
    lemma_receive_rest(payload, 0, tail);
    lemma_noise_is_skipped(idle(), noise, stream + tail);
    assert(noise + stream + tail == noise + (stream + tail));
}

} // verus!
