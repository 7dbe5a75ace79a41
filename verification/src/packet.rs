//! Packets and their reassembly from frames.
//!
//! A packet is one logical message. On the wire it travels as one or more
//! frames. Every frame's payload opens with a two-byte header: a tag that
//! tells the first frame of a packet from a continuation, and the number of
//! frames that still follow. The rest of the payload is a chunk of the
//! packet, at most 253 bytes.

use vstd::prelude::*;

use crate::frame::{Frame, MAX_FRAME_PAYLOAD};

verus! {

/// Header tag of the first frame of a packet.
pub const START_FRAME: u8 = 0x01;

/// Header tag of every later frame of a packet.
pub const CONTINUATION_FRAME: u8 = 0x02;

/// Bytes of header at the front of every frame's payload.
pub const FRAME_HEADER_LEN: usize = 2;

/// The most packet bytes one frame carries after its header.
pub const MAX_CHUNK: usize = 253;

/// The most frames one packet may span: the first and 255 more.
pub const MAX_FRAMES: usize = 256;

/// The most bytes one packet may hold: 256 chunks of 253 bytes.
pub const MAX_PACKET_PAYLOAD: usize = 64768;

/// Why a frame sequence is not a packet.
#[derive(Clone, Copy, Debug, PartialEq, Eq, Structural)]
pub enum BuilderError {
    /// The frame is too short for a header, or its tag is unknown.
    Malformed,
    /// A continuation frame arrived while no packet was in progress.
    MissingStart,
    /// A first frame arrived while another packet was still in progress.
    UnexpectedStart,
    /// A continuation frame does not declare the expected remaining count.
    OutOfSequence,
    /// A frame arrived after the last expected frame of the packet.
    AlreadyComplete,
    /// The packet was asked for before its last frame arrived.
    Incomplete,
}

/// How many frames a packet of `len` bytes spans: one for every 253 bytes
/// begun, and one for an empty packet.
pub open spec fn frame_count(len: int) -> int {
    if len <= 0 {
        1
    } else {
        (len - 1) / (MAX_CHUNK as int) + 1
    }
}

/// The part of `payload` that frame `i` carries.
pub open spec fn chunk_of(payload: Seq<u8>, i: int) -> Seq<u8> {
    let start = i * MAX_CHUNK;
    let end = if start + MAX_CHUNK < payload.len() {
        start + MAX_CHUNK
    } else {
        payload.len() as int
    };
    payload.subrange(start, end)
}

/// The payload of frame `i` of the packet `payload`: tag, frames that follow,
/// chunk.
pub open spec fn frame_content(payload: Seq<u8>, i: int) -> Seq<u8> {
    seq![
        if i == 0 {
            START_FRAME
        } else {
            CONTINUATION_FRAME
        },
        (frame_count(payload.len() as int) - 1 - i) as u8,
    ] + chunk_of(payload, i)
}

/// The payloads of the frames that carry the packet `payload`, in order.
pub open spec fn frames_spec(payload: Seq<u8>) -> Seq<Seq<u8>> {
    Seq::new(frame_count(payload.len() as int) as nat, |i: int| frame_content(payload, i))
}

/// The packet bytes that a sequence of frame payloads carries: their chunks,
/// joined in order.
pub open spec fn assemble(frames: Seq<Seq<u8>>) -> Seq<u8>
    decreases frames.len(),
{
    if frames.len() == 0 {
        Seq::empty()
    } else {
        assemble(frames.drop_last()) + frames.last().skip(FRAME_HEADER_LEN as int)
    }
}

/// The payloads of a sequence of frames.
pub open spec fn frame_views(frames: Seq<Frame>) -> Seq<Seq<u8>> {
    frames.map_values(|f: Frame| f@)
}

/// One logical protocol message.
#[derive(Debug, PartialEq, Eq)]
pub struct Packet {
    payload: Vec<u8>,
}

impl View for Packet {
    type V = Seq<u8>;

    closed spec fn view(&self) -> Seq<u8> {
        self.payload@
    }
}

impl Packet {
    /// A packet is well formed when 256 frames can carry it.
    #[verifier::type_invariant]
    pub open spec fn wf(&self) -> bool {
        self@.len() <= MAX_PACKET_PAYLOAD
    }

    /// Makes a packet of `payload`, or nothing if it exceeds 64768 bytes.
    pub fn new(payload: Vec<u8>) -> (packet: Option<Packet>)
        ensures
            packet is Some <==> payload@.len() <= MAX_PACKET_PAYLOAD,
            packet matches Some(p) ==> p@ == payload@,
    {
        if payload.len() <= MAX_PACKET_PAYLOAD {
            Some(Packet { payload })
        } else {
            None
        }
    }

    /// The bytes of the message.
    pub fn payload(&self) -> (bytes: &Vec<u8>)
        ensures
            bytes@ == self@,
    {
        &self.payload
    }

    /// Splits the packet into the frames that carry it, in sending order.
    pub fn to_frames(&self) -> (frames: Vec<Frame>)
        ensures
            frame_views(frames@) == frames_spec(self@),
    {
        proof {
            use_type_invariant(self);
        }
        let len = self.payload.len();
        let count: usize = if len == 0 {
            1
        } else {
            (len - 1) / MAX_CHUNK + 1
        };
        let mut frames: Vec<Frame> = Vec::with_capacity(count);
        let mut i: usize = 0;
        while i < count
            invariant
                len == self.payload@.len(),
                len <= MAX_PACKET_PAYLOAD,
                count == frame_count(len as int),
                count <= MAX_FRAMES,
                i <= count,
                frames@.len() == i,
                forall|k: int| 0 <= k < i ==> (#[trigger] frames@[k])@ == frame_content(self@, k),
            decreases count - i,
        {
            let start: usize = i * MAX_CHUNK;
            let end: usize = if len - start > MAX_CHUNK {
                start + MAX_CHUNK
            } else {
                len
            };
            let mut content: Vec<u8> = Vec::with_capacity(end - start + FRAME_HEADER_LEN);
            content.push(
                if i == 0 {
                    START_FRAME
                } else {
                    CONTINUATION_FRAME
                },
            );
            content.push((count - 1 - i) as u8);
            let ghost header = content@;
            let mut j: usize = start;
            while j < end
                invariant
                    start <= j <= end <= self.payload@.len(),
                    content@ == header + self.payload@.subrange(start as int, j as int),
                decreases end - j,
            {
                content.push(self.payload[j]);
                j += 1;
            }
            let frame = Frame::new(content).unwrap();
            frames.push(frame);
            i += 1;
        }
        frames
    }
}

/// The state of a reassembly: how many frames are still expected and the
/// payloads of the frames taken so far. With no frame taken, the one frame
/// expected is the first frame of the next packet.
pub ghost struct BuilderView {
    pub frames_expected: nat,
    pub frames_received: Seq<Seq<u8>>,
}

/// The state in which no packet is in progress.
pub open spec fn idle() -> BuilderView {
    BuilderView { frames_expected: 1, frames_received: Seq::empty() }
}

/// What taking the frame payload `frame` in state `b` gives: the next state,
/// or the reason the frame is rejected.
pub open spec fn add_frame_spec(b: BuilderView, frame: Seq<u8>) -> Result<BuilderView, BuilderError> {
    if b.complete() {
        Err(BuilderError::AlreadyComplete)
    } else if frame.len() < FRAME_HEADER_LEN || (frame[0] != START_FRAME && frame[0]
        != CONTINUATION_FRAME) {
        Err(BuilderError::Malformed)
    } else if b.frames_received.len() == 0 {
        if frame[0] == START_FRAME {
            Ok(BuilderView { frames_expected: frame[1] as nat, frames_received: seq![frame] })
        } else {
            Err(BuilderError::MissingStart)
        }
    } else if frame[0] == START_FRAME {
        Err(BuilderError::UnexpectedStart)
    } else if frame[1] != b.frames_expected - 1 {
        Err(BuilderError::OutOfSequence)
    } else {
        Ok(
            BuilderView {
                frames_expected: (b.frames_expected - 1) as nat,
                frames_received: b.frames_received.push(frame),
            },
        )
    }
}

/// The state after offering `frame` in state `b`: a rejected frame ends the
/// packet in progress.
pub open spec fn after_frame(b: BuilderView, frame: Seq<u8>) -> BuilderView {
    match add_frame_spec(b, frame) {
        Ok(next) => next,
        Err(_) => idle(),
    }
}

/// The state after taking `frames` one by one from state `b`, or the first
/// rejection.
pub open spec fn feed(b: BuilderView, frames: Seq<Seq<u8>>) -> Result<BuilderView, BuilderError>
    decreases frames.len(),
{
    if frames.len() == 0 {
        Ok(b)
    } else {
        match feed(b, frames.drop_last()) {
            Ok(before) => add_frame_spec(before, frames.last()),
            Err(e) => Err(e),
        }
    }
}

impl BuilderView {
    /// Whether the last frame of a packet has been taken.
    pub open spec fn complete(self) -> bool {
        self.frames_received.len() > 0 && self.frames_expected == 0
    }

    /// A state is well formed when it is idle, or holds frames with headers
    /// that together with the expected ones number at most 256.
    pub open spec fn wf(self) -> bool {
        &&& self.frames_received.len() == 0 ==> self.frames_expected == 1
        &&& self.frames_received.len() + self.frames_expected <= MAX_FRAMES
        &&& forall|i: int|
            0 <= i < self.frames_received.len() ==> FRAME_HEADER_LEN <= (
            #[trigger] self.frames_received[i]).len() <= MAX_FRAME_PAYLOAD
    }
}

/// Accumulates the frames of one packet at a time.
#[derive(Debug)]
pub struct PacketBuilder {
    frames_expected: usize,
    frames_received: Vec<Frame>,
}

impl View for PacketBuilder {
    type V = BuilderView;

    closed spec fn view(&self) -> BuilderView {
        BuilderView {
            frames_expected: if self.frames_received@.len() == 0 {
                1
            } else {
                self.frames_expected as nat
            },
            frames_received: frame_views(self.frames_received@),
        }
    }
}

impl PacketBuilder {
    /// See [`BuilderView::wf`].
    #[verifier::type_invariant]
    pub open spec fn wf(&self) -> bool {
        self@.wf()
    }

    /// A reassembler with no packet in progress.
    pub fn new() -> (builder: PacketBuilder)
        ensures
            builder@ == idle(),
    {
        let builder = PacketBuilder { frames_expected: 1, frames_received: Vec::new() };
        assert(builder@.frames_received == Seq::<Seq<u8>>::empty());
        builder
    }

    /// The number of frames still needed before the packet can be built; 0
    /// means ready to build. With no packet in progress this is 1, the first
    /// frame of the next one.
    pub fn frames_left(&self) -> (left: usize)
        ensures
            left == self@.frames_expected,
    {
        if self.frames_received.len() == 0 {
            1
        } else {
            self.frames_expected
        }
    }

    fn reset(&mut self)
        ensures
            final(self)@ == idle(),
    {
        self.frames_received = Vec::new();
        assert(self@.frames_received == Seq::<Seq<u8>>::empty());
    }

    /// Takes the next frame.
    ///
    /// The first frame of a packet declares how many frames follow; each
    /// continuation must declare one less than the frame before it. A frame
    /// that does not fit is rejected, and the packet in progress is dropped,
    /// so that the reassembler is ready for the first frame of a new packet.
    pub fn add_frame(&mut self, frame: Frame) -> (result: Result<(), BuilderError>)
        ensures
            final(self)@ == after_frame(old(self)@, frame@),
            match result {
                Ok(()) => add_frame_spec(old(self)@, frame@) is Ok,
                Err(e) => add_frame_spec(old(self)@, frame@) == Err::<BuilderView, BuilderError>(e),
            },
    {
        proof {
            use_type_invariant(&*self);
            use_type_invariant(&frame);
        }
        match self.check_frame(&frame) {
            Ok(expected) => {
                let mut received: Vec<Frame> = Vec::new();
                std::mem::swap(&mut self.frames_received, &mut received);
                received.push(frame);
                assert(frame_views(received@) == old(self)@.frames_received.push(frame@));
                self.frames_expected = expected;
                self.frames_received = received;
                assert(self@.frames_received == after_frame(old(self)@, frame@).frames_received);
                Ok(())
            },
            Err(e) => {
                self.reset();
                Err(e)
            },
        }
    }

    /// Decides whether `frame` fits, and how many frames are expected after
    /// it.
    fn check_frame(&self, frame: &Frame) -> (result: Result<usize, BuilderError>)
        ensures
            match result {
                Ok(expected) => add_frame_spec(self@, frame@) matches Ok(next)
                    && next.frames_expected == expected && self.frames_received@.len() + 1
                    + expected <= MAX_FRAMES,
                Err(e) => add_frame_spec(self@, frame@) == Err::<BuilderView, BuilderError>(e),
            },
    {
        proof {
            use_type_invariant(self);
        }
        if self.frames_left() == 0 {
            return Err(BuilderError::AlreadyComplete);
        }
        let content = frame.payload();
        if content.len() < FRAME_HEADER_LEN {
            return Err(BuilderError::Malformed);
        }
        let tag = content[0];
        let declared = content[1];
        if tag != START_FRAME && tag != CONTINUATION_FRAME {
            return Err(BuilderError::Malformed);
        }
        if self.frames_received.len() == 0 {
            if tag == START_FRAME {
                Ok(declared as usize)
            } else {
                Err(BuilderError::MissingStart)
            }
        } else if tag == START_FRAME {
            Err(BuilderError::UnexpectedStart)
        } else if declared as usize != self.frames_expected - 1 {
            Err(BuilderError::OutOfSequence)
        } else {
            Ok(self.frames_expected - 1)
        }
    }

    /// Joins the chunks of the frames taken into one packet, and makes the
    /// reassembler ready for the next packet.
    ///
    /// Fails, and changes nothing, unless the last expected frame has been
    /// taken.
    pub fn build(&mut self) -> (result: Result<Packet, BuilderError>)
        ensures
            match result {
                Ok(packet) => old(self)@.complete() && packet@ == assemble(
                    old(self)@.frames_received,
                ) && final(self)@ == idle(),
                Err(e) => !old(self)@.complete() && e == BuilderError::Incomplete && final(self)@
                    == old(self)@,
            },
    {
        proof {
            use_type_invariant(&*self);
        }
        if self.frames_left() != 0 {
            return Err(BuilderError::Incomplete);
        }
        let ghost frames = self@.frames_received;
        let mut payload: Vec<u8> = Vec::new();
        let mut i: usize = 0;
        while i < self.frames_received.len()
            invariant
                self.wf(),
                self@.frames_received == frames,
                i <= self.frames_received@.len(),
                payload@ == assemble(frames.take(i as int)),
                payload@.len() <= i * MAX_CHUNK,
            decreases self.frames_received@.len() - i,
        {
            let content = self.frames_received[i].payload();
            assert(content@ == frames[i as int]);
            let ghost so_far = payload@;
            let mut j: usize = FRAME_HEADER_LEN;
            while j < content.len()
                invariant
                    FRAME_HEADER_LEN <= j <= content@.len(),
                    payload@ == so_far + content@.subrange(FRAME_HEADER_LEN as int, j as int),
                decreases content@.len() - j,
            {
                payload.push(content[j]);
                j += 1;
            }
            assert(frames.take(i + 1).drop_last() == frames.take(i as int));
            i += 1;
        }
        assert(frames.take(i as int) == frames);
        self.reset();
        Ok(Packet { payload })
    }
}

/// The frames of a packet fit their length byte, and there are at most 256.
pub proof fn lemma_frames_fit(payload: Seq<u8>)
    requires
        payload.len() <= MAX_PACKET_PAYLOAD,
    ensures
        1 <= frames_spec(payload).len() <= MAX_FRAMES,
        forall|i: int|
            0 <= i < frames_spec(payload).len() ==> FRAME_HEADER_LEN <= (#[trigger] frames_spec(
                payload,
            )[i]).len() <= MAX_FRAME_PAYLOAD,
{
}

/// The chunks of the first `k` frames of a packet are the packet's first
/// `253 * k` bytes, or all of them if it has fewer.
proof fn lemma_assemble_prefix(payload: Seq<u8>, k: int)
    requires
        0 <= k <= frame_count(payload.len() as int),
    ensures
        assemble(frames_spec(payload).take(k)) == payload.take(
            if k * MAX_CHUNK < payload.len() {
                k * MAX_CHUNK
            } else {
                payload.len() as int
            },
        ),
    decreases k,
{
    if k > 0 {
        let frames = frames_spec(payload);
        lemma_assemble_prefix(payload, k - 1);
        assert(frames.take(k).drop_last() == frames.take(k - 1));
    }
}

/// Taking the first `k` frames of a packet, from idle, leaves the rest of
/// them expected.
proof fn lemma_feed_prefix(payload: Seq<u8>, k: int)
    requires
        payload.len() <= MAX_PACKET_PAYLOAD,
        1 <= k <= frame_count(payload.len() as int),
    ensures
        feed(idle(), frames_spec(payload).take(k)) == Ok::<BuilderView, BuilderError>(
            BuilderView {
                frames_expected: (frame_count(payload.len() as int) - k) as nat,
                frames_received: frames_spec(payload).take(k),
            },
        ),
    decreases k,
{
    let frames = frames_spec(payload);
    assert(frames.take(k).drop_last() == frames.take(k - 1));
    if k == 1 {
        assert(frames.take(1) == seq![frames[0]]);
    } else {
        lemma_feed_prefix(payload, k - 1);
        assert(frames.take(k - 1).push(frames[k - 1]) == frames.take(k));
    }
}

/// Splitting a packet into frames and reassembling them reproduces it: the
/// reassembler, starting with no packet in progress, takes every frame,
/// expects none after the last, and the chunks it holds join to the packet.
pub proof fn lemma_reassemble_split(payload: Seq<u8>)
    requires
        payload.len() <= MAX_PACKET_PAYLOAD,
    ensures
        feed(idle(), frames_spec(payload)) == Ok::<BuilderView, BuilderError>(
            BuilderView { frames_expected: 0, frames_received: frames_spec(payload) },
        ),
        assemble(frames_spec(payload)) == payload,
{
    let frames = frames_spec(payload);
    let count = frame_count(payload.len() as int);
    lemma_feed_prefix(payload, count);
    lemma_assemble_prefix(payload, count);
    assert(frames.take(count) == frames);
}

/// Frames out of order are rejected, and the rejection leaves the
/// reassembler ready for the next packet.
///
/// A continuation frame offered when no packet is in progress is rejected
/// for its missing start, and any frame offered after the last expected one
/// is rejected for coming after a complete packet. After either rejection no
/// packet is in progress, and the frames of any packet `next` are then
/// taken, one by one, and join to that packet.
pub proof fn lemma_rejects_out_of_order(b: BuilderView, frame: Seq<u8>, next: Seq<u8>)
    requires
        b.wf(),
        next.len() <= MAX_PACKET_PAYLOAD,
        b.complete() || (b == idle() && frame.len() >= FRAME_HEADER_LEN && frame[0]
            == CONTINUATION_FRAME),
    ensures
        add_frame_spec(b, frame) == Err::<BuilderView, BuilderError>(
            if b.complete() {
                BuilderError::AlreadyComplete
            } else {
                BuilderError::MissingStart
            },
        ),
        after_frame(b, frame) == idle(),
        feed(after_frame(b, frame), frames_spec(next)) == Ok::<BuilderView, BuilderError>(
            BuilderView { frames_expected: 0, frames_received: frames_spec(next) },
        ),
        assemble(frames_spec(next)) == next,
{
    lemma_reassemble_split(next);
}

} // verus!
