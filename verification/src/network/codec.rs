//! Codec for encoding and decoding Celeborn messages.
//!
//! Celeborn frame format:
//! ```text
//! +------------+----------+------------+------------------+---------------+
//! | msgSize    | msgType  | bodySize   | message content  | body (opt)    |
//! | (4 bytes)  | (1 byte) | (4 bytes)  | (msgSize bytes)  | (bodySize B)  |
//! +------------+----------+------------+------------------+---------------+
//! ```
//!
//! - msgSize: length of message content (not including header)
//! - msgType: message type ID (1 byte)
//! - bodySize: length of optional body data
//! - message content: encoded message fields
//! - body: optional body data (e.g., protobuf payload for RPC)

use bytes::{Bytes, BytesMut};
use vstd::prelude::*;
use vstd::string::*;

use crate::buffers;
use crate::error::{IoError, IoErrorKind};
use crate::protocol::message;
use crate::protocol::message::MessageType;
use crate::protocol::Outcome;
use crate::text;
use crate::wire;

verus! {

broadcast use wire::lemma_be_len;

/// Header size: msgSize (4) + msgType (1) + bodySize (4) = 9 bytes
pub const HEADER_SIZE: usize = 9;

/// Maximum frame size (2GB - reasonable limit).
pub const MAX_FRAME_SIZE: usize = 2 * 1024 * 1024 * 1024;

/// A frame containing a message type, message content, and optional body.
#[derive(Debug)]
pub struct Frame {
    /// Message type
    pub message_type: MessageType,
    /// Message content (encoded message fields, excluding body)
    pub message: Bytes,
    /// Optional body data
    pub body: Bytes,
}

/// What a frame says.
pub struct FrameModel {
    pub message_type: MessageType,
    pub message: Seq<u8>,
    pub body: Seq<u8>,
}

impl View for Frame {
    type V = FrameModel;

    open spec fn view(&self) -> FrameModel {
        FrameModel {
            message_type: self.message_type,
            message: buffers::octets(self.message),
            body: buffers::octets(self.body),
        }
    }
}

impl Clone for Frame {
    fn clone(&self) -> (r: Self)
        ensures
            r@ == self@,
    {
        Frame {
            message_type: self.message_type,
            message: buffers::bytes_clone(&self.message),
            body: buffers::bytes_clone(&self.body),
        }
    }
}

/// The size of a frame with its header.
pub open spec fn frame_size(f: FrameModel) -> int {
    9 + f.message.len() as int + f.body.len()
}

/// The bytes of a frame.
pub open spec fn frame_wire(f: FrameModel) -> Seq<u8> {
    wire::be(f.message.len(), 4) + seq![message::type_code(f.message_type)] + wire::be(f.body.len(), 4)
        + f.message + f.body
}

/// The text for a frame of `size` bytes that exceeds the limit.
pub open spec fn too_large_text(size: nat) -> Seq<char> {
    "Frame too large: "@ + text::nat_text(size) + " bytes (max: "@ + text::nat_text(
        MAX_FRAME_SIZE as nat,
    ) + ")"@
}

/// The error for a frame of `size` bytes that exceeds the limit.
fn too_large(size: u64) -> (e: IoError)
    ensures
        e.kind is InvalidData,
        e.message@ == too_large_text(size as nat),
{
    let mut m: String = String::from_str("Frame too large: ");
    text::append_u64(&mut m, size);
    m.append(" bytes (max: ");
    text::append_u64(&mut m, MAX_FRAME_SIZE as u64);
    m.append(")");
    IoError { kind: IoErrorKind::InvalidData, message: m }
}

impl Frame {
    /// Create a new frame with message content only (no body).
    pub fn new(message_type: MessageType, message: Bytes) -> (r: Self)
        ensures
            r@ == (FrameModel {
                message_type,
                message: buffers::octets(message),
                body: Seq::<u8>::empty(),
            }),
    {
        Frame { message_type, message, body: buffers::bytes_new() }
    }

    /// Create a new frame with message content and body.
    pub fn with_body(message_type: MessageType, message: Bytes, body: Bytes) -> (r: Self)
        ensures
            r == (Frame { message_type, message, body }),
    {
        Frame { message_type, message, body }
    }

    /// Get the total frame size (header + message + body).
    pub fn total_size(&self) -> (r: usize)
        requires
            frame_size(self@) <= usize::MAX,
        ensures
            r == frame_size(self@),
    {
        HEADER_SIZE + buffers::bytes_len(&self.message) + buffers::bytes_len(&self.body)
    }
}

/// The header of a frame whose content has not arrived in full.
#[derive(Debug, Clone, Copy)]
pub struct PendingHeader {
    /// Message size (from header)
    pub msg_size: usize,
    /// Message type (from header)
    pub msg_type: MessageType,
    /// Body size (from header)
    pub body_size: usize,
}

/// Decoder state for parsing Celeborn frames.
pub type DecoderState = Option<PendingHeader>;

/// Codec for Celeborn message framing.
#[derive(Debug)]
pub struct CelebornCodec {
    /// Current decoder state
    pub state: DecoderState,
}

impl Default for CelebornCodec {
    fn default() -> (r: Self)
        ensures
            r.state is None,
    {
        CelebornCodec { state: None }
    }
}

/// How a decoding step ends: the state and the bytes that it leaves, and what came out.
pub struct Step {
    pub state: DecoderState,
    pub rest: Seq<u8>,
    pub outcome: Outcome<Option<FrameModel>>,
}

/// The header in the first nine bytes of `s`.
pub open spec fn header_at(s: Seq<u8>) -> PendingHeader {
    PendingHeader {
        msg_size: wire::u32_at(s) as usize,
        msg_type: message::type_of(s[4]),
        body_size: wire::u32_at(s.skip(5)) as usize,
    }
}

/// Decoding the content behind a header: it waits until the content is complete.
pub open spec fn finish_frame(h: PendingHeader, s: Seq<u8>) -> Step {
    if s.len() < h.msg_size + h.body_size {
        Step { state: Some(h), rest: s, outcome: Outcome::Done(None) }
    } else {
        Step {
            state: None,
            rest: s.skip(h.msg_size + h.body_size),
            outcome: Outcome::Done(
                Some(
                    FrameModel {
                        message_type: h.msg_type,
                        message: s.take(h.msg_size as int),
                        body: s.subrange(h.msg_size as int, h.msg_size + h.body_size),
                    },
                ),
            ),
        }
    }
}

/// A decoding step on the bytes `s`. A header that announces too much is taken off and
/// reported.
pub open spec fn decode_step(state: DecoderState, s: Seq<u8>) -> Step {
    match state {
        Some(h) => finish_frame(h, s),
        None => {
            if s.len() < 9 {
                Step { state: None, rest: s, outcome: Outcome::Done(None) }
            } else {
                let h = header_at(s);
                if h.msg_size + h.body_size > MAX_FRAME_SIZE {
                    Step {
                        state: None,
                        rest: s.skip(9),
                        outcome: Outcome::Fault(
                            IoErrorKind::InvalidData,
                            too_large_text((h.msg_size + h.body_size) as nat),
                        ),
                    }
                } else {
                    finish_frame(h, s.skip(9))
                }
            }
        },
    }
}

/// Whether `r` is the result of the step.
pub open spec fn step_result(
    r: std::result::Result<Option<Frame>, IoError>,
    outcome: Outcome<Option<FrameModel>>,
) -> bool {
    match outcome {
        Outcome::Done(None) => r matches Ok(None),
        Outcome::Done(Some(f)) => r matches Ok(Some(g)) && g@ == f,
        Outcome::Fault(kind, m) => r matches Err(e) && e.kind == kind && e.message@ == m,
    }
}

impl CelebornCodec {
    /// The frame that is being waited for is within the limit.
    pub open spec fn wf(&self) -> bool {
        match self.state {
            Some(h) => h.msg_size + h.body_size <= MAX_FRAME_SIZE,
            None => true,
        }
    }

    /// Create a new codec.
    pub fn new() -> (r: Self)
        ensures
            r.state is None,
            r.wf(),
    {
        CelebornCodec { state: None }
    }

    /// Reset decoder state.
    pub fn reset_state(&mut self)
        ensures
            final(self).state is None,
    {
        self.state = None;
    }

    /// Takes a frame off the buffer, where a complete one has arrived.
    pub fn decode(&mut self, src: &mut BytesMut) -> (r: std::result::Result<Option<Frame>, IoError>)
        requires
            old(self).wf(),
        ensures
            final(self).wf(),
            ({
                let step = decode_step(old(self).state, buffers::buffered(*old(src)));
                &&& final(self).state == step.state
                &&& buffers::buffered(*final(src)) == step.rest
                &&& step_result(r, step.outcome)
            }),
    {
        let ghost s0 = buffers::buffered(*src);
        let header: PendingHeader = match self.state {
            Some(h) => h,
            None => {
                if buffers::buffer_len(src) < HEADER_SIZE {
                    return Ok(None);
                }
                let msg_size: usize = buffers::buffer_get_u32(src) as usize;
                assert(s0.skip(4)[0] == s0[4]);
                let msg_type_id: u8 = buffers::buffer_get_u8(src);
                assert(buffers::buffered(*src) =~= s0.skip(5));
                let body_size: usize = buffers::buffer_get_u32(src) as usize;
                assert(buffers::buffered(*src) =~= s0.skip(9));
                let total: u64 = msg_size as u64 + body_size as u64;
                if total > MAX_FRAME_SIZE as u64 {
                    return Err(too_large(total));
                }
                PendingHeader { msg_size, msg_type: MessageType::from(msg_type_id), body_size }
            },
        };
        self.state = Some(header);
        let ghost s1 = buffers::buffered(*src);
        assert(decode_step(old(self).state, s0) == finish_frame(header, s1));
        let total: usize = header.msg_size + header.body_size;
        let have: usize = buffers::buffer_len(src);
        if have < total {
            if total <= isize::MAX as usize {
                buffers::buffer_reserve(src, total - have);
            }
            return Ok(None);
        }
        let message: Bytes = buffers::buffer_freeze(buffers::buffer_split_to(src, header.msg_size));
        let body: Bytes = if header.body_size > 0 {
            buffers::buffer_freeze(buffers::buffer_split_to(src, header.body_size))
        } else {
            buffers::bytes_new()
        };
        assert(buffers::octets(body) =~= s1.subrange(header.msg_size as int, total as int));
        assert(buffers::buffered(*src) =~= s1.skip(total as int));
        self.reset_state();
        Ok(Some(Frame { message_type: header.msg_type, message, body }))
    }

    /// Appends a frame to the buffer. A frame above the limit is refused, and the buffer
    /// stays as it is.
    pub fn encode(&mut self, item: Frame, dst: &mut BytesMut) -> (r: std::result::Result<(), IoError>)
        requires
            frame_size(item@) <= usize::MAX,
            buffers::has_room(buffers::buffered(*old(dst)), frame_size(item@)),
        ensures
            final(self).state == old(self).state,
            if frame_size(item@) > MAX_FRAME_SIZE {
                &&& r matches Err(e) && e.kind is InvalidData && e.message@ == too_large_text(
                    frame_size(item@) as nat,
                )
                &&& buffers::buffered(*final(dst)) == buffers::buffered(*old(dst))
            } else {
                &&& r is Ok
                &&& buffers::buffered(*final(dst)) == buffers::buffered(*old(dst)) + frame_wire(item@)
            },
    {
        let msg_size: usize = buffers::bytes_len(&item.message);
        let body_size: usize = buffers::bytes_len(&item.body);
        let total_size: usize = HEADER_SIZE + msg_size + body_size;
        if total_size > MAX_FRAME_SIZE {
            return Err(too_large(total_size as u64));
        }
        buffers::buffer_reserve(dst, total_size);
        buffers::put_u32(dst, msg_size as u32);
        buffers::put_u8(dst, item.message_type.code());
        buffers::put_u32(dst, body_size as u32);
        buffers::put_slice(dst, buffers::bytes_as_slice(&item.message));
        if body_size > 0 {
            buffers::put_slice(dst, buffers::bytes_as_slice(&item.body));
        }
        assert(buffers::buffered(*dst) =~= buffers::buffered(*old(dst)) + frame_wire(item@));
        Ok(())
    }
}

/// An encoded frame is decoded to itself, and what follows it is left over.
pub proof fn law_frame_round_trip(f: FrameModel, tail: Seq<u8>)
    requires
        frame_size(f) <= MAX_FRAME_SIZE,
    ensures
        decode_step(None, frame_wire(f) + tail) == (Step {
            state: None,
            rest: tail,
            outcome: Outcome::Done(Some(f)),
        }),
{
    let s = frame_wire(f) + tail;
    let m = f.message.len() as int;
    let b = f.body.len() as int;
    wire::lemma_limits();
    wire::lemma_be_round_trip(m as nat, 4);
    wire::lemma_be_round_trip(b as nat, 4);
    assert(s.take(4) =~= wire::be(m as nat, 4));
    assert(s.skip(5).take(4) =~= wire::be(b as nat, 4));
    assert(s[4] == message::type_code(f.message_type));
    message::law_type_round_trip(f.message_type);
    let t = s.skip(9);
    assert(t =~= f.message + f.body + tail);
    assert(t.take(m) =~= f.message);
    assert(t.subrange(m, m + b) =~= f.body);
    assert(t.skip(m + b) =~= tail);
}

/// Bytes may arrive in pieces: where a first piece gives no frame yet, going on with
/// what it left and the second piece is the same as decoding both pieces at once.
pub proof fn law_frame_in_pieces(state: DecoderState, first: Seq<u8>, second: Seq<u8>)
    requires
        decode_step(state, first).outcome == Outcome::<Option<FrameModel>>::Done(None),
    ensures
        decode_step(decode_step(state, first).state, decode_step(state, first).rest + second)
            == decode_step(state, first + second),
{
    match state {
        Some(h) => {},
        None => {
            if first.len() >= 9 {
                let all = first + second;
                assert(all.take(4) =~= first.take(4));
                assert(all.skip(5).take(4) =~= first.skip(5).take(4));
                assert(all.skip(9) =~= first.skip(9) + second);
            }
        },
    }
}

/// The bytes of frames, one after the other.
pub open spec fn frames_wire(fs: Seq<FrameModel>) -> Seq<u8>
    decreases fs.len(),
{
    if fs.len() == 0 {
        Seq::empty()
    } else {
        frame_wire(fs[0]) + frames_wire(fs.drop_first())
    }
}

/// How many of the frames are complete in the first `n` of their bytes.
pub open spec fn complete_frames(fs: Seq<FrameModel>, n: int) -> nat
    decreases fs.len(),
{
    if fs.len() == 0 || n < frame_size(fs[0]) {
        0
    } else {
        1 + complete_frames(fs.drop_first(), n - frame_size(fs[0]))
    }
}

/// What a codec has given, and what it waits with.
pub struct Received {
    pub state: DecoderState,
    pub rest: Seq<u8>,
    pub frames: Seq<FrameModel>,
    pub failed: bool,
}

/// Decoding again and again, until no frame is complete.
pub open spec fn drained(state: DecoderState, s: Seq<u8>) -> Received
    decreases
            s.len(),
            (if state is Some {
                1int
            } else {
                0int
            }),
{
    let step = decode_step(state, s);
    match step.outcome {
        Outcome::Done(None) => Received {
            state: step.state,
            rest: step.rest,
            frames: Seq::empty(),
            failed: false,
        },
        Outcome::Done(Some(f)) => {
            let later = drained(step.state, step.rest);
            Received { frames: seq![f] + later.frames, ..later }
        },
        Outcome::Fault(_, _) => Received {
            state: step.state,
            rest: step.rest,
            frames: Seq::empty(),
            failed: true,
        },
    }
}

/// A new codec that is given bytes piece by piece: behind each piece it decodes until no frame
/// is complete.
pub open spec fn received(pieces: Seq<Seq<u8>>) -> Received
    decreases pieces.len(),
{
    if pieces.len() == 0 {
        Received { state: None, rest: Seq::empty(), frames: Seq::empty(), failed: false }
    } else {
        let before = received(pieces.drop_last());
        let now = drained(before.state, before.rest + pieces.last());
        Received {
            frames: before.frames + now.frames,
            failed: before.failed || now.failed,
            ..now
        }
    }
}

/// The bytes of the pieces.
pub open spec fn joined(pieces: Seq<Seq<u8>>) -> Seq<u8>
    decreases pieces.len(),
{
    if pieces.len() == 0 {
        Seq::empty()
    } else {
        joined(pieces.drop_last()) + pieces.last()
    }
}

/// A frame that is complete is the same whatever follows it.
proof fn lemma_frame_stays(state: DecoderState, first: Seq<u8>, second: Seq<u8>)
    requires
        decode_step(state, first).outcome matches Outcome::Done(Some(_)),
    ensures
        decode_step(state, first + second) == (Step {
            rest: decode_step(state, first).rest + second,
            ..decode_step(state, first)
        }),
{
    let all = first + second;
    let (h, a) = match state {
        Some(h) => (h, first),
        None => (header_at(first), first.skip(9)),
    };
    if state is None {
        assert(all.take(4) =~= first.take(4));
        assert(all.skip(5).take(4) =~= first.skip(5).take(4));
        assert(all.skip(9) =~= a + second);
    }
    let m = h.msg_size as int;
    let n = h.msg_size + h.body_size;
    assert((a + second).take(m) =~= a.take(m));
    assert((a + second).subrange(m, n) =~= a.subrange(m, n));
    assert((a + second).skip(n) =~= a.skip(n) + second);
}

/// Decoding a first piece as far as it goes, and then the second, is decoding both at once.
proof fn lemma_drained_in_pieces(state: DecoderState, first: Seq<u8>, second: Seq<u8>)
    requires
        !drained(state, first).failed,
    ensures
        ({
            let a = drained(state, first);
            let b = drained(a.state, a.rest + second);
            drained(state, first + second) == (Received { frames: a.frames + b.frames, ..b })
        }),
    decreases
            first.len(),
            (if state is Some {
                1int
            } else {
                0int
            }),
{
    let step = decode_step(state, first);
    let a = drained(state, first);
    let b = drained(a.state, a.rest + second);
    match step.outcome {
        Outcome::Done(None) => {
            law_frame_in_pieces(state, first, second);
            assert(drained(state, first + second) == b);
            assert(a.frames + b.frames =~= b.frames);
        },
        Outcome::Done(Some(f)) => {
            lemma_frame_stays(state, first, second);
            lemma_drained_in_pieces(step.state, step.rest, second);
            let later = drained(step.state, step.rest);
            assert(seq![f] + (later.frames + b.frames) =~= a.frames + b.frames);
        },
        Outcome::Fault(_, _) => {},
    }
}

/// A frame that is not complete is waited for.
proof fn lemma_incomplete_frame_waits(f: FrameModel, tail: Seq<u8>, n: int)
    requires
        frame_size(f) <= MAX_FRAME_SIZE,
        0 <= n < frame_size(f),
    ensures
        decode_step(None, (frame_wire(f) + tail).take(n)).outcome == Outcome::<
            Option<FrameModel>,
        >::Done(None),
{
    let s = frame_wire(f) + tail;
    let cut = s.take(n);
    if n >= 9 {
        wire::lemma_limits();
        wire::lemma_be_round_trip(f.message.len(), 4);
        wire::lemma_be_round_trip(f.body.len(), 4);
        assert(cut.take(4) =~= wire::be(f.message.len(), 4));
        assert(cut.skip(5).take(4) =~= wire::be(f.body.len(), 4));
    }
}

/// Of the first bytes of frames the complete ones are decoded.
proof fn lemma_drained_frames(fs: Seq<FrameModel>, n: int)
    requires
        forall|i: int| 0 <= i < fs.len() ==> frame_size(#[trigger] fs[i]) <= MAX_FRAME_SIZE,
        0 <= n <= frames_wire(fs).len(),
    ensures
        ({
            let r = drained(None, frames_wire(fs).take(n));
            &&& r.frames == fs.take(complete_frames(fs, n) as int)
            &&& !r.failed
            &&& n == frames_wire(fs).len() ==> r.frames == fs && r.rest == Seq::<u8>::empty()
                && r.state is None
        }),
    decreases fs.len(),
{
    let s = frames_wire(fs).take(n);
    if fs.len() == 0 {
        assert(fs.take(0) =~= fs);
        assert(s =~= Seq::<u8>::empty());
    } else {
        let f = fs[0];
        let later = fs.drop_first();
        let tail = frames_wire(later);
        let size = frame_size(f);
        assert(frame_wire(f).len() == size);
        if n < size {
            lemma_incomplete_frame_waits(f, tail, n);
            assert(fs.take(0) =~= Seq::<FrameModel>::empty());
        } else {
            let rest = tail.take(n - size);
            assert(s =~= frame_wire(f) + rest);
            law_frame_round_trip(f, rest);
            assert forall|i: int| 0 <= i < later.len() implies frame_size(#[trigger] later[i])
                <= MAX_FRAME_SIZE by {
                assert(later[i] == fs[i + 1]);
            }
            lemma_drained_frames(later, n - size);
            let k = complete_frames(later, n - size) as int;
            lemma_complete_within(later, n - size);
            assert(seq![f] + later.take(k) =~= fs.take(1 + k));
            assert(seq![f] + later =~= fs);
        }
    }
}

proof fn lemma_complete_within(fs: Seq<FrameModel>, n: int)
    ensures
        complete_frames(fs, n) <= fs.len(),
    decreases fs.len(),
{
    if fs.len() > 0 && n >= frame_size(fs[0]) {
        lemma_complete_within(fs.drop_first(), n - frame_size(fs[0]));
    }
}

/// However the bytes of frames are cut into pieces, a new codec gives the frames in their
/// order. After some of the bytes it has given those frames whose last byte has arrived, and no
/// others; it never fails; and after all bytes it has given all frames, and nothing is left over.
pub proof fn law_frames_in_any_pieces(fs: Seq<FrameModel>, pieces: Seq<Seq<u8>>)
    requires
        forall|i: int| 0 <= i < fs.len() ==> frame_size(#[trigger] fs[i]) <= MAX_FRAME_SIZE,
        joined(pieces).is_prefix_of(frames_wire(fs)),
    ensures
        received(pieces).frames == fs.take(
            complete_frames(fs, joined(pieces).len() as int) as int,
        ),
        !received(pieces).failed,
        joined(pieces) == frames_wire(fs) ==> received(pieces).frames == fs && received(pieces).rest
            == Seq::<u8>::empty() && received(pieces).state is None,
{
    lemma_received_at_once(fs, pieces);
    let n = joined(pieces).len() as int;
    assert(joined(pieces) =~= frames_wire(fs).take(n));
    lemma_drained_frames(fs, n);
}

/// What is received piece by piece is what is received at once.
proof fn lemma_received_at_once(fs: Seq<FrameModel>, pieces: Seq<Seq<u8>>)
    requires
        forall|i: int| 0 <= i < fs.len() ==> frame_size(#[trigger] fs[i]) <= MAX_FRAME_SIZE,
        joined(pieces).is_prefix_of(frames_wire(fs)),
    ensures
        received(pieces) == drained(None, joined(pieces)),
    decreases pieces.len(),
{
    let n = joined(pieces).len() as int;
    assert(joined(pieces) =~= frames_wire(fs).take(n));
    lemma_drained_frames(fs, n);
    if pieces.len() == 0 {
        assert(received(pieces).frames =~= drained(None, joined(pieces)).frames);
    } else {
        let first = joined(pieces.drop_last());
        assert(first =~= frames_wire(fs).take(first.len() as int));
        lemma_received_at_once(fs, pieces.drop_last());
        lemma_drained_frames(fs, first.len() as int);
        lemma_drained_in_pieces(None, first, pieces.last());
    }
}

/// Codec for raw bytes (used for push data).
#[derive(Debug, Clone, Copy)]
pub struct RawBytesCodec;

impl Default for RawBytesCodec {
    fn default() -> (r: Self)
        ensures
            r == RawBytesCodec,
    {
        RawBytesCodec
    }
}

impl RawBytesCodec {
    /// Takes all bytes off the buffer, where there are any.
    pub fn decode(&mut self, src: &mut BytesMut) -> (r: std::result::Result<Option<BytesMut>, IoError>)
        ensures
            buffers::buffered(*final(src)) == Seq::<u8>::empty(),
            if buffers::buffered(*old(src)).len() == 0 {
                r matches Ok(None)
            } else {
                r matches Ok(Some(b)) && buffers::buffered(b) == buffers::buffered(*old(src))
            },
    {
        if buffers::buffer_len(src) == 0 {
            assert(buffers::buffered(*src) =~= Seq::<u8>::empty());
            Ok(None)
        } else {
            Ok(Some(buffers::buffer_split(src)))
        }
    }

    /// Appends the bytes to the buffer.
    pub fn encode(&mut self, item: Bytes, dst: &mut BytesMut) -> (r: std::result::Result<(), IoError>)
        requires
            buffers::has_room(buffers::buffered(*old(dst)), buffers::octets(item).len() as int),
        ensures
            r is Ok,
            buffers::buffered(*final(dst)) == buffers::buffered(*old(dst)) + buffers::octets(item),
    {
        buffers::buffer_reserve(dst, buffers::bytes_len(&item));
        buffers::put_slice(dst, buffers::bytes_as_slice(&item));
        Ok(())
    }
}

} // verus!
