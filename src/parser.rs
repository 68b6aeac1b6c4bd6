//! Incremental parsing of the inbound byte stream: bytes are appended as the
//! socket delivers them, and each complete frame at the front is taken off.
use bytes::Buf;
use bytes::BytesMut;
use vstd::prelude::*;
use vstd::slice::slice_to_vec;

use crate::frame::{
    lemma_classification_stable, lemma_round_trip, encode, ACK_BYTE, ERR_BYTE, frame_at, frame_len, get_frame, Frame, FrameAck, FrameError, FrameMessage, FrameModel, Message};

verus! {

#[verifier::external_type_specification]
#[verifier::external_body]
pub struct ExBytesMut(BytesMut);

/// The bytes that a `BytesMut` holds, in order.
pub uninterp spec fn buffered(b: BytesMut) -> Seq<u8>;

/// Relies on `BytesMut::with_capacity`: a buffer that holds no bytes.
#[verifier::external_body]
fn buffer_with_capacity(capacity: usize) -> (r: BytesMut)
    ensures
        buffered(r) == Seq::<u8>::empty(),
{
    BytesMut::with_capacity(capacity)
}

/// Relies on `BytesMut::extend_from_slice`: the bytes are appended.
#[verifier::external_body]
fn buffer_append(b: &mut BytesMut, more: &[u8])
    ensures
        buffered(*final(b)) == buffered(*old(b)) + more@,
{
    b.extend_from_slice(more)
}

/// Relies on `<BytesMut as Buf>::advance`: the first `n` bytes are dropped;
/// it panics past the end, which `requires` rules out.
#[verifier::external_body]
fn buffer_advance(b: &mut BytesMut, n: usize)
    requires
        n <= buffered(*old(b)).len(),
    ensures
        buffered(*final(b)) == buffered(*old(b)).subrange(n as int, buffered(*old(b)).len() as int),
{
    b.advance(n)
}

/// Relies on `<BytesMut as Deref>::deref`: the held bytes as a slice.
#[verifier::external_body]
fn buffer_bytes(b: &BytesMut) -> (r: &[u8])
    ensures
        r@ == buffered(*b),
{
    &b[..]
}

/// Initial capacity of the receive buffer.
pub const BUFFER_CAPACITY: usize = 4096;

/// The frames at the front of `s`, taken off one after the other until what
/// is left is incomplete, and what is left.
pub open spec fn drain(s: Seq<u8>) -> (Seq<FrameModel>, Seq<u8>)
    decreases s.len(),
{
    match frame_len(s) {
        Some(n) => {
            let (fs, rest) = drain(s.subrange(n as int, s.len() as int));
            (seq![frame_at(s)] + fs, rest)
        },
        None => (Seq::empty(), s),
    }
}

/// Feeding the chunks one after the other from `pending`, and draining the
/// frames after each: the frames in the order they came, and what is left.
pub open spec fn feed(pending: Seq<u8>, chunks: Seq<Seq<u8>>) -> (Seq<FrameModel>, Seq<u8>)
    decreases chunks.len(),
{
    if chunks.len() == 0 {
        (Seq::empty(), pending)
    } else {
        let (fs, rest) = drain(pending + chunks[0]);
        let (gs, last) = feed(rest, chunks.drop_first());
        (fs + gs, last)
    }
}

/// The mathematical values of a sequence of frames.
pub open spec fn models(frames: Seq<Frame>) -> Seq<FrameModel> {
    frames.map_values(|f: Frame| f.model())
}

/// The receive side's buffer of bytes not yet taken off as frames.
pub struct FrameParser {
    buffer: BytesMut,
}

impl View for FrameParser {
    type V = Seq<u8>;

    closed spec fn view(&self) -> Seq<u8> {
        buffered(self.buffer)
    }
}

impl FrameParser {
    pub fn new() -> (r: FrameParser)
        ensures
            r@ == Seq::<u8>::empty(),
    {
        FrameParser { buffer: buffer_with_capacity(BUFFER_CAPACITY) }
    }

    /// Appends bytes read from the socket.
    pub fn extend(&mut self, bytes: &[u8])
        ensures
            final(self)@ == old(self)@ + bytes@,
    {
        buffer_append(&mut self.buffer, bytes)
    }

    /// Takes the complete frame at the front off the buffer, if there is one;
    /// otherwise leaves the buffer as it is.
    pub fn parse_frame(&mut self) -> (r: Option<Frame>)
        ensures
            match frame_len(old(self)@) {
                Some(n) => {
                    &&& r matches Some(f) && f.model() == frame_at(old(self)@)
                    &&& final(self)@ == old(self)@.subrange(n as int, old(self)@.len() as int)
                },
                None => r is None && final(self)@ == old(self)@,
            },
    {
        let src = buffer_bytes(&self.buffer);
        match Frame::check(src) {
            Some(len) => {
                let frame = if src[0] == ACK_BYTE {
                    Frame::new(Message::ACK(FrameAck {}))
                } else if src[0] == ERR_BYTE {
                    Frame::new(Message::ERR(FrameError { error: src[1] }))
                } else {
                    let bytes = get_frame(src, len);
                    Frame::new(Message::MSG(FrameMessage { buffer: slice_to_vec(bytes) }))
                };
                buffer_advance(&mut self.buffer, len);
                Some(frame)
            },
            None => None,
        }
    }

    /// Takes off every complete frame, in order, leaving an incomplete rest.
    pub fn drain_frames(&mut self) -> (r: Vec<Frame>)
        ensures
            models(r@) == drain(old(self)@).0,
            final(self)@ == drain(old(self)@).1,
    {
        let mut out: Vec<Frame> = Vec::new();
        loop
            invariant
                drain(old(self)@).0 == models(out@) + drain(self@).0,
                drain(old(self)@).1 == drain(self@).1,
            decreases self@.len(),
        {
            let ghost before = self@;
            match self.parse_frame() {
                Some(f) => {
                    proof {
                        assert(models(out@.push(f)) =~= models(out@) + seq![f.model()]);
                        assert(models(out@) + drain(before).0 =~= models(out@.push(f)) + drain(self@).0);
                    }
                    out.push(f);
                },
                None => {
                    assert(models(out@) + drain(self@).0 =~= models(out@));
                    return out;
                },
            }
        }
    }

    /// Appends one read's bytes and takes off every frame now complete.
    pub fn receive(&mut self, bytes: &[u8]) -> (r: Vec<Frame>)
        ensures
            models(r@) == drain(old(self)@ + bytes@).0,
            final(self)@ == drain(old(self)@ + bytes@).1,
    {
        self.extend(bytes);
        self.drain_frames()
    }
}

/// Draining `a` and then the rest followed by `b` takes off the same frames,
/// and leaves the same rest, as draining `a` and `b` together.
pub proof fn lemma_drain_split(a: Seq<u8>, b: Seq<u8>)
    ensures
        drain(a + b).0 == drain(a).0 + drain(drain(a).1 + b).0,
        drain(a + b).1 == drain(drain(a).1 + b).1,
    decreases a.len(),
{
    match frame_len(a) {
        Some(n) => {
            lemma_classification_stable(a, b);
            let tail = a.subrange(n as int, a.len() as int);
            assert((a + b).subrange(n as int, (a + b).len() as int) =~= tail + b);
            lemma_drain_split(tail, b);
            assert(drain(a + b).0 =~= drain(a).0 + drain(drain(a).1 + b).0);
        },
        None => {
            assert(drain(a).0 + drain(drain(a).1 + b).0 =~= drain(a + b).0);
        },
    }
}

/// What draining leaves holds no complete frame.
pub proof fn lemma_drain_rest_incomplete(s: Seq<u8>)
    ensures
        frame_len(drain(s).1) is None,
    decreases s.len(),
{
    if let Some(n) = frame_len(s) {
        lemma_drain_rest_incomplete(s.subrange(n as int, s.len() as int));
    }
}

/// Parsing does not depend on how reads cut the stream: from a buffer that
/// the last drain left (the empty one included), feeding the chunks one read
/// at a time, draining after each, yields the same frames in the same order,
/// and leaves the same bytes, as feeding them all in one read.
pub proof fn lemma_read_granularity(pending: Seq<u8>, chunks: Seq<Seq<u8>>)
    requires
        frame_len(pending) is None,
    ensures
        feed(pending, chunks) == drain(pending + chunks.flatten()),
    decreases chunks.len(),
{
    if chunks.len() == 0 {
        assert(pending + chunks.flatten() =~= pending);
    } else {
        let rest = drain(pending + chunks[0]).1;
        let later = chunks.drop_first();
        lemma_drain_rest_incomplete(pending + chunks[0]);
        lemma_read_granularity(rest, later);
        lemma_drain_split(pending + chunks[0], later.flatten());
        assert(chunks.flatten() == chunks[0] + later.flatten());
        assert(pending + chunks.flatten() =~= (pending + chunks[0]) + later.flatten());
        let whole = drain(pending + chunks.flatten());
        assert(whole.0 == drain(pending + chunks[0]).0 + feed(rest, later).0);
        assert(whole.1 == feed(rest, later).1);
    }
}

/// An encoded command frame, received on its own, is taken off whole as one
/// message frame of exactly its bytes, and nothing is left.
pub proof fn lemma_encoded_frame_received(cmd: Seq<u8>, data: Seq<u8>, value: Seq<u8>)
    requires
        cmd.len() == 2,
        cmd.len() + data.len() + value.len() <= 255,
    ensures
        drain(encode(cmd, data, value)).0 == seq![FrameModel::Msg(encode(cmd, data, value))],
        drain(encode(cmd, data, value)).1 == Seq::<u8>::empty(),
{
    let e = encode(cmd, data, value);
    lemma_round_trip(cmd, data, value);
    let tail = e.subrange(e.len() as int, e.len() as int);
    assert(tail =~= Seq::<u8>::empty());
    assert(frame_len(tail) is None);
    assert(drain(tail) == (Seq::<FrameModel>::empty(), tail));
    assert(drain(e).0 =~= seq![FrameModel::Msg(e)]);
}

} // verus!
