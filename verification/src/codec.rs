//! Length-prefixed framing of messages over a byte stream.

use std::marker::PhantomData;
use tokio_util::bytes::BytesMut;
use vstd::bytes::*;
use vstd::prelude::*;
use vstd::slice::*;

verus! {

/// Declares the stream buffer type that frames are read from.
#[verifier::external_type_specification]
#[verifier::external_body]
pub struct ExBytesMut(BytesMut);

/// The bytes a stream buffer currently holds, first byte first.
pub uninterp spec fn buffer_bytes(buf: BytesMut) -> Seq<u8>;

/// `BytesMut::len`: the number of bytes the buffer holds.
#[verifier::external_body]
fn buffer_len(buf: &BytesMut) -> (n: usize)
    ensures
        n == buffer_bytes(*buf).len(),
{
    buf.len()
}

/// `<BytesMut as Deref>::deref` followed by a range index: the bytes from
/// `start` up to `end`.  The index panics outside the held bytes, which the
/// `requires` rules out.
#[verifier::external_body]
fn buffer_range<'a>(buf: &'a BytesMut, start: usize, end: usize) -> (r: &'a [u8])
    requires
        start <= end <= buffer_bytes(*buf).len(),
    ensures
        r@ == buffer_bytes(*buf).subrange(start as int, end as int),
{
    &buf[start..end]
}

/// `<BytesMut as Buf>::advance`: drops the first `count` bytes.  It panics
/// when `count` exceeds the bytes held, which the `requires` rules out.
#[verifier::external_body]
fn buffer_advance(buf: &mut BytesMut, count: usize)
    requires
        count <= buffer_bytes(*old(buf)).len(),
    ensures
        buffer_bytes(*final(buf)) == buffer_bytes(*old(buf)).skip(count as int),
{
    tokio_util::bytes::Buf::advance(buf, count)
}

/// Number of bytes in a frame's length prefix.
pub const PREFIX_LEN: usize = 4;

/// The payload length that the prefix at the front of `buf` announces
/// (a little-endian `u32`).
pub open spec fn declared_len(buf: Seq<u8>) -> nat {
    spec_u32_from_le_bytes(buf.take(4)) as nat
}

/// Whether `buf` starts with a whole frame: a prefix and as many payload bytes
/// as the prefix announces.
pub open spec fn holds_frame(buf: Seq<u8>) -> bool {
    buf.len() >= 4 && buf.len() >= 4 + declared_len(buf)
}

/// The payload of the frame at the front of `buf`.
pub open spec fn frame_payload(buf: Seq<u8>) -> Seq<u8> {
    buf.subrange(4, 4 + declared_len(buf) as int)
}

/// What follows the frame at the front of `buf`.
pub open spec fn after_frame(buf: Seq<u8>) -> Seq<u8> {
    buf.skip(4 + declared_len(buf) as int)
}

/// The frame that carries `payload`: the payload length, cut to 32 bits, as a
/// little-endian `u32`, then the payload.
pub open spec fn frame_of(payload: Seq<u8>) -> Seq<u8> {
    spec_u32_to_le_bytes(payload.len() as u32) + payload
}

/// The room a decoder asks for while it waits for the frame at the front of
/// `buf`: the bytes still missing from that frame once its prefix has
/// arrived, and nothing before.
pub open spec fn wait_room(buf: Seq<u8>) -> nat {
    if buf.len() < 4 {
        0
    } else {
        (4 + declared_len(buf) - buf.len()) as nat
    }
}

/// A frame read back from a stream gives the payload it was written with,
/// whatever follows it, and leaves exactly what follows it: decoding undoes
/// encoding for every payload whose length fits the 32-bit prefix.
pub proof fn lemma_frame_roundtrip(payload: Seq<u8>, rest: Seq<u8>)
    requires
        payload.len() <= u32::MAX,
    ensures
        holds_frame(frame_of(payload) + rest),
        frame_payload(frame_of(payload) + rest) == payload,
        after_frame(frame_of(payload) + rest) == rest,
{
    lemma_auto_spec_u32_to_from_le_bytes();
    let prefix = spec_u32_to_le_bytes(payload.len() as u32);
    let buf = frame_of(payload) + rest;
    assert(buf.take(4) == prefix);
    assert(declared_len(buf) == payload.len());
    assert(frame_payload(buf) == payload);
    assert(after_frame(buf) == rest);
}

/// No strict prefix of a frame holds a whole frame: a decoder that has seen
/// only part of a frame waits for the rest.
pub proof fn lemma_partial_frame_waits(payload: Seq<u8>, seen: int)
    requires
        payload.len() <= u32::MAX,
        0 <= seen < frame_of(payload).len(),
    ensures
        !holds_frame(frame_of(payload).take(seen)),
{
    lemma_auto_spec_u32_to_from_le_bytes();
    let frame = frame_of(payload);
    let part = frame.take(seen);
    if seen >= 4 {
        assert(part.take(4) == frame.take(4));
        assert(frame.take(4) == spec_u32_to_le_bytes(payload.len() as u32));
        assert(declared_len(part) == payload.len());
    }
}

/// A buffer that holds a whole frame is that frame followed by what comes
/// after it: encoding the decoded payload gives back the bytes it was read
/// from.
pub proof fn lemma_frame_split(buf: Seq<u8>)
    requires
        holds_frame(buf),
    ensures
        buf == frame_of(frame_payload(buf)) + after_frame(buf),
{
    lemma_auto_spec_u32_to_from_le_bytes();
    let prefix = buf.take(4);
    assert(prefix.len() == 4);
    assert(frame_payload(buf).len() == declared_len(buf));
    assert(spec_u32_to_le_bytes(spec_u32_from_le_bytes(prefix)) == prefix);
    assert(frame_payload(buf).len() as u32 == spec_u32_from_le_bytes(prefix));
    assert(buf == frame_of(frame_payload(buf)) + after_frame(buf));
}

/// Frames written one after another are read back in the same order: after
/// the first frame is taken, the buffer holds the second one.
pub proof fn lemma_frames_in_order(first: Seq<u8>, second: Seq<u8>, rest: Seq<u8>)
    requires
        first.len() <= u32::MAX,
        second.len() <= u32::MAX,
    ensures
        frame_payload(frame_of(first) + frame_of(second) + rest) == first,
        after_frame(frame_of(first) + frame_of(second) + rest) == frame_of(second) + rest,
        frame_payload(frame_of(second) + rest) == second,
{
    assert(frame_of(first) + frame_of(second) + rest == frame_of(first) + (frame_of(second) + rest));
    lemma_frame_roundtrip(first, frame_of(second) + rest);
    lemma_frame_roundtrip(second, rest);
}

/// The payloads a decoder takes from `buf`, one frame after another, until no
/// whole frame is left; and the bytes it leaves.
pub open spec fn drain(buf: Seq<u8>) -> (Seq<Seq<u8>>, Seq<u8>)
    decreases buf.len(),
{
    if holds_frame(buf) {
        let (taken, left) = drain(after_frame(buf));
        (seq![frame_payload(buf)] + taken, left)
    } else {
        (Seq::empty(), buf)
    }
}

/// A decoder fed `chunks` one at a time, taking every whole frame after each
/// chunk arrives: the payloads taken, in order, and the bytes left.
pub open spec fn feed(chunks: Seq<Seq<u8>>) -> (Seq<Seq<u8>>, Seq<u8>)
    decreases chunks.len(),
{
    if chunks.len() == 0 {
        (Seq::empty(), Seq::empty())
    } else {
        let (taken, left) = feed(chunks.drop_last());
        let (more, rest) = drain(left + chunks.last());
        (taken + more, rest)
    }
}

/// The stream that carries `payloads`: their frames one after another.
pub open spec fn stream_of(payloads: Seq<Seq<u8>>) -> Seq<u8> {
    Seq::new(payloads.len(), |i: int| frame_of(payloads[i])).flatten()
}

/// Bytes arriving after a whole frame do not change that frame.
proof fn lemma_frame_ignores_later_bytes(buf: Seq<u8>, more: Seq<u8>)
    requires
        holds_frame(buf),
    ensures
        holds_frame(buf + more),
        frame_payload(buf + more) == frame_payload(buf),
        after_frame(buf + more) == after_frame(buf) + more,
{
    assert((buf + more).take(4) == buf.take(4));
    assert(frame_payload(buf + more) == frame_payload(buf));
    assert(after_frame(buf + more) == after_frame(buf) + more);
}

/// Draining `buf` and then what is left of it with `more` appended takes the
/// same payloads, and leaves the same bytes, as draining `buf + more` at once.
proof fn lemma_drain_append(buf: Seq<u8>, more: Seq<u8>)
    ensures
        drain(buf + more).0 == drain(buf).0 + drain(drain(buf).1 + more).0,
        drain(buf + more).1 == drain(drain(buf).1 + more).1,
    decreases buf.len(),
{
    if holds_frame(buf) {
        lemma_frame_ignores_later_bytes(buf, more);
        lemma_drain_append(after_frame(buf), more);
        let (taken, left) = drain(after_frame(buf));
        assert(drain(buf).0 == seq![frame_payload(buf)] + taken);
        assert(drain(buf + more).0 == seq![frame_payload(buf)] + drain(after_frame(buf) + more).0);
        assert(seq![frame_payload(buf)] + (taken + drain(left + more).0)
            == seq![frame_payload(buf)] + taken + drain(left + more).0);
    } else {
        assert(drain(buf).0 == Seq::<Seq<u8>>::empty());
        assert(Seq::<Seq<u8>>::empty() + drain(buf + more).0 == drain(buf + more).0);
    }
}

/// How the incoming bytes are split into chunks does not change what a
/// decoder produces: feeding the chunks one at a time, and taking every whole
/// frame after each, gives the same payloads in the same order, and leaves the
/// same bytes, as decoding all the bytes from one buffer.
pub proof fn lemma_chunking_does_not_matter(chunks: Seq<Seq<u8>>)
    ensures
        feed(chunks).0 == drain(chunks.flatten()).0,
        feed(chunks).1 == drain(chunks.flatten()).1,
    decreases chunks.len(),
{
    chunks.lemma_flatten_and_flatten_alt_are_equivalent();
    if chunks.len() > 0 {
        let front = chunks.drop_last();
        lemma_chunking_does_not_matter(front);
        front.lemma_flatten_and_flatten_alt_are_equivalent();
        assert(chunks.flatten_alt() == front.flatten_alt() + chunks.last());
        lemma_drain_append(front.flatten(), chunks.last());
    }
}

/// A stream of frames decodes to exactly the payloads it was written with, in
/// order, and leaves nothing, for payloads whose lengths fit the 32-bit prefix.
pub proof fn lemma_stream_decodes_to_payloads(payloads: Seq<Seq<u8>>)
    requires
        forall|i: int| 0 <= i < payloads.len() ==> #[trigger] payloads[i].len() <= u32::MAX,
    ensures
        drain(stream_of(payloads)).0 == payloads,
        drain(stream_of(payloads)).1 == Seq::<u8>::empty(),
    decreases payloads.len(),
{
    let frames = Seq::new(payloads.len(), |i: int| frame_of(payloads[i]));
    if payloads.len() == 0 {
        assert(frames.flatten() == Seq::<u8>::empty());
        assert(drain(Seq::<u8>::empty()).0 == payloads);
    } else {
        let tail = payloads.drop_first();
        assert forall|i: int| 0 <= i < tail.len() implies #[trigger] tail[i].len() <= u32::MAX by {
            assert(tail[i] == payloads[i + 1]);
        }
        lemma_stream_decodes_to_payloads(tail);
        assert(frames.drop_first() == Seq::new(tail.len(), |i: int| frame_of(tail[i])));
        assert(frames.flatten() == frames.first() + stream_of(tail));
        lemma_frame_roundtrip(payloads[0], stream_of(tail));
        assert(drain(stream_of(payloads)).0 == seq![payloads[0]] + tail);
        assert(seq![payloads[0]] + tail == payloads);
    }
}

/// Splits a byte stream into frames and joins frames into a byte stream.
/// The parameter names the message type the frames carry.
pub struct Codec<M>(PhantomData<M>);

/// What one decoding step found at the front of the buffer.
#[derive(Debug, Clone, PartialEq, Eq)]
pub enum FrameStep {
    /// A whole frame, with this payload; it has been taken off the buffer.
    Frame(Vec<u8>),
    /// No whole frame yet: the buffer is left as it was, and this many more
    /// bytes are needed to complete the frame whose prefix has arrived (0 while
    /// the prefix itself is incomplete).  The caller reserves that room.
    Wait(usize),
}

impl<M> Codec<M> {
    /// A codec for messages of type `M`.
    pub fn new() -> Self {
        Codec(PhantomData)
    }

    /// Takes the frame at the front of `src` and returns its payload.  When
    /// `src` does not yet hold a whole frame, leaves the bytes as they are and
    /// says how much room the rest of the frame needs.
    pub fn decode_frame(&self, src: &mut BytesMut) -> (step: FrameStep)
        ensures
            step is Frame <==> holds_frame(buffer_bytes(*old(src))),
            step matches FrameStep::Frame(payload) ==> {
                &&& payload@ == frame_payload(buffer_bytes(*old(src)))
                &&& buffer_bytes(*final(src)) == after_frame(buffer_bytes(*old(src)))
            },
            step matches FrameStep::Wait(room) ==> {
                &&& room == wait_room(buffer_bytes(*old(src)))
                &&& buffer_bytes(*final(src)) == buffer_bytes(*old(src))
            },
    {
        let available = buffer_len(src);
        if available < PREFIX_LEN {
            return FrameStep::Wait(0);
        }
        let prefix = buffer_range(src, 0, PREFIX_LEN);
        assert(prefix@ == buffer_bytes(*src).take(4));
        let length = u32_from_le_bytes(prefix);
        if (available as u64) < 4 + (length as u64) {
            let room = (4 + (length as u64) - (available as u64)) as usize;
            return FrameStep::Wait(room);
        }
        let end = 4 + length as usize;
        let payload = slice_to_vec(buffer_range(src, PREFIX_LEN, end));
        buffer_advance(src, end);
        FrameStep::Frame(payload)
    }

    /// The frame that carries `payload`, to be appended to the stream.
    pub fn encode_frame(&self, payload: &[u8]) -> (frame: Vec<u8>)
        ensures
            frame@ == frame_of(payload@),
    {
        let mut frame = u32_to_le_bytes(payload.len() as u32);
        let mut i: usize = 0;
        while i < payload.len()
            invariant
                i <= payload@.len(),
                frame@ == spec_u32_to_le_bytes(payload@.len() as u32) + payload@.take(i as int),
            decreases payload.len() - i,
        {
            frame.push(payload[i]);
            i = i + 1;
            assert(payload@.take(i as int) == payload@.take(i - 1) .push(payload@[i - 1]));
        }
        assert(payload@.take(payload@.len() as int) == payload@);
        frame
    }
}

} // verus!
