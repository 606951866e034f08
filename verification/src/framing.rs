//! The length-prefixed framing layer: a growable byte accumulator on the
//! read side, whole-frame writes on the write side, decoupled from the
//! concrete codec by the `Decoder` and `Encoder` traits.
//!
//! The transport is not part of this layer: callers feed the read side with
//! whatever bytes arrived, in chunks of any size, and a message comes out
//! exactly when a full frame has accumulated, however the chunks fell.

use vstd::prelude::*;
use bytes::BytesMut;
use crate::bytesbuf::{bytes_mut_extend_from_slice, bytes_mut_len, bytes_mut_new,
    bytes_mut_split_to_vec, bytes_view};
use crate::transport::{flush_sink, write_sink};

verus! {

/// The failure a decode surfaces: the peer's bytes do not form a
/// well-formed message. Fatal for the connection that produced them.
#[derive(Clone, Copy, Debug, PartialEq, Eq, Structural)]
pub enum CodecError {
    Corrupt,
}

/// What one decode attempt does to a buffer holding the given bytes.
pub enum DecodeStep<V> {
    /// No complete frame yet; nothing may be consumed.
    Incomplete,
    /// A complete frame: the message it denotes and the bytes it occupies.
    Frame(V, int),
    /// A complete frame whose payload is corrupt, occupying the given bytes.
    Malformed(int),
}

/// A decoder of framed messages. `step` fixes, for every buffer content,
/// whether a frame is complete, what it means, and how many bytes it takes;
/// `decode` must act exactly as `step` says, consuming nothing when the
/// frame is incomplete and leaving the decoder itself unchanged.
pub trait Decoder: Sized {
    type Item: View;

    /// What one decode does on a buffer holding `pre`.
    spec fn step(&self, pre: Seq<u8>) -> DecodeStep<<Self::Item as View>::V>;

    /// Decodes one message from the front of `src`, consuming exactly the
    /// frame it returns and nothing on an incomplete frame.
    fn decode(&mut self, src: &mut BytesMut) -> (r: Result<Option<Self::Item>, CodecError>)
        ensures
            *final(self) == *old(self),
            (match old(self).step(bytes_view(*old(src))) {
                DecodeStep::Incomplete => r matches Ok(m) && m is None && bytes_view(*final(src))
                    == bytes_view(*old(src)),
                DecodeStep::Frame(v, n) => (r matches Ok(m) && m matches Some(item) && item@ == v)
                    && bytes_view(*final(src)) == bytes_view(*old(src)).skip(n),
                DecodeStep::Malformed(n) => r is Err && bytes_view(*final(src)) == bytes_view(
                    *old(src)).skip(n),
            }),
    ;
}

/// An encoder of framed messages. `encoding` fixes the bytes every item
/// frames to; `encode` appends exactly those bytes.
pub trait Encoder: Sized {
    type Item;

    /// The frame an item encodes to.
    spec fn encoding(&self, item: Self::Item) -> Seq<u8>;

    /// When an item fits the frame format's limits.
    spec fn encodable(&self, item: Self::Item) -> bool;

    /// Appends the item's frame to `dst`, leaving the encoder unchanged.
    fn encode(&mut self, item: Self::Item, dst: &mut BytesMut) -> (r: Result<(), CodecError>)
        requires
            old(self).encodable(item),
        ensures
            *final(self) == *old(self),
            r is Ok,
            bytes_view(*final(dst)) == bytes_view(*old(dst)) + old(self).encoding(item),
    ;
}

/// The read side: an accumulator that turns arbitrarily chunked bytes into
/// framed messages. The transport loop feeds it and asks for the next
/// message; no message comes out of a partially buffered frame.
pub struct FramedRead<U> {
    codec: U,
    read_frame: BytesMut,
}

impl<U: Decoder> FramedRead<U> {
    /// The bytes fed but not yet consumed by a decoded frame.
    pub closed spec fn buffered(&self) -> Seq<u8> {
        bytes_view(self.read_frame)
    }

    /// The decoder in use.
    pub closed spec fn decoder(&self) -> U {
        self.codec
    }

    /// A reader with an empty accumulator.
    pub fn new(codec: U) -> (r: Self)
        ensures
            r.buffered() == Seq::<u8>::empty(),
            r.decoder() == codec,
    {
        FramedRead { codec, read_frame: bytes_mut_new() }
    }

    /// Appends bytes that arrived from the transport, however many they are.
    pub fn feed(&mut self, bytes: &[u8])
        ensures
            final(self).buffered() == old(self).buffered() + bytes@,
            final(self).decoder() == old(self).decoder(),
    {
        bytes_mut_extend_from_slice(&mut self.read_frame, bytes);
    }

    /// Decodes one message if a full frame has accumulated. `Ok(None)` asks
    /// for more bytes and consumes nothing.
    pub fn try_next(&mut self) -> (r: Result<Option<U::Item>, CodecError>)
        ensures
            final(self).decoder() == old(self).decoder(),
            (match old(self).decoder().step(old(self).buffered()) {
                DecodeStep::Incomplete => r matches Ok(m) && m is None && final(self).buffered()
                    == old(self).buffered(),
                DecodeStep::Frame(v, n) => (r matches Ok(m) && m matches Some(item) && item@ == v)
                    && final(self).buffered() == old(self).buffered().skip(n),
                DecodeStep::Malformed(n) => r is Err && final(self).buffered() == old(
                    self).buffered().skip(n),
            }),
    {
        self.codec.decode(&mut self.read_frame)
    }
}

/// The write side: each message is encoded into a fresh buffer, written to
/// the sink in full, and flushed, so a half-sent frame never stays behind.
pub struct FramedWrite<U, W> {
    inner: W,
    codec: U,
}

impl<U, W> FramedWrite<U, W> {
    /// The encoder in use.
    pub closed spec fn encoder(&self) -> U {
        self.codec
    }

    /// A writer over the given sink.
    pub fn new(inner: W, codec: U) -> (r: Self)
        ensures
            r.encoder() == codec,
    {
        FramedWrite { inner, codec }
    }
}

impl<U: Encoder, W: std::io::Write> FramedWrite<U, W> {
    /// Encodes the item and hands the whole frame to the sink, flushing it
    /// before returning. Sink errors come back unchanged.
    pub fn send(&mut self, item: U::Item) -> (r: Result<(), std::io::Error>)
        requires
            old(self).encoder().encodable(item),
        ensures
            final(self).encoder() == old(self).encoder(),
    {
        let mut dst = bytes_mut_new();
        let _ = self.codec.encode(item, &mut dst);
        let len = bytes_mut_len(&dst);
        let frame = bytes_mut_split_to_vec(&mut dst, len);
        write_sink(&mut self.inner, frame.as_slice())?;
        flush_sink(&mut self.inner)
    }
}

} // verus!
