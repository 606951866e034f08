//! Client-side implementation of the SlimProto control protocol: the binary
//! message codec, the length-prefixed framing layer, the UDP discovery TLV
//! format, the capability list sent at handshake, and the status accumulator.
//!
//! The transport itself stays outside: callers bring the sockets and feed
//! bytes in and out; this crate fixes, and proves, what the bytes mean.

pub mod buffer;
pub mod bytesbuf;
pub mod capability;
pub mod codec;
pub mod discovery;
pub mod framing;
pub mod proto;
pub mod socketreader;
pub mod status;
pub mod transport;
pub mod wire;

pub use capability::{Capabilities, Capability};
pub use codec::SlimCodec;
pub use framing::{Decoder, Encoder, FramedRead, FramedWrite};
pub use proto::{ClientMessage, Server, ServerMessage, ServerTlv, ServerTlvMap};
pub use status::{StatusCode, StatusData};
