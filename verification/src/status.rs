//! Client status data. The server expects regular status messages from the
//! client; `StatusData` accumulates the counters they carry and
//! `make_status_message` snapshots them into a `Stat` message.
//!
//! Durations are carried as plain milliseconds: `jiffies` is the session
//! uptime in milliseconds and `timestamp` the last server timestamp in
//! milliseconds.

use vstd::prelude::*;
use crate::proto::ClientMessage;

verus! {

/// The counters that a status message reports.
#[derive(Clone, Copy, Debug, PartialEq, Eq, Structural)]
pub struct StatusData {
    pub crlf: u8,
    pub buffer_size: u32,
    pub fullness: u32,
    pub bytes_received: u64,
    pub sig_strength: u16,
    /// Session uptime in milliseconds.
    pub jiffies: u64,
    pub output_buffer_size: u32,
    pub output_buffer_fullness: u32,
    pub elapsed_seconds: u32,
    pub voltage: u16,
    pub elapsed_milliseconds: u32,
    /// Timestamp of the last server status request, in milliseconds.
    pub timestamp: u64,
    pub error_code: u16,
}

impl StatusData {
    /// Adds to the count of CR/LF pairs seen, wrapping on overflow.
    pub fn add_crlf(&mut self, num_crlf: u8)
        ensures
            *final(self) == (StatusData { crlf: ((old(self).crlf + num_crlf) % 0x100) as u8,
                ..*old(self) }),
    {
        self.crlf = self.crlf.wrapping_add(num_crlf);
    }

    /// Sets the input buffer fullness.
    pub fn set_fullness(&mut self, fullness: u32)
        ensures
            *final(self) == (StatusData { fullness, ..*old(self) }),
    {
        self.fullness = fullness;
    }

    /// Adds to the cumulative count of bytes received, wrapping on overflow.
    pub fn add_bytes_received(&mut self, bytes_received: u64)
        ensures
            *final(self) == (StatusData { bytes_received: ((old(self).bytes_received
                + bytes_received) % 0x10000000000000000) as u64, ..*old(self) }),
    {
        self.bytes_received = self.bytes_received.wrapping_add(bytes_received);
    }

    /// Sets the input buffer size.
    pub fn set_buffer_size(&mut self, size: u32)
        ensures
            *final(self) == (StatusData { buffer_size: size, ..*old(self) }),
    {
        self.buffer_size = size;
    }

    /// Sets the server timestamp, in milliseconds.
    pub fn set_timestamp(&mut self, timestamp: u64)
        ensures
            *final(self) == (StatusData { timestamp, ..*old(self) }),
    {
        self.timestamp = timestamp;
    }

    /// Sets the session uptime, in milliseconds. The caller measures the
    /// elapsed wall-clock time; this type only records it.
    pub fn set_jiffies(&mut self, jiffies: u64)
        ensures
            *final(self) == (StatusData { jiffies, ..*old(self) }),
    {
        self.jiffies = jiffies;
    }

    /// Snapshots the current counters into a status message carrying the
    /// given event code.
    pub fn make_status_message(&self, msgtype: StatusCode) -> (r: ClientMessage)
        ensures
            (r matches ClientMessage::Stat { event_code, stat_data } && event_code@
                == status_code_chars(msgtype) && stat_data == *self),
    {
        ClientMessage::Stat { event_code: msgtype.to_text(), stat_data: *self }
    }
}

impl Default for StatusData {
    /// All counters start at zero.
    fn default() -> (r: Self)
        ensures
            r == (StatusData {
                crlf: 0u8,
                buffer_size: 0u32,
                fullness: 0u32,
                bytes_received: 0u64,
                sig_strength: 0u16,
                jiffies: 0u64,
                output_buffer_size: 0u32,
                output_buffer_fullness: 0u32,
                elapsed_seconds: 0u32,
                voltage: 0u16,
                elapsed_milliseconds: 0u32,
                timestamp: 0u64,
                error_code: 0u16,
            }),
    {
        StatusData {
            crlf: 0,
            buffer_size: 0,
            fullness: 0,
            bytes_received: 0,
            sig_strength: 0,
            jiffies: 0,
            output_buffer_size: 0,
            output_buffer_fullness: 0,
            elapsed_seconds: 0,
            voltage: 0,
            elapsed_milliseconds: 0,
            timestamp: 0,
            error_code: 0,
        }
    }
}

/// The reason a status message is sent, carried as its four-character event
/// code.
#[derive(Clone, Copy, Debug, PartialEq, Eq, Structural)]
pub enum StatusCode {
    Connect,
    DecoderReady,
    StreamEstablished,
    Flushed,
    HeadersReceived,
    BufferThreshold,
    NotSupported,
    OutputUnderrun,
    Pause,
    Resume,
    TrackStarted,
    Timer,
    Underrun,
}

/// The four-character event code of each status reason.
pub open spec fn status_code_chars(c: StatusCode) -> Seq<char> {
    match c {
        StatusCode::Connect => "STMc"@,
        StatusCode::DecoderReady => "STMd"@,
        StatusCode::StreamEstablished => "STMe"@,
        StatusCode::Flushed => "STMf"@,
        StatusCode::HeadersReceived => "STMh"@,
        StatusCode::BufferThreshold => "STMl"@,
        StatusCode::NotSupported => "STMn"@,
        StatusCode::OutputUnderrun => "STMo"@,
        StatusCode::Pause => "STMp"@,
        StatusCode::Resume => "STMr"@,
        StatusCode::TrackStarted => "STMs"@,
        StatusCode::Timer => "STMt"@,
        StatusCode::Underrun => "STMu"@,
    }
}

impl StatusCode {
    /// The event code as sent on the wire.
    pub fn to_text(&self) -> (r: String)
        ensures
            r@ == status_code_chars(*self),
    {
        match self {
            StatusCode::Connect => "STMc".to_owned(),
            StatusCode::DecoderReady => "STMd".to_owned(),
            StatusCode::StreamEstablished => "STMe".to_owned(),
            StatusCode::Flushed => "STMf".to_owned(),
            StatusCode::HeadersReceived => "STMh".to_owned(),
            StatusCode::BufferThreshold => "STMl".to_owned(),
            StatusCode::NotSupported => "STMn".to_owned(),
            StatusCode::OutputUnderrun => "STMo".to_owned(),
            StatusCode::Pause => "STMp".to_owned(),
            StatusCode::Resume => "STMr".to_owned(),
            StatusCode::TrackStarted => "STMs".to_owned(),
            StatusCode::Timer => "STMt".to_owned(),
            StatusCode::Underrun => "STMu".to_owned(),
        }
    }
}

} // verus!
