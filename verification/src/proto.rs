//! The typed messages of the control protocol and the `Server` value that
//! the discovery step produces and the connection step consumes.
//!
//! Network addresses are carried as plain values: an IPv4 address is its
//! four octets, a MAC address its six bytes. Durations are milliseconds in
//! `u64`; the two gain fields of `Gain` and the `replay_gain` of `Stream`
//! are the protocol's 16.16 fixed-point values, so the fraction they denote
//! is the field divided by 65536.

use vstd::prelude::*;
use crate::capability::{cap_chars, cap_kind, Capabilities};
use crate::status::StatusData;

verus! {

/// The well-known TCP and UDP port of the protocol.
pub const SLIM_PORT: u16 = 3483;

/// A message sent from the client to the server.
#[derive(Debug)]
pub enum ClientMessage {
    Helo {
        device_id: u8,
        revision: u8,
        mac: [u8; 6],
        uuid: [u8; 16],
        wlan_channel_list: u16,
        bytes_received: u64,
        language: [char; 2],
        capabilities: String,
    },
    Stat { event_code: String, stat_data: StatusData },
    Bye(u8),
    Name(String),
}

#[derive(Clone, Copy, Debug, PartialEq, Eq, Structural)]
pub enum AutoStart {
    NoStart,
    Auto,
    Direct,
    AutoDirect,
}

#[derive(Clone, Copy, Debug, PartialEq, Eq, Structural)]
pub enum Format {
    Pcm,
    Mp3,
    Flac,
    Wma,
    Ogg,
    Aac,
    Alac,
}

#[derive(Clone, Copy, Debug, PartialEq, Eq, Structural)]
pub enum PcmSampleSize {
    Eight,
    Sixteen,
    Twenty,
    ThirtyTwo,
    SelfDescribing,
}

#[derive(Clone, Copy, Debug, PartialEq, Eq, Structural)]
pub enum PcmSampleRate {
    Rate(u32),
    SelfDescribing,
}

#[derive(Clone, Copy, Debug, PartialEq, Eq, Structural)]
pub enum PcmChannels {
    Mono,
    Stereo,
    SelfDescribing,
}

#[derive(Clone, Copy, Debug, PartialEq, Eq, Structural)]
pub enum PcmEndian {
    Big,
    Little,
    SelfDescribing,
}

#[derive(Clone, Copy, Debug, PartialEq, Eq, Structural)]
pub enum SpdifEnable {
    Auto,
    On,
    Off,
}

#[derive(Clone, Copy, Debug, PartialEq, Eq, Structural)]
pub enum TransType {
    NoTransition,
    Crossfade,
    FadeIn,
    FadeOut,
    FadeInOut,
}

/// The flag bits of a stream-setup message. Bits outside the four known
/// ones are cleared when a flags byte is read.
#[derive(Clone, Copy, Debug, PartialEq, Eq, Structural)]
pub struct StreamFlags {
    pub inf_loop: bool,
    pub no_restart_decoder: bool,
    pub invert_polarity_left: bool,
    pub invert_polarity_right: bool,
}

/// The flags denoted by a wire byte: inf-loop is bit 0x80, no-restart-decoder
/// 0x40, invert-polarity-left 0x01, invert-polarity-right 0x02.
pub open spec fn stream_flags_of_byte(b: u8) -> StreamFlags {
    StreamFlags {
        inf_loop: b & 0x80 != 0,
        no_restart_decoder: b & 0x40 != 0,
        invert_polarity_left: b & 0x01 != 0,
        invert_polarity_right: b & 0x02 != 0,
    }
}

impl StreamFlags {
    /// No flag set.
    pub fn empty() -> (r: Self)
        ensures
            r == (StreamFlags {
                inf_loop: false,
                no_restart_decoder: false,
                invert_polarity_left: false,
                invert_polarity_right: false,
            }),
    {
        StreamFlags {
            inf_loop: false,
            no_restart_decoder: false,
            invert_polarity_left: false,
            invert_polarity_right: false,
        }
    }

    /// Reads the four known flag bits of a wire byte; unknown bits are
    /// dropped.
    pub fn from_byte(b: u8) -> (r: Self)
        ensures
            r == stream_flags_of_byte(b),
    {
        StreamFlags {
            inf_loop: b & 0x80 != 0,
            no_restart_decoder: b & 0x40 != 0,
            invert_polarity_left: b & 0x01 != 0,
            invert_polarity_right: b & 0x02 != 0,
        }
    }
}

/// A message sent from the server to the client.
///
/// `Status`, `Pause`, `Unpause` and `Skip` carry milliseconds;
/// `trans_period` is milliseconds as well; `replay_gain` and the two `Gain`
/// fields are 16.16 fixed-point.
#[derive(Debug)]
pub enum ServerMessage {
    Serv { ip_address: [u8; 4], sync_group_id: Option<String> },
    Status(u64),
    Stream {
        autostart: AutoStart,
        format: Format,
        pcmsamplesize: PcmSampleSize,
        pcmsamplerate: PcmSampleRate,
        pcmchannels: PcmChannels,
        pcmendian: PcmEndian,
        threshold: u32,
        spdif_enable: SpdifEnable,
        trans_period: u64,
        trans_type: TransType,
        flags: StreamFlags,
        output_threshold: u64,
        replay_gain: u32,
        server_port: u16,
        server_ip: [u8; 4],
        http_headers: Option<String>,
    },
    Gain(u32, u32),
    Enable(bool, bool),
    Stop,
    Pause(u32),
    Unpause(u32),
    Queryname,
    Setname(String),
    DisableDac,
    Skip(u32),
    Unrecognised(String),
    Error,
}

/// The mathematical shape of a server message: strings as character
/// sequences, everything else as the plain values the exec type holds.
pub enum SpecServerMessage {
    Serv { ip_address: [u8; 4], sync_group_id: Option<Seq<char>> },
    Status(u64),
    Stream {
        autostart: AutoStart,
        format: Format,
        pcmsamplesize: PcmSampleSize,
        pcmsamplerate: PcmSampleRate,
        pcmchannels: PcmChannels,
        pcmendian: PcmEndian,
        threshold: u32,
        spdif_enable: SpdifEnable,
        trans_period: u64,
        trans_type: TransType,
        flags: StreamFlags,
        output_threshold: u64,
        replay_gain: u32,
        server_port: u16,
        server_ip: [u8; 4],
        http_headers: Option<Seq<char>>,
    },
    Gain(u32, u32),
    Enable(bool, bool),
    Stop,
    Pause(u32),
    Unpause(u32),
    Queryname,
    Setname(Seq<char>),
    DisableDac,
    Skip(u32),
    Unrecognised(Seq<char>),
    Error,
}

impl View for ServerMessage {
    type V = SpecServerMessage;

    open spec fn view(&self) -> SpecServerMessage {
        match self {
            ServerMessage::Serv { ip_address, sync_group_id } => SpecServerMessage::Serv {
                ip_address: *ip_address,
                sync_group_id: match sync_group_id {
                    Some(s) => Some(s@),
                    None => None,
                },
            },
            ServerMessage::Status(d) => SpecServerMessage::Status(*d),
            ServerMessage::Stream {
                autostart,
                format,
                pcmsamplesize,
                pcmsamplerate,
                pcmchannels,
                pcmendian,
                threshold,
                spdif_enable,
                trans_period,
                trans_type,
                flags,
                output_threshold,
                replay_gain,
                server_port,
                server_ip,
                http_headers,
            } => SpecServerMessage::Stream {
                autostart: *autostart,
                format: *format,
                pcmsamplesize: *pcmsamplesize,
                pcmsamplerate: *pcmsamplerate,
                pcmchannels: *pcmchannels,
                pcmendian: *pcmendian,
                threshold: *threshold,
                spdif_enable: *spdif_enable,
                trans_period: *trans_period,
                trans_type: *trans_type,
                flags: *flags,
                output_threshold: *output_threshold,
                replay_gain: *replay_gain,
                server_port: *server_port,
                server_ip: *server_ip,
                http_headers: match http_headers {
                    Some(s) => Some(s@),
                    None => None,
                },
            },
            ServerMessage::Gain(l, r) => SpecServerMessage::Gain(*l, *r),
            ServerMessage::Enable(s, d) => SpecServerMessage::Enable(*s, *d),
            ServerMessage::Stop => SpecServerMessage::Stop,
            ServerMessage::Pause(d) => SpecServerMessage::Pause(*d),
            ServerMessage::Unpause(d) => SpecServerMessage::Unpause(*d),
            ServerMessage::Queryname => SpecServerMessage::Queryname,
            ServerMessage::Setname(s) => SpecServerMessage::Setname(s@),
            ServerMessage::DisableDac => SpecServerMessage::DisableDac,
            ServerMessage::Skip(d) => SpecServerMessage::Skip(*d),
            ServerMessage::Unrecognised(s) => SpecServerMessage::Unrecognised(s@),
            ServerMessage::Error => SpecServerMessage::Error,
        }
    }
}

// ---------------------------------------------------------------------------
// Discovery results
// ---------------------------------------------------------------------------
/// One typed record of a discovery response.
#[derive(Debug)]
pub enum ServerTlv {
    Name(String),
    Version(String),
    Address([u8; 4]),
    Port(u16),
}

/// The records gathered from one discovery response, one slot for each
/// token the protocol knows.
#[derive(Debug)]
pub struct ServerTlvMap {
    pub name: Option<String>,
    pub version: Option<String>,
    pub address: Option<[u8; 4]>,
    pub port: Option<u16>,
}

/// The mathematical shape of a TLV map.
pub struct SpecServerTlvMap {
    pub name: Option<Seq<char>>,
    pub version: Option<Seq<char>>,
    pub address: Option<[u8; 4]>,
    pub port: Option<u16>,
}

impl View for ServerTlvMap {
    type V = SpecServerTlvMap;

    open spec fn view(&self) -> SpecServerTlvMap {
        SpecServerTlvMap {
            name: match self.name {
                Some(ref s) => Some(s@),
                None => None,
            },
            version: match self.version {
                Some(ref s) => Some(s@),
                None => None,
            },
            address: self.address,
            port: self.port,
        }
    }
}

impl ServerTlvMap {
    /// The empty map.
    pub fn new() -> (r: Self)
        ensures
            r@ == (SpecServerTlvMap { name: None, version: None, address: None, port: None }),
    {
        ServerTlvMap { name: None, version: None, address: None, port: None }
    }

    /// Stores one record, replacing any earlier record of the same token.
    pub fn set(&mut self, value: ServerTlv)
        ensures
            final(self)@ == spec_tlv_set(old(self)@, value@),
    {
        match value {
            ServerTlv::Name(s) => self.name = Some(s),
            ServerTlv::Version(s) => self.version = Some(s),
            ServerTlv::Address(a) => self.address = Some(a),
            ServerTlv::Port(p) => self.port = Some(p),
        }
    }
}

/// The mathematical shape of one TLV record.
pub enum SpecServerTlv {
    Name(Seq<char>),
    Version(Seq<char>),
    Address([u8; 4]),
    Port(u16),
}

impl View for ServerTlv {
    type V = SpecServerTlv;

    open spec fn view(&self) -> SpecServerTlv {
        match self {
            ServerTlv::Name(s) => SpecServerTlv::Name(s@),
            ServerTlv::Version(s) => SpecServerTlv::Version(s@),
            ServerTlv::Address(a) => SpecServerTlv::Address(*a),
            ServerTlv::Port(p) => SpecServerTlv::Port(*p),
        }
    }
}

/// Storing a record into a map replaces the slot of its token.
pub open spec fn spec_tlv_set(m: SpecServerTlvMap, v: SpecServerTlv) -> SpecServerTlvMap {
    match v {
        SpecServerTlv::Name(s) => SpecServerTlvMap { name: Some(s), ..m },
        SpecServerTlv::Version(s) => SpecServerTlvMap { version: Some(s), ..m },
        SpecServerTlv::Address(a) => SpecServerTlvMap { address: Some(a), ..m },
        SpecServerTlv::Port(p) => SpecServerTlvMap { port: Some(p), ..m },
    }
}

// ---------------------------------------------------------------------------
// The server endpoint
// ---------------------------------------------------------------------------
/// A server to connect to: its address, the metadata discovery gathered,
/// the sync group a redirect named, and the capabilities to announce.
#[derive(Debug)]
pub struct Server {
    pub ip_address: [u8; 4],
    pub port: u16,
    pub tlv_map: Option<ServerTlvMap>,
    pub sync_group_id: Option<String>,
    pub caps: Capabilities,
}

impl Server {
    /// The server a redirect message names: the given address on the
    /// well-known port, with the sync group it carried.
    pub fn from_redirect(ip_address: [u8; 4], sync_group_id: Option<String>) -> (r: Self)
        ensures
            r.ip_address == ip_address,
            r.port == SLIM_PORT,
            r.tlv_map is None,
            r.sync_group_id == sync_group_id,
            r.caps@ == Seq::<crate::capability::Capability>::empty(),
    {
        Server {
            ip_address,
            port: SLIM_PORT,
            tlv_map: None,
            sync_group_id,
            caps: Capabilities::new(),
        }
    }

    /// The server at the given address, with nothing else known of it.
    pub fn from_addr(ip_address: [u8; 4], port: u16) -> (r: Self)
        ensures
            r.ip_address == ip_address,
            r.port == port,
            r.tlv_map is None,
            r.sync_group_id is None,
            r.caps@ == Seq::<crate::capability::Capability>::empty(),
    {
        Server { ip_address, port, tlv_map: None, sync_group_id: None, caps: Capabilities::new() }
    }
}

impl Default for Server {
    /// A placeholder endpoint: the unspecified address, to be replaced by
    /// discovery or a redirect before connecting.
    fn default() -> (r: Self)
        ensures
            r.ip_address == [0u8, 0u8, 0u8, 0u8],
            r.port == 9000,
            r.tlv_map is None,
            r.sync_group_id is None,
            r.caps@ == Seq::<crate::capability::Capability>::empty(),
    {
        Server {
            ip_address: [0, 0, 0, 0],
            port: 9000,
            tlv_map: None,
            sync_group_id: None,
            caps: Capabilities::new(),
        }
    }
}

impl Clone for Server {
    /// A copy for reconnecting: the address, sync group and capabilities are
    /// kept; the TLV map is dropped, it is only needed once.
    fn clone(&self) -> (r: Self)
        ensures
            r.ip_address == self.ip_address,
            r.port == self.port,
            r.tlv_map is None,
            (match (r.sync_group_id, self.sync_group_id) {
                (Some(a), Some(b)) => a@ == b@,
                (None, None) => true,
                _ => false,
            }),
            r.caps@.len() == self.caps@.len(),
            forall|i: int|
                0 <= i < self.caps@.len() ==> cap_kind(#[trigger] r.caps@[i]) == cap_kind(
                    self.caps@[i]) && cap_chars(r.caps@[i]) == cap_chars(self.caps@[i]),
    {
        Server {
            ip_address: self.ip_address,
            port: self.port,
            tlv_map: None,
            sync_group_id: match &self.sync_group_id {
                Some(s) => Some(s.clone()),
                None => None,
            },
            caps: self.caps.duplicate(),
        }
    }
}

} // verus!
