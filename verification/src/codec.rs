//! The wire codec: how a client message becomes a frame of bytes, and how a
//! server frame of bytes becomes a typed message.
//!
//! Client frames are `tag(4) + length(4, big-endian) + payload`. Server
//! frames are `length(2, big-endian) + payload`, where the payload begins
//! with a four-character command tag. `parse_msg` states what every payload
//! means; `client_frame` states the bytes every outgoing message produces.

use vstd::prelude::*;
use vstd::slice::{slice_subrange, slice_to_vec};
use vstd::utf8::encode_utf8;
use crate::proto::{
    AutoStart, ClientMessage, Format, PcmChannels, PcmEndian, PcmSampleRate, PcmSampleSize,
    ServerMessage, SpdifEnable, SpecServerMessage, StreamFlags, TransType, stream_flags_of_byte,
};
use crate::status::StatusData;
use crate::wire::{
    be16, be16_bytes, be32, be32_bytes, be64_bytes, dec_chars, latin1_chars, latin1_to_string,
    lemma_be16_roundtrip, push_be16, push_be32, push_be64, read_be16, read_be32,
    string_from_utf8_lossy, u32_dec_string, utf8_lossy_chars, utf8_or_empty, utf8_string_or_empty,
};
use crate::framing::{CodecError, DecodeStep, Decoder, Encoder};
use crate::bytesbuf::{bytes_mut_capacity, bytes_mut_get, bytes_mut_len, bytes_mut_reserve,
    bytes_mut_advance, bytes_mut_split_to_vec, bytes_view};
use bytes::BytesMut;
use vstd::string::StringExecFns;

verus! {

// ---------------------------------------------------------------------------
// Field decoders of the stream-setup message
// ---------------------------------------------------------------------------
pub open spec fn autostart_ok(b: u8) -> bool {
    b == 48 || b == 49 || b == 50 || b == 51
}

pub open spec fn autostart_of(b: u8) -> AutoStart {
    if b == 48 {
        AutoStart::NoStart
    } else if b == 49 {
        AutoStart::Auto
    } else if b == 50 {
        AutoStart::Direct
    } else {
        AutoStart::AutoDirect
    }
}

pub open spec fn format_ok(b: u8) -> bool {
    b == 112 || b == 109 || b == 102 || b == 119 || b == 111 || b == 97 || b == 108
}

pub open spec fn format_of(b: u8) -> Format {
    if b == 112 {
        Format::Pcm
    } else if b == 109 {
        Format::Mp3
    } else if b == 102 {
        Format::Flac
    } else if b == 119 {
        Format::Wma
    } else if b == 111 {
        Format::Ogg
    } else if b == 97 {
        Format::Aac
    } else {
        Format::Alac
    }
}

pub open spec fn sample_size_ok(b: u8) -> bool {
    b == 48 || b == 49 || b == 50 || b == 51 || b == 63
}

pub open spec fn sample_size_of(b: u8) -> PcmSampleSize {
    if b == 48 {
        PcmSampleSize::Eight
    } else if b == 49 {
        PcmSampleSize::Sixteen
    } else if b == 50 {
        PcmSampleSize::Twenty
    } else if b == 51 {
        PcmSampleSize::ThirtyTwo
    } else {
        PcmSampleSize::SelfDescribing
    }
}

pub open spec fn sample_rate_ok(b: u8) -> bool {
    48 <= b <= 57 || b == 63
}

pub open spec fn sample_rate_of(b: u8) -> PcmSampleRate {
    if b == 48 {
        PcmSampleRate::Rate(11000)
    } else if b == 49 {
        PcmSampleRate::Rate(22000)
    } else if b == 50 {
        PcmSampleRate::Rate(32000)
    } else if b == 51 {
        PcmSampleRate::Rate(44100)
    } else if b == 52 {
        PcmSampleRate::Rate(48000)
    } else if b == 53 {
        PcmSampleRate::Rate(8000)
    } else if b == 54 {
        PcmSampleRate::Rate(12000)
    } else if b == 55 {
        PcmSampleRate::Rate(16000)
    } else if b == 56 {
        PcmSampleRate::Rate(24000)
    } else if b == 57 {
        PcmSampleRate::Rate(96000)
    } else {
        PcmSampleRate::SelfDescribing
    }
}

pub open spec fn channels_ok(b: u8) -> bool {
    b == 49 || b == 50 || b == 63
}

pub open spec fn channels_of(b: u8) -> PcmChannels {
    if b == 49 {
        PcmChannels::Mono
    } else if b == 50 {
        PcmChannels::Stereo
    } else {
        PcmChannels::SelfDescribing
    }
}

pub open spec fn endian_ok(b: u8) -> bool {
    b == 48 || b == 49 || b == 63
}

pub open spec fn endian_of(b: u8) -> PcmEndian {
    if b == 48 {
        PcmEndian::Big
    } else if b == 49 {
        PcmEndian::Little
    } else {
        PcmEndian::SelfDescribing
    }
}

pub open spec fn spdif_ok(b: u8) -> bool {
    b == 0 || b == 1 || b == 2
}

pub open spec fn spdif_of(b: u8) -> SpdifEnable {
    if b == 0 {
        SpdifEnable::Auto
    } else if b == 1 {
        SpdifEnable::On
    } else {
        SpdifEnable::Off
    }
}

pub open spec fn trans_type_ok(b: u8) -> bool {
    b == 0 || b == 1 || b == 2 || b == 3 || b == 4
}

pub open spec fn trans_type_of(b: u8) -> TransType {
    if b == 0 {
        TransType::NoTransition
    } else if b == 1 {
        TransType::Crossfade
    } else if b == 2 {
        TransType::FadeIn
    } else if b == 3 {
        TransType::FadeOut
    } else {
        TransType::FadeInOut
    }
}

// ---------------------------------------------------------------------------
// What a server payload means
// ---------------------------------------------------------------------------
pub open spec fn tag_is(p: Seq<u8>, a: u8, b: u8, c: u8, d: u8) -> bool {
    p[0] == a && p[1] == b && p[2] == c && p[3] == d
}

/// A `serv` body: a four-byte address, then an optional sync-group id read
/// byte-for-byte as text.
pub open spec fn parse_serv(b: Seq<u8>) -> SpecServerMessage {
    if b.len() < 4 {
        SpecServerMessage::Error
    } else {
        SpecServerMessage::Serv {
            ip_address: [b[0], b[1], b[2], b[3]],
            sync_group_id: if b.len() > 4 {
                Some(latin1_chars(b.skip(4)))
            } else {
                None
            },
        }
    }
}

/// A stream-setup body (`strm` with subtype `s`), of at least 24 bytes.
/// Any unmapped field byte makes the whole message an error.
pub open spec fn parse_stream(b: Seq<u8>) -> SpecServerMessage {
    if !(autostart_ok(b[1]) && format_ok(b[2]) && sample_size_ok(b[3]) && sample_rate_ok(b[4])
        && channels_ok(b[5]) && endian_ok(b[6]) && spdif_ok(b[8]) && trans_type_ok(b[10])) {
        SpecServerMessage::Error
    } else {
        SpecServerMessage::Stream {
            autostart: autostart_of(b[1]),
            format: format_of(b[2]),
            pcmsamplesize: sample_size_of(b[3]),
            pcmsamplerate: sample_rate_of(b[4]),
            pcmchannels: channels_of(b[5]),
            pcmendian: endian_of(b[6]),
            threshold: (b[7] * 1024) as u32,
            spdif_enable: spdif_of(b[8]),
            trans_period: (b[9] * 1000) as u64,
            trans_type: trans_type_of(b[10]),
            flags: stream_flags_of_byte(b[11]),
            output_threshold: b[12] as u64,
            replay_gain: be32(b.subrange(14, 18)) as u32,
            server_port: be16(b.subrange(18, 20)) as u16,
            server_ip: [b[20], b[21], b[22], b[23]],
            http_headers: if b.len() > 24 {
                Some(utf8_lossy_chars(b.skip(24)))
            } else {
                None
            },
        }
    }
}

/// A `strm` body: the subtype byte selects the command; every subtype needs
/// at least 24 bytes of body.
pub open spec fn parse_strm(b: Seq<u8>) -> SpecServerMessage {
    if b.len() < 24 {
        SpecServerMessage::Error
    } else if b[0] == 116 {
        SpecServerMessage::Status(be32(b.subrange(15, 19)) as u64)
    } else if b[0] == 115 {
        parse_stream(b)
    } else if b[0] == 113 {
        SpecServerMessage::Stop
    } else if b[0] == 112 {
        SpecServerMessage::Pause(be32(b.subrange(15, 19)) as u32)
    } else if b[0] == 117 {
        SpecServerMessage::Unpause(be32(b.subrange(15, 19)) as u32)
    } else if b[0] == 97 {
        SpecServerMessage::Skip(be32(b.subrange(15, 19)) as u32)
    } else {
        SpecServerMessage::Unrecognised(latin1_chars(seq![115u8, 116u8, 114u8, 109u8, 95u8, b[0]]))
    }
}

/// A `setd` body: subtype 0 queries or sets the player name, subtype 4
/// disables the DAC, anything else is unrecognised.
pub open spec fn parse_setd(b: Seq<u8>) -> SpecServerMessage {
    if b.len() == 0 {
        SpecServerMessage::Error
    } else if b[0] == 0 {
        if b.len() == 1 {
            SpecServerMessage::Queryname
        } else {
            SpecServerMessage::Setname(utf8_or_empty(b.subrange(1, b.len() - 1)))
        }
    } else if b[0] == 4 {
        SpecServerMessage::DisableDac
    } else {
        SpecServerMessage::Unrecognised("This SETD is unused: "@ + dec_chars(b[0] as int))
    }
}

/// What a whole server payload (one frame without its length prefix) means.
/// A payload too short for its tag, or with a corrupt field, is `Error`.
pub open spec fn parse_msg(p: Seq<u8>) -> SpecServerMessage {
    if p.len() < 4 {
        SpecServerMessage::Error
    } else if tag_is(p, 115, 101, 114, 118) {  // "serv"
        parse_serv(p.skip(4))
    } else if tag_is(p, 115, 116, 114, 109) {  // "strm"
        parse_strm(p.skip(4))
    } else if tag_is(p, 97, 117, 100, 101) {  // "aude"
        if p.len() < 6 {
            SpecServerMessage::Error
        } else {
            SpecServerMessage::Enable(p[4] != 0, p[5] != 0)
        }
    } else if tag_is(p, 97, 117, 100, 103) {  // "audg"
        if p.len() < 22 {
            SpecServerMessage::Error
        } else {
            SpecServerMessage::Gain(be32(p.subrange(14, 18)) as u32, be32(p.subrange(18, 22)) as u32)
        }
    } else if tag_is(p, 115, 101, 116, 100) {  // "setd"
        parse_setd(p.skip(4))
    } else {
        SpecServerMessage::Unrecognised(utf8_or_empty(p.take(4)))
    }
}

// ---------------------------------------------------------------------------
// The verified parser
// ---------------------------------------------------------------------------
/// Parses one server payload. The result is exactly what `parse_msg` says
/// of the bytes.
pub fn parse_message(p: &Vec<u8>) -> (r: ServerMessage)
    ensures
        r@ == parse_msg(p@),
{
    let n = p.len();
    if n < 4 {
        return ServerMessage::Error;
    }
    if p[0] == 115 && p[1] == 101 && p[2] == 114 && p[3] == 118 {
        // serv
        if n < 8 {
            return ServerMessage::Error;
        }
        let ip = [p[4], p[5], p[6], p[7]];
        let sync_group_id = if n > 8 {
            let s = latin1_to_string(slice_subrange(p.as_slice(), 8, n));
            proof {
                assert(p@.subrange(8, n as int) =~= p@.skip(4).skip(4));
            }
            Some(s)
        } else {
            None
        };
        proof {
            assert(p@.skip(4).len() == n - 4);
        }
        ServerMessage::Serv { ip_address: ip, sync_group_id }
    } else if p[0] == 115 && p[1] == 116 && p[2] == 114 && p[3] == 109 {
        // strm
        parse_strm_message(p)
    } else if p[0] == 97 && p[1] == 117 && p[2] == 100 && p[3] == 101 {
        // aude
        if n < 6 {
            return ServerMessage::Error;
        }
        ServerMessage::Enable(p[4] != 0, p[5] != 0)
    } else if p[0] == 97 && p[1] == 117 && p[2] == 100 && p[3] == 103 {
        // audg
        if n < 22 {
            return ServerMessage::Error;
        }
        let left = read_be32(p.as_slice(), 14);
        let right = read_be32(p.as_slice(), 18);
        ServerMessage::Gain(left, right)
    } else if p[0] == 115 && p[1] == 101 && p[2] == 116 && p[3] == 100 {
        // setd
        if n == 4 {
            return ServerMessage::Error;
        }
        if p[4] == 0 {
            if n == 5 {
                ServerMessage::Queryname
            } else {
                let bytes = slice_to_vec(slice_subrange(p.as_slice(), 5, n - 1));
                proof {
                    assert(p@.subrange(5, n - 1) =~= p@.skip(4).subrange(1, p@.skip(4).len() - 1));
                }
                ServerMessage::Setname(utf8_string_or_empty(bytes))
            }
        } else if p[4] == 4 {
            ServerMessage::DisableDac
        } else {
            let mut s = "This SETD is unused: ".to_owned();
            let d = u32_dec_string(p[4] as u32);
            s.append(d.as_str());
            proof {
                assert(p@.skip(4)[0] == p@[4]);
            }
            ServerMessage::Unrecognised(s)
        }
    } else {
        let tag = slice_to_vec(slice_subrange(p.as_slice(), 0, 4));
        proof {
            assert(p@.subrange(0, 4) =~= p@.take(4));
        }
        ServerMessage::Unrecognised(utf8_string_or_empty(tag))
    }
}

/// Parses a `strm` payload, tag included.
fn parse_strm_message(p: &Vec<u8>) -> (r: ServerMessage)
    requires
        p@.len() >= 4,
        tag_is(p@, 115, 116, 114, 109),
    ensures
        r@ == parse_strm(p@.skip(4)),
{
    let n = p.len();
    let ghost b = p@.skip(4);
    if n < 28 {
        return ServerMessage::Error;
    }
    proof {
        assert(b.len() == n - 4);
        assert(b[0] == p@[4]);
        assert(b.subrange(15, 19) =~= p@.subrange(19, 23));
    }
    let subtype = p[4];
    if subtype == 116 {
        // 't': a status request carrying a timestamp
        let t = read_be32(p.as_slice(), 19);
        ServerMessage::Status(t as u64)
    } else if subtype == 115 {
        // 's': stream setup
        parse_stream_message(p)
    } else if subtype == 113 {
        // 'q': stop
        ServerMessage::Stop
    } else if subtype == 112 {
        // 'p': pause
        let t = read_be32(p.as_slice(), 19);
        ServerMessage::Pause(t)
    } else if subtype == 117 {
        // 'u': unpause
        let t = read_be32(p.as_slice(), 19);
        ServerMessage::Unpause(t)
    } else if subtype == 97 {
        // 'a': skip ahead
        let t = read_be32(p.as_slice(), 19);
        ServerMessage::Skip(t)
    } else {
        let mut v: Vec<u8> = Vec::new();
        v.push(115);
        v.push(116);
        v.push(114);
        v.push(109);
        v.push(95);
        v.push(subtype);
        let s = latin1_to_string(v.as_slice());
        proof {
            assert(v@ =~= seq![115u8, 116u8, 114u8, 109u8, 95u8, b[0]]);
        }
        ServerMessage::Unrecognised(s)
    }
}

/// Parses a stream-setup payload, tag included.
#[verifier::rlimit(80)]
fn parse_stream_message(p: &Vec<u8>) -> (r: ServerMessage)
    requires
        p@.len() >= 28,
        tag_is(p@, 115, 116, 114, 109),
        p@[4] == 115,
    ensures
        r@ == parse_stream(p@.skip(4)),
{
    let n = p.len();
    let ghost b = p@.skip(4);
    proof {
        assert(b.len() == n - 4);
        assert(forall|i: int| 0 <= i < b.len() ==> b[i] == p@[4 + i]);
        assert(b.subrange(14, 18) =~= p@.subrange(18, 22));
        assert(b.subrange(18, 20) =~= p@.subrange(22, 24));
    }
    let autostart = if p[5] == 48 {
        AutoStart::NoStart
    } else if p[5] == 49 {
        AutoStart::Auto
    } else if p[5] == 50 {
        AutoStart::Direct
    } else if p[5] == 51 {
        AutoStart::AutoDirect
    } else {
        return ServerMessage::Error;
    };
    let format = if p[6] == 112 {
        Format::Pcm
    } else if p[6] == 109 {
        Format::Mp3
    } else if p[6] == 102 {
        Format::Flac
    } else if p[6] == 119 {
        Format::Wma
    } else if p[6] == 111 {
        Format::Ogg
    } else if p[6] == 97 {
        Format::Aac
    } else if p[6] == 108 {
        Format::Alac
    } else {
        return ServerMessage::Error;
    };
    let pcmsamplesize = if p[7] == 48 {
        PcmSampleSize::Eight
    } else if p[7] == 49 {
        PcmSampleSize::Sixteen
    } else if p[7] == 50 {
        PcmSampleSize::Twenty
    } else if p[7] == 51 {
        PcmSampleSize::ThirtyTwo
    } else if p[7] == 63 {
        PcmSampleSize::SelfDescribing
    } else {
        return ServerMessage::Error;
    };
    let pcmsamplerate = if p[8] == 48 {
        PcmSampleRate::Rate(11000)
    } else if p[8] == 49 {
        PcmSampleRate::Rate(22000)
    } else if p[8] == 50 {
        PcmSampleRate::Rate(32000)
    } else if p[8] == 51 {
        PcmSampleRate::Rate(44100)
    } else if p[8] == 52 {
        PcmSampleRate::Rate(48000)
    } else if p[8] == 53 {
        PcmSampleRate::Rate(8000)
    } else if p[8] == 54 {
        PcmSampleRate::Rate(12000)
    } else if p[8] == 55 {
        PcmSampleRate::Rate(16000)
    } else if p[8] == 56 {
        PcmSampleRate::Rate(24000)
    } else if p[8] == 57 {
        PcmSampleRate::Rate(96000)
    } else if p[8] == 63 {
        PcmSampleRate::SelfDescribing
    } else {
        return ServerMessage::Error;
    };
    let pcmchannels = if p[9] == 49 {
        PcmChannels::Mono
    } else if p[9] == 50 {
        PcmChannels::Stereo
    } else if p[9] == 63 {
        PcmChannels::SelfDescribing
    } else {
        return ServerMessage::Error;
    };
    let pcmendian = if p[10] == 48 {
        PcmEndian::Big
    } else if p[10] == 49 {
        PcmEndian::Little
    } else if p[10] == 63 {
        PcmEndian::SelfDescribing
    } else {
        return ServerMessage::Error;
    };
    let threshold = (p[11] as u32) * 1024;
    let spdif_enable = if p[12] == 0 {
        SpdifEnable::Auto
    } else if p[12] == 1 {
        SpdifEnable::On
    } else if p[12] == 2 {
        SpdifEnable::Off
    } else {
        return ServerMessage::Error;
    };
    let trans_period = (p[13] as u64) * 1000;
    let trans_type = if p[14] == 0 {
        TransType::NoTransition
    } else if p[14] == 1 {
        TransType::Crossfade
    } else if p[14] == 2 {
        TransType::FadeIn
    } else if p[14] == 3 {
        TransType::FadeOut
    } else if p[14] == 4 {
        TransType::FadeInOut
    } else {
        return ServerMessage::Error;
    };
    let flags = StreamFlags::from_byte(p[15]);
    let output_threshold = p[16] as u64;
    let replay_gain = read_be32(p.as_slice(), 18);
    let server_port = read_be16(p.as_slice(), 22);
    let server_ip = [p[24], p[25], p[26], p[27]];
    let http_headers = if n > 28 {
        let s = string_from_utf8_lossy(slice_subrange(p.as_slice(), 28, n));
        proof {
            assert(p@.subrange(28, n as int) =~= b.skip(24));
        }
        Some(s)
    } else {
        None
    };
    ServerMessage::Stream {
        autostart,
        format,
        pcmsamplesize,
        pcmsamplerate,
        pcmchannels,
        pcmendian,
        threshold,
        spdif_enable,
        trans_period,
        trans_type,
        flags,
        output_threshold,
        replay_gain,
        server_port,
        server_ip,
        http_headers,
    }
}

// ---------------------------------------------------------------------------
// Encoding client messages
// ---------------------------------------------------------------------------
/// A 64-bit counter clamped into a 32-bit wire field, saturating.
pub open spec fn sat_u32(x: u64) -> u32 {
    if x > 0xFFFFFFFF {
        0xFFFFFFFFu32
    } else {
        x as u32
    }
}

/// The counter block of a status message, after the event code.
pub open spec fn stat_counters(s: StatusData) -> Seq<u8> {
    seq![s.crlf, 0u8, 0u8] + be32_bytes(s.buffer_size) + be32_bytes(s.fullness) + be64_bytes(
        s.bytes_received) + be16_bytes(s.sig_strength) + be32_bytes(sat_u32(s.jiffies))
        + be32_bytes(s.output_buffer_size) + be32_bytes(s.output_buffer_fullness) + be32_bytes(
        s.elapsed_seconds) + be16_bytes(s.voltage) + be32_bytes(s.elapsed_milliseconds)
        + be32_bytes(sat_u32(s.timestamp)) + be16_bytes(s.error_code)
}

/// The payload of a client message, tag and length prefix excluded.
pub open spec fn client_payload(m: ClientMessage) -> Seq<u8> {
    match m {
        ClientMessage::Helo {
            device_id,
            revision,
            mac,
            uuid,
            wlan_channel_list,
            bytes_received,
            language,
            capabilities,
        } => seq![device_id, revision] + mac@ + uuid@ + be16_bytes(wlan_channel_list)
            + be64_bytes(bytes_received) + seq![language@[0] as u8, language@[1] as u8]
            + encode_utf8(capabilities@),
        ClientMessage::Stat { event_code, stat_data } => encode_utf8(event_code@) + stat_counters(
            stat_data),
        ClientMessage::Bye(v) => seq![v],
        ClientMessage::Name(name) => seq![0u8] + encode_utf8(name@),
    }
}

/// The four-character tag of a client message.
pub open spec fn client_tag(m: ClientMessage) -> Seq<u8> {
    match m {
        ClientMessage::Helo { .. } => seq![72u8, 69u8, 76u8, 79u8],  // "HELO"
        ClientMessage::Stat { .. } => seq![83u8, 84u8, 65u8, 84u8],  // "STAT"
        ClientMessage::Bye(_) => seq![66u8, 89u8, 69u8, 33u8],  // "BYE!"
        ClientMessage::Name(_) => seq![83u8, 69u8, 84u8, 68u8],  // "SETD"
    }
}

/// The whole frame of a client message: tag, payload length big-endian,
/// payload.
pub open spec fn client_frame(m: ClientMessage) -> Seq<u8> {
    client_tag(m) + be32_bytes(client_payload(m).len() as u32) + client_payload(m)
}

/// The length of a message's payload: its fixed fields plus the UTF-8
/// length of its one variable text field.
pub open spec fn client_payload_len(m: ClientMessage) -> int {
    match m {
        ClientMessage::Helo { capabilities, .. } => 36 + encode_utf8(capabilities@).len() as int,
        ClientMessage::Stat { event_code, .. } => 49 + encode_utf8(event_code@).len() as int,
        ClientMessage::Bye(_) => 1,
        ClientMessage::Name(name) => 1 + encode_utf8(name@).len() as int,
    }
}

/// When a message fits the frame format: its payload length must fit the
/// four-byte length field.
pub open spec fn client_encodable(m: ClientMessage) -> bool {
    client_payload_len(m) <= 0xFFFFFFFF
}

/// Appends the counter block of a status message.
fn push_stat_counters(out: &mut Vec<u8>, s: &StatusData)
    ensures
        final(out)@ == old(out)@ + stat_counters(*s),
{
    out.push(s.crlf);
    out.push(0);
    out.push(0);
    push_be32(out, s.buffer_size);
    push_be32(out, s.fullness);
    push_be64(out, s.bytes_received);
    push_be16(out, s.sig_strength);
    push_be32(out, sat32(s.jiffies));
    push_be32(out, s.output_buffer_size);
    push_be32(out, s.output_buffer_fullness);
    push_be32(out, s.elapsed_seconds);
    push_be16(out, s.voltage);
    push_be32(out, s.elapsed_milliseconds);
    push_be32(out, sat32(s.timestamp));
    push_be16(out, s.error_code);
    assert(out@ =~= old(out)@ + stat_counters(*s));
}

/// Clamps a 64-bit counter into a 32-bit wire field.
fn sat32(x: u64) -> (r: u32)
    ensures
        r == sat_u32(x),
{
    if x > 0xFFFFFFFF {
        0xFFFFFFFF
    } else {
        x as u32
    }
}

/// The payload bytes are exactly `client_payload_len` many.
pub proof fn lemma_client_payload_len(m: ClientMessage)
    ensures
        client_payload(m).len() == client_payload_len(m),
{
    match m {
        ClientMessage::Helo { mac, uuid, .. } => {
            assert(mac@.len() == 6);
            assert(uuid@.len() == 16);
        },
        ClientMessage::Stat { stat_data, .. } => {
            assert(stat_counters(stat_data).len() == 49);
        },
        _ => {},
    }
}

/// Tests whether a message fits the frame format, so a caller holding an
/// arbitrary message can discharge the encoder's demand at run time.
pub fn message_encodable(m: &ClientMessage) -> (r: bool)
    ensures
        r == client_encodable(*m),
{
    match m {
        ClientMessage::Helo { capabilities, .. } => capabilities.as_str().as_bytes().len()
            <= 0xFFFFFFFF - 36,
        ClientMessage::Stat { event_code, .. } => event_code.as_str().as_bytes().len()
            <= 0xFFFFFFFF - 49,
        ClientMessage::Bye(_) => true,
        ClientMessage::Name(name) => name.as_str().as_bytes().len() <= 0xFFFFFFFF - 1,
    }
}

/// Builds the frame of a client message: exactly the bytes `client_frame`
/// describes.
pub fn encode_frame(m: &ClientMessage) -> (r: Vec<u8>)
    requires
        client_encodable(*m),
    ensures
        r@ == client_frame(*m),
{
    let mut out: Vec<u8> = Vec::new();
    let mut payload: Vec<u8> = Vec::new();
    match m {
        ClientMessage::Helo {
            device_id,
            revision,
            mac,
            uuid,
            wlan_channel_list,
            bytes_received,
            language,
            capabilities,
        } => {
            out.push(72);
            out.push(69);
            out.push(76);
            out.push(79);
            payload.push(*device_id);
            payload.push(*revision);
            let mut mac_bytes = slice_to_vec(mac.as_slice());
            payload.append(&mut mac_bytes);
            let mut uuid_bytes = slice_to_vec(uuid.as_slice());
            payload.append(&mut uuid_bytes);
            push_be16(&mut payload, *wlan_channel_list);
            push_be64(&mut payload, *bytes_received);
            let l0 = *vstd::array::array_index_get(language, 0);
            let l1 = *vstd::array::array_index_get(language, 1);
            #[verifier::truncate]
            let l0b = l0 as u8;
            #[verifier::truncate]
            let l1b = l1 as u8;
            payload.push(l0b);
            payload.push(l1b);
            let mut caps = slice_to_vec(capabilities.as_str().as_bytes());
            payload.append(&mut caps);
            assert(payload@ =~= client_payload(*m));
        },
        ClientMessage::Stat { event_code, stat_data } => {
            out.push(83);
            out.push(84);
            out.push(65);
            out.push(84);
            let mut code = slice_to_vec(event_code.as_str().as_bytes());
            payload.append(&mut code);
            push_stat_counters(&mut payload, stat_data);
            assert(payload@ =~= client_payload(*m));
        },
        ClientMessage::Bye(v) => {
            out.push(66);
            out.push(89);
            out.push(69);
            out.push(33);
            payload.push(*v);
            assert(payload@ =~= client_payload(*m));
        },
        ClientMessage::Name(name) => {
            out.push(83);
            out.push(69);
            out.push(84);
            out.push(68);
            payload.push(0);
            let mut name_bytes = slice_to_vec(name.as_str().as_bytes());
            payload.append(&mut name_bytes);
            assert(payload@ =~= client_payload(*m));
        },
    }
    proof {
        lemma_client_payload_len(*m);
    }
    let len = payload.len() as u32;
    push_be32(&mut out, len);
    out.append(&mut payload);
    assert(out@ =~= client_frame(*m));
    out
}

// ---------------------------------------------------------------------------
// The codec
// ---------------------------------------------------------------------------
/// The codec of this protocol. It is stateless: what a buffer decodes to is
/// fixed by `slim_step`, and what a message encodes to by `client_frame`.
pub struct SlimCodec;

/// What one decode does on a buffer holding `pre`: with at most two bytes,
/// or fewer than the two-byte length prefix declares, wait; otherwise the
/// frame is consumed and its payload read by `parse_msg`, a corrupt payload
/// failing the decode.
pub open spec fn slim_step(pre: Seq<u8>) -> DecodeStep<SpecServerMessage> {
    if pre.len() <= 2 {
        DecodeStep::Incomplete
    } else {
        let n = be16(pre.take(2));
        if pre.len() < n + 2 {
            DecodeStep::Incomplete
        } else if parse_msg(pre.subrange(2, 2 + n)) is Error {
            DecodeStep::Malformed(2 + n)
        } else {
            DecodeStep::Frame(parse_msg(pre.subrange(2, 2 + n)), 2 + n)
        }
    }
}

impl Decoder for SlimCodec {
    type Item = ServerMessage;

    open spec fn step(&self, pre: Seq<u8>) -> DecodeStep<SpecServerMessage> {
        slim_step(pre)
    }

    fn decode(&mut self, src: &mut BytesMut) -> (r: Result<Option<ServerMessage>, CodecError>) {
        let len = bytes_mut_len(src);
        if len <= 2 {
            return Ok(None);
        }
        let b0 = bytes_mut_get(src, 0);
        let b1 = bytes_mut_get(src, 1);
        let frame_size = (b0 as usize) * 256 + (b1 as usize);
        proof {
            assert(bytes_view(*src).take(2)[0] == bytes_view(*src)[0]);
            assert(bytes_view(*src).take(2)[1] == bytes_view(*src)[1]);
        }
        if len < frame_size + 2 {
            if bytes_mut_capacity(src) < frame_size + 2 {
                bytes_mut_reserve(src, frame_size);
            }
            return Ok(None);
        }
        let ghost pre = bytes_view(*src);
        bytes_mut_advance(src, 2);
        let payload = bytes_mut_split_to_vec(src, frame_size);
        proof {
            assert(payload@ =~= pre.subrange(2, 2 + frame_size as int));
            assert(bytes_view(*src) =~= pre.skip(2 + frame_size as int));
        }
        let msg = parse_message(&payload);
        match msg {
            ServerMessage::Error => Err(CodecError::Corrupt),
            m => Ok(Some(m)),
        }
    }
}

impl Encoder for SlimCodec {
    type Item = ClientMessage;

    open spec fn encoding(&self, item: ClientMessage) -> Seq<u8> {
        client_frame(item)
    }

    open spec fn encodable(&self, item: ClientMessage) -> bool {
        client_encodable(item)
    }

    fn encode(&mut self, item: ClientMessage, dst: &mut BytesMut) -> (r: Result<(), CodecError>) {
        let frame = encode_frame(&item);
        crate::bytesbuf::bytes_mut_extend_from_slice(dst, frame.as_slice());
        Ok(())
    }
}

// ---------------------------------------------------------------------------
// Laws of the framing discipline
// ---------------------------------------------------------------------------
/// A buffer holding any strict prefix of a frame is incomplete: the decoder
/// asks for more and consumes nothing. The completed frame then yields its
/// message, or fails when its payload is corrupt.
pub proof fn lemma_partial_frame(payload: Seq<u8>, k: int)
    requires
        1 <= payload.len() <= 0xFFFF,
        0 <= k < payload.len() + 2,
    ensures
        ({
            let frame = be16_bytes(payload.len() as u16) + payload;
            &&& slim_step(frame.take(k)) is Incomplete
            &&& (parse_msg(payload) is Error ==> slim_step(frame)
                == DecodeStep::<SpecServerMessage>::Malformed(frame.len() as int))
            &&& (!(parse_msg(payload) is Error) ==> slim_step(frame) == DecodeStep::Frame(
                parse_msg(payload), frame.len() as int))
        }),
{
    lemma_be16_roundtrip(payload.len() as u16);
    let frame = be16_bytes(payload.len() as u16) + payload;
    let part = frame.take(k);
    if k > 2 {
        assert(part.take(2) =~= frame.take(2));
        assert(frame.take(2) =~= be16_bytes(payload.len() as u16));
    }
    assert(frame.take(2) =~= be16_bytes(payload.len() as u16));
    assert(frame.subrange(2, 2 + payload.len() as int) =~= payload);
}

/// Two complete frames in one buffer decode one after the other, wherever
/// the chunk boundaries fell: the first decode yields the first message and
/// leaves exactly the second frame (and whatever follows) buffered.
pub proof fn lemma_two_frames(p1: Seq<u8>, p2: Seq<u8>, rest: Seq<u8>)
    requires
        1 <= p1.len() <= 0xFFFF,
        1 <= p2.len() <= 0xFFFF,
        !(parse_msg(p1) is Error),
        !(parse_msg(p2) is Error),
    ensures
        ({
            let f1 = be16_bytes(p1.len() as u16) + p1;
            let f2 = be16_bytes(p2.len() as u16) + p2;
            &&& slim_step(f1 + f2 + rest) == DecodeStep::Frame(parse_msg(p1), f1.len() as int)
            &&& (f1 + f2 + rest).skip(f1.len() as int) == f2 + rest
            &&& slim_step(f2 + rest) == DecodeStep::Frame(parse_msg(p2), f2.len() as int)
        }),
{
    lemma_be16_roundtrip(p1.len() as u16);
    lemma_be16_roundtrip(p2.len() as u16);
    let f1 = be16_bytes(p1.len() as u16) + p1;
    let f2 = be16_bytes(p2.len() as u16) + p2;
    let buf = f1 + f2 + rest;
    assert(buf.take(2) =~= be16_bytes(p1.len() as u16));
    assert(buf.subrange(2, 2 + p1.len() as int) =~= p1);
    assert(buf.skip(f1.len() as int) =~= f2 + rest);
    let buf2 = f2 + rest;
    assert(buf2.take(2) =~= be16_bytes(p2.len() as u16));
    assert(buf2.subrange(2, 2 + p2.len() as int) =~= p2);
}

} // verus!
