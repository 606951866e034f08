use slimproto::codec::SlimCodec;
use slimproto::framing::FramedRead;
use slimproto::proto::{
    AutoStart, Format, PcmChannels, PcmEndian, PcmSampleRate, PcmSampleSize, ServerMessage,
    SpdifEnable, StreamFlags, TransType,
};

fn recv_one(buf: &[u8]) -> ServerMessage {
    let mut framed = FramedRead::new(SlimCodec);
    framed.feed(buf);
    framed.try_next().unwrap().expect("a full frame was buffered")
}

#[test]
fn recv_serv() {
    let buf = [0u8, 12, b's', b'e', b'r', b'v', 172, 16, 1, 2, b's', b'y', b'n', b'c'];
    if let ServerMessage::Serv { ip_address, sync_group_id } = recv_one(&buf) {
        assert_eq!(ip_address, [172, 16, 1, 2]);
        assert_eq!(sync_group_id, Some("sync".to_owned()));
    } else {
        panic!("SERV message not received");
    }
}

#[test]
fn recv_status() {
    let buf = [
        0u8, 28, b's', b't', b'r', b'm', b't', 1, 2, 3, 4, 5, 6, 7, 8, 9, 10, 11, 12, 13, 14, 15,
        16, 17, 18, 19, 20, 21, 22, 23, 24,
    ];
    if let ServerMessage::Status(d) = recv_one(&buf) {
        assert_eq!(d, 252711186);
    } else {
        panic!("STRMt message not received");
    }
}

#[test]
fn recv_stop() {
    let buf = [
        0u8, 28, b's', b't', b'r', b'm', b'q', 1, 2, 3, 4, 5, 6, 7, 8, 9, 10, 11, 12, 13, 14, 15,
        16, 17, 18, 19, 20, 21, 22, 23, 24,
    ];
    if let ServerMessage::Stop = recv_one(&buf) {
    } else {
        panic!("STRMq message not received");
    }
}

#[test]
fn recv_pause() {
    let buf = [
        0u8, 28, b's', b't', b'r', b'm', b'p', 1, 2, 3, 4, 5, 6, 7, 8, 9, 10, 11, 12, 13, 14, 15,
        16, 17, 18, 19, 20, 21, 22, 23, 24,
    ];
    if let ServerMessage::Pause(p) = recv_one(&buf) {
        assert_eq!(p, 252711186);
    } else {
        panic!("STRMp message not received");
    }
}

#[test]
fn recv_unpause() {
    let buf = [
        0u8, 28, b's', b't', b'r', b'm', b'u', 1, 2, 3, 4, 5, 6, 7, 8, 9, 10, 11, 12, 13, 14, 15,
        16, 17, 18, 19, 20, 21, 22, 23, 24,
    ];
    if let ServerMessage::Unpause(p) = recv_one(&buf) {
        assert_eq!(p, 252711186);
    } else {
        panic!("STRMu message not received");
    }
}

#[test]
fn recv_skip() {
    let buf = [
        0u8, 28, b's', b't', b'r', b'm', b'a', 1, 2, 3, 4, 5, 6, 7, 8, 9, 10, 11, 12, 13, 14, 15,
        16, 17, 18, 19, 20, 21, 22, 23, 24,
    ];
    if let ServerMessage::Skip(p) = recv_one(&buf) {
        assert_eq!(p, 252711186);
    } else {
        panic!("STRMa message not received");
    }
}

#[test]
fn recv_unrecognised() {
    let buf = [
        0u8, 28, b's', b't', b'r', b'm', b'x', 1, 2, 3, 4, 5, 6, 7, 8, 9, 10, 11, 12, 13, 14, 15,
        16, 17, 18, 19, 20, 21, 22, 23, 24,
    ];
    if let ServerMessage::Unrecognised(s) = recv_one(&buf) {
        assert_eq!(s, "strm_x".to_owned());
    } else {
        panic!("STRMx message not received");
    }
}

#[test]
fn recv_enable() {
    let buf = [0u8, 6, b'a', b'u', b'd', b'e', 0, 1];
    if let ServerMessage::Enable(a, b) = recv_one(&buf) {
        assert_eq!((a, b), (false, true));
    } else {
        panic!("AUDE message not received");
    }
}

#[test]
fn recv_gain() {
    let buf = [
        0u8, 22, b'a', b'u', b'd', b'g', 0, 0, 0, 0, 0, 0, 0, 0, 0, 0, 0, 1, 0, 0, 0, 0, 128, 0,
    ];
    match recv_one(&buf) {
        ServerMessage::Gain(left, right) => {
            assert_eq!(left as f64 / 65536.0, 1.0);
            assert_eq!(right as f64 / 65536.0, 0.5);
        }
        _ => panic!("GAIN message incorrect"),
    }
}

#[test]
fn recv_setname() {
    let buf = [0u8, 13, b's', b'e', b't', b'd', 0, b'n', b'e', b'w', b'n', b'a', b'm', b'e', 0];
    match recv_one(&buf) {
        ServerMessage::Setname(name) => {
            assert_eq!(name, "newname".to_owned());
        }
        _ => panic!("SETNAME message incorrect"),
    }
}

#[test]
fn recv_queryname() {
    let buf = [0u8, 5, b's', b'e', b't', b'd', 0];
    if let ServerMessage::Queryname = recv_one(&buf) {
    } else {
        panic!("SETD message not received");
    }
}

#[test]
fn recv_disabledac() {
    let buf = [0u8, 5, b's', b'e', b't', b'd', 4];
    if let ServerMessage::DisableDac = recv_one(&buf) {
    } else {
        panic!("SETD message not received");
    }
}

#[test]
fn recv_strm() {
    let buf = [
        0u8, 28, b's', b't', b'r', b'm', b's', b'1', b'm', b'2', b'3', b'?', b'0', 1, 2, 3, 4,
        b'1', 2, 0, 0, 1, 128, 0, 35, 41, 172, 16, 1, 2,
    ];
    if let ServerMessage::Stream {
        autostart,
        format,
        pcmsamplesize,
        pcmsamplerate,
        pcmchannels,
        pcmendian,
        threshold,
        spdif_enable,
        trans_period,
        trans_type,
        flags,
        output_threshold,
        replay_gain,
        server_port,
        server_ip,
        http_headers,
    } = recv_one(&buf)
    {
        assert_eq!(autostart, AutoStart::Auto);
        assert_eq!(format, Format::Mp3);
        assert_eq!(pcmsamplesize, PcmSampleSize::Twenty);
        assert_eq!(pcmsamplerate, PcmSampleRate::Rate(44100));
        assert_eq!(pcmchannels, PcmChannels::SelfDescribing);
        assert_eq!(pcmendian, PcmEndian::Big);
        assert_eq!(threshold, 1024);
        assert_eq!(spdif_enable, SpdifEnable::Off);
        assert_eq!(trans_period, 3000);
        assert_eq!(trans_type, TransType::FadeInOut);
        assert_eq!(
            flags,
            StreamFlags {
                inf_loop: false,
                no_restart_decoder: false,
                invert_polarity_left: true,
                invert_polarity_right: false,
            }
        );
        assert_eq!(output_threshold, 2);
        assert_eq!(replay_gain as f64 / 65536.0, 1.5);
        assert_eq!(server_port, 9001);
        assert_eq!(server_ip, [172, 16, 1, 2]);
        assert!(http_headers.is_none());
    } else {
        panic!("STRMs message not received");
    }
}

#[test]
fn recv_strm_with_http_headers() {
    let mut frame = vec![
        b's', b't', b'r', b'm', b's', b'1', b'm', b'2', b'3', b'?', b'0', 1, 2, 3, 4, b'1', 2, 0,
        0, 1, 128, 0, 35, 41, 172, 16, 1, 2,
    ];
    frame.extend_from_slice(b"GET /x");
    let mut buf = vec![0u8, frame.len() as u8];
    buf.extend_from_slice(&frame);
    match recv_one(&buf) {
        ServerMessage::Stream { http_headers, .. } => {
            assert_eq!(http_headers, Some("GET /x".to_owned()));
        }
        _ => panic!("STRMs message not received"),
    }
}

#[test]
fn recv_corrupt_strm_field_is_an_error() {
    // autostart byte 'z' maps to nothing: the whole frame is corrupt
    let buf = [
        0u8, 28, b's', b't', b'r', b'm', b's', b'z', b'm', b'2', b'3', b'?', b'0', 1, 2, 3, 4,
        b'1', 2, 0, 0, 1, 128, 0, 35, 41, 172, 16, 1, 2,
    ];
    let mut framed = FramedRead::new(SlimCodec);
    framed.feed(&buf);
    assert!(framed.try_next().is_err());
}

#[test]
fn recv_unknown_tag_is_unrecognised() {
    let buf = [0u8, 6, b'x', b'y', b'z', b'w', 1, 2];
    match recv_one(&buf) {
        ServerMessage::Unrecognised(s) => assert_eq!(s, "xyzw"),
        _ => panic!("unknown tag should be surfaced as Unrecognised"),
    }
}

#[test]
fn recv_setd_unknown_subtype() {
    let buf = [0u8, 5, b's', b'e', b't', b'd', 9];
    match recv_one(&buf) {
        ServerMessage::Unrecognised(s) => assert_eq!(s, "This SETD is unused: 9"),
        _ => panic!("unknown SETD subtype should be surfaced as Unrecognised"),
    }
}

#[test]
fn recv_truncated_serv_is_an_error() {
    let buf = [0u8, 6, b's', b'e', b'r', b'v', 172, 16];
    let mut framed = FramedRead::new(SlimCodec);
    framed.feed(&buf);
    assert!(framed.try_next().is_err());
}
