use slimproto::codec::SlimCodec;
use slimproto::framing::FramedRead;
use slimproto::proto::ServerMessage;

const SERV_FRAME: [u8; 14] =
    [0u8, 12, b's', b'e', b'r', b'v', 172, 16, 1, 2, b's', b'y', b'n', b'c'];
const SETD_FRAME: [u8; 7] = [0u8, 5, b's', b'e', b't', b'd', 0];

#[test]
fn partial_frame_waits_then_yields() {
    let mut framed = FramedRead::new(SlimCodec);
    framed.feed(&SERV_FRAME[..5]);
    assert!(matches!(framed.try_next(), Ok(None)));
    framed.feed(&SERV_FRAME[5..]);
    match framed.try_next() {
        Ok(Some(ServerMessage::Serv { ip_address, sync_group_id })) => {
            assert_eq!(ip_address, [172, 16, 1, 2]);
            assert_eq!(sync_group_id, Some("sync".to_owned()));
        }
        _ => panic!("the completed frame should yield its message"),
    }
}

#[test]
fn two_frames_decode_in_turn() {
    let mut framed = FramedRead::new(SlimCodec);
    framed.feed(&SERV_FRAME);
    framed.feed(&SETD_FRAME);
    assert!(matches!(framed.try_next(), Ok(Some(ServerMessage::Serv { .. }))));
    assert!(matches!(framed.try_next(), Ok(Some(ServerMessage::Queryname))));
    assert!(matches!(framed.try_next(), Ok(None)));
}

#[test]
fn chunking_does_not_change_the_messages() {
    // feed the same two frames one byte at a time
    let mut bytes: Vec<u8> = Vec::new();
    bytes.extend_from_slice(&SERV_FRAME);
    bytes.extend_from_slice(&SETD_FRAME);
    let mut framed = FramedRead::new(SlimCodec);
    let mut messages: Vec<ServerMessage> = Vec::new();
    for b in bytes {
        framed.feed(&[b]);
        if let Ok(Some(m)) = framed.try_next() {
            messages.push(m);
        }
    }
    assert_eq!(messages.len(), 2);
    assert!(matches!(messages[0], ServerMessage::Serv { .. }));
    assert!(matches!(messages[1], ServerMessage::Queryname));
}

#[test]
fn short_strm_frame_is_corrupt() {
    // a strm frame needs at least 24 bytes of body after the tag
    let buf = [0u8, 5, b's', b't', b'r', b'm', b'q'];
    let mut framed = FramedRead::new(SlimCodec);
    framed.feed(&buf);
    assert!(framed.try_next().is_err());
}
