use slimproto::codec::SlimCodec;
use slimproto::framing::FramedWrite;
use slimproto::proto::ClientMessage;
use slimproto::status::StatusData;

fn do_send(buf: &mut [u8], frame: ClientMessage) {
    let mut framed = FramedWrite::new(buf, SlimCodec);
    framed.send(frame).unwrap();
}

#[test]
fn send_helo() {
    let helo = ClientMessage::Helo {
        device_id: 0,
        revision: 1,
        mac: [1, 2, 3, 4, 5, 6],
        uuid: [7u8; 16],
        wlan_channel_list: 0x89AB,
        bytes_received: 1234,
        language: ['u', 'k'],
        capabilities: "abcd".to_owned(),
    };

    let mut buf = [0u8; 48];
    do_send(&mut buf, helo);
    assert_eq!(
        &buf[..32],
        &[
            b'H', b'E', b'L', b'O', 0, 0, 0, 40, 0, 1, 1, 2, 3, 4, 5, 6, 7, 7, 7, 7, 7, 7, 7, 7,
            7, 7, 7, 7, 7, 7, 7, 7,
        ]
    );
    assert_eq!(
        &buf[32..],
        &[137, 171, 0, 0, 0, 0, 0, 0, 4, 210, b'u', b'k', b'a', b'b', b'c', b'd']
    );
}

#[test]
fn send_bye() {
    let bye = ClientMessage::Bye(55);

    let mut buf = [0u8; 9];
    do_send(&mut buf, bye);

    assert_eq!(&buf[..], &[b'B', b'Y', b'E', b'!', 0, 0, 0, 1, 55]);
}

#[test]
fn send_stat() {
    let stat_data = StatusData {
        crlf: 0,
        buffer_size: 1234,
        fullness: 5678,
        bytes_received: 9123,
        sig_strength: 45,
        jiffies: 6789,
        output_buffer_size: 1234,
        output_buffer_fullness: 5678,
        elapsed_seconds: 9012,
        voltage: 3456,
        elapsed_milliseconds: 7890,
        timestamp: 1234,
        error_code: 5678,
    };
    let stat = ClientMessage::Stat { event_code: "STMt".to_owned(), stat_data };

    let mut buf = [0u8; 61];
    do_send(&mut buf, stat);

    assert_eq!(
        &buf[..32],
        &[
            b'S', b'T', b'A', b'T', 0, 0, 0, 53, b'S', b'T', b'M', b't', 0, 0, 0, 0, 0, 4, 210, 0,
            0, 22, 46, 0, 0, 0, 0, 0, 0, 35, 163, 0
        ]
    );
    assert_eq!(
        &buf[32..],
        &[
            45, 0, 0, 26, 133, 0, 0, 4, 210, 0, 0, 22, 46, 0, 0, 35, 52, 13, 128, 0, 0, 30, 210,
            0, 0, 4, 210, 22, 46
        ]
    );
}

#[test]
fn send_name() {
    let name = ClientMessage::Name("BadBoy".to_owned());

    let mut buf = [0u8; 15];
    do_send(&mut buf, name);

    assert_eq!(
        &buf[..],
        &[b'S', b'E', b'T', b'D', 0, 0, 0, 7, 0, b'B', b'a', b'd', b'B', b'o', b'y']
    );
}

#[test]
fn make_status_message_snapshots_counters() {
    let mut status = StatusData::default();
    status.set_buffer_size(1000);
    status.set_fullness(10);
    status.add_bytes_received(42);
    status.add_crlf(3);
    status.set_timestamp(777);
    status.set_jiffies(5000);
    let msg = status.make_status_message(slimproto::status::StatusCode::Timer);
    match msg {
        ClientMessage::Stat { event_code, stat_data } => {
            assert_eq!(event_code, "STMt");
            assert_eq!(stat_data.buffer_size, 1000);
            assert_eq!(stat_data.fullness, 10);
            assert_eq!(stat_data.bytes_received, 42);
            assert_eq!(stat_data.crlf, 3);
            assert_eq!(stat_data.timestamp, 777);
            assert_eq!(stat_data.jiffies, 5000);
        }
        _ => panic!("status message has the wrong variant"),
    }
}

#[test]
fn counters_wrap() {
    let mut status = StatusData::default();
    status.add_crlf(200);
    status.add_crlf(100);
    assert_eq!(status.crlf, 44);
    status.add_bytes_received(u64::MAX);
    status.add_bytes_received(3);
    assert_eq!(status.bytes_received, 2);
}

#[test]
fn ordinary_messages_are_encodable() {
    assert!(slimproto::codec::message_encodable(&ClientMessage::Bye(0)));
    assert!(slimproto::codec::message_encodable(&ClientMessage::Name("player".to_owned())));
}
