use slimproto::discovery::{
    decode_tlv, discovery_request, parse_discovery_response, parse_ipv4, parse_u16,
};

fn tlv(token: &str, value: &str) -> Vec<u8> {
    let mut v = Vec::new();
    v.extend_from_slice(token.as_bytes());
    v.push(value.len() as u8);
    v.extend_from_slice(value.as_bytes());
    v
}

#[test]
fn three_records() {
    let mut buf = tlv("NAME", "player");
    buf.extend_from_slice(&tlv("IPAD", "172.16.1.2"));
    buf.extend_from_slice(&tlv("JSON", "9000"));
    let m = decode_tlv(&buf);
    assert_eq!(m.name, Some("player".to_owned()));
    assert_eq!(m.version, None);
    assert_eq!(m.address, Some([172, 16, 1, 2]));
    assert_eq!(m.port, Some(9000));
}

#[test]
fn unparsable_address_truncates() {
    let mut buf = tlv("NAME", "player");
    buf.extend_from_slice(&tlv("IPAD", "172.16.1"));
    buf.extend_from_slice(&tlv("JSON", "9000"));
    let m = decode_tlv(&buf);
    assert_eq!(m.name, Some("player".to_owned()));
    assert_eq!(m.address, None);
    assert_eq!(m.port, None);
}

#[test]
fn unknown_token_truncates() {
    let mut buf = tlv("VERS", "8.3");
    buf.extend_from_slice(&tlv("XXXX", "1"));
    buf.extend_from_slice(&tlv("NAME", "player"));
    let m = decode_tlv(&buf);
    assert_eq!(m.version, Some("8.3".to_owned()));
    assert_eq!(m.name, None);
}

#[test]
fn short_record_truncates() {
    let mut buf = tlv("NAME", "player");
    buf.extend_from_slice(b"JSON");
    buf.push(10);
    buf.extend_from_slice(b"90");
    let m = decode_tlv(&buf);
    assert_eq!(m.name, Some("player".to_owned()));
    assert_eq!(m.port, None);
}

#[test]
fn unparsable_port_truncates() {
    let mut buf = tlv("JSON", "65536");
    buf.extend_from_slice(&tlv("NAME", "player"));
    let m = decode_tlv(&buf);
    assert_eq!(m.port, None);
    assert_eq!(m.name, None);
}

#[test]
fn ipv4_grammar() {
    assert_eq!(parse_ipv4(b"0.0.0.0"), Some([0, 0, 0, 0]));
    assert_eq!(parse_ipv4(b"255.255.255.255"), Some([255, 255, 255, 255]));
    assert_eq!(parse_ipv4(b"192.168.0.10"), Some([192, 168, 0, 10]));
    assert_eq!(parse_ipv4(b"256.1.1.1"), None);
    assert_eq!(parse_ipv4(b"01.2.3.4"), None);
    assert_eq!(parse_ipv4(b"1.2.3"), None);
    assert_eq!(parse_ipv4(b"1.2.3.4.5"), None);
    assert_eq!(parse_ipv4(b"1.2.3.4x"), None);
    assert_eq!(parse_ipv4(b""), None);
    assert_eq!(parse_ipv4(b"1..3.4"), None);
}

#[test]
fn u16_grammar() {
    assert_eq!(parse_u16(b"0"), Some(0));
    assert_eq!(parse_u16(b"+9000"), Some(9000));
    assert_eq!(parse_u16(b"65535"), Some(65535));
    assert_eq!(parse_u16(b"65536"), None);
    assert_eq!(parse_u16(b"999999"), None);
    assert_eq!(parse_u16(b""), None);
    assert_eq!(parse_u16(b"+"), None);
    assert_eq!(parse_u16(b"12a"), None);
    assert_eq!(parse_u16(b"-1"), None);
}

#[test]
fn request_datagram() {
    assert_eq!(discovery_request(), b"eNAME\0IPAD\0JSON\0VERS\0".to_vec());
}

#[test]
fn response_needs_the_marker_byte() {
    let mut buf = vec![b'E'];
    buf.extend_from_slice(&tlv("NAME", "player"));
    let m = parse_discovery_response(&buf);
    assert_eq!(m.name, Some("player".to_owned()));

    let other = parse_discovery_response(&buf[1..]);
    assert_eq!(other.name, None);
}

#[test]
fn several_records_then_bad_address_keep_the_good_ones() {
    let mut buf = tlv("NAME", "player");
    buf.extend_from_slice(&tlv("VERS", "8.3"));
    buf.extend_from_slice(&tlv("JSON", "9000"));
    buf.extend_from_slice(&tlv("IPAD", "300.1.2.3"));
    buf.extend_from_slice(&tlv("NAME", "other"));
    let m = decode_tlv(&buf);
    assert_eq!(m.name, Some("player".to_owned()));
    assert_eq!(m.version, Some("8.3".to_owned()));
    assert_eq!(m.port, Some(9000));
    assert_eq!(m.address, None);
}
