use slimproto::proto::{Server, ServerTlv, ServerTlvMap, StreamFlags, SLIM_PORT};

#[test]
fn flags_byte_keeps_known_bits_only() {
    // 0x31 sets invert-polarity-left (0x01) plus two unknown bits (0x30):
    // the unknown bits are dropped, not rejected
    let f = StreamFlags::from_byte(0x31);
    assert_eq!(
        f,
        StreamFlags {
            inf_loop: false,
            no_restart_decoder: false,
            invert_polarity_left: true,
            invert_polarity_right: false,
        }
    );
    let all = StreamFlags::from_byte(0xFF);
    assert!(all.inf_loop && all.no_restart_decoder);
    assert!(all.invert_polarity_left && all.invert_polarity_right);
    assert_eq!(StreamFlags::from_byte(0x3C), StreamFlags::empty());
}

#[test]
fn tlv_map_set_replaces_the_token_slot() {
    let mut m = ServerTlvMap::new();
    m.set(ServerTlv::Port(9000));
    m.set(ServerTlv::Name("first".to_owned()));
    m.set(ServerTlv::Port(9001));
    assert_eq!(m.port, Some(9001));
    assert_eq!(m.name, Some("first".to_owned()));
    assert_eq!(m.version, None);
    assert_eq!(m.address, None);
}

#[test]
fn redirect_targets_the_well_known_port() {
    let s = Server::from_redirect([172, 16, 1, 2], Some("sync".to_owned()));
    assert_eq!(s.ip_address, [172, 16, 1, 2]);
    assert_eq!(s.port, SLIM_PORT);
    assert_eq!(s.sync_group_id, Some("sync".to_owned()));
    assert!(s.tlv_map.is_none());
}

#[test]
fn clone_drops_the_tlv_map() {
    let mut s = Server::from_addr([10, 0, 0, 1], 3483);
    let mut tlv = ServerTlvMap::new();
    tlv.set(ServerTlv::Name("player".to_owned()));
    s.tlv_map = Some(tlv);
    s.sync_group_id = Some("g".to_owned());
    let c = s.clone();
    assert!(c.tlv_map.is_none());
    assert_eq!(c.ip_address, [10, 0, 0, 1]);
    assert_eq!(c.port, 3483);
    assert_eq!(c.sync_group_id, Some("g".to_owned()));
}
