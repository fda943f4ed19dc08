use dnet_p2p::packet::{decode_packet, encode_remove, encode_update, PacketError, UdpPacket};

#[test]
fn remove_packet_layout() {
    let bytes = encode_remove("node-1");
    assert_eq!(bytes, b"dnetRnode-1".to_vec());
}

#[test]
fn update_packet_layout() {
    let bytes = encode_update("{\"a\":1}");
    assert_eq!(&bytes[..5], b"dnetU");
    assert_eq!(&bytes[5..], b"{\"a\":1}");
}

#[test]
fn remove_round_trip() {
    let bytes = encode_remove("worker-é");
    match decode_packet(&bytes) {
        Ok(Some(UdpPacket::Remove(name))) => assert_eq!(name, "worker-é"),
        other => panic!("unexpected {:?}", other),
    }
}

#[test]
fn update_round_trip() {
    let json = "{\"instance\":\"x\"}";
    let bytes = encode_update(json);
    match decode_packet(&bytes) {
        Ok(Some(UdpPacket::Update(text))) => assert_eq!(text, json),
        other => panic!("unexpected {:?}", other),
    }
}

#[test]
fn empty_payload_is_accepted() {
    match decode_packet(b"dnetR") {
        Ok(Some(UdpPacket::Remove(name))) => assert_eq!(name, ""),
        other => panic!("unexpected {:?}", other),
    }
}

#[test]
fn short_packet_is_ignored() {
    assert!(matches!(decode_packet(b"dnet"), Ok(None)));
    assert!(matches!(decode_packet(b""), Ok(None)));
}

#[test]
fn wrong_magic_is_ignored() {
    assert!(matches!(decode_packet(b"dnexUabc"), Ok(None)));
    assert!(matches!(decode_packet(b"DNETRabc"), Ok(None)));
}

#[test]
fn unknown_type_is_ignored() {
    assert!(matches!(decode_packet(b"dnetXabc"), Ok(None)));
    assert!(matches!(decode_packet(b"dnetu{}"), Ok(None)));
}

#[test]
fn invalid_utf8_update_is_an_error() {
    let bytes = [b'd', b'n', b'e', b't', b'U', 0xff, 0xfe];
    assert!(matches!(decode_packet(&bytes), Err(PacketError::UpdateNotUtf8)));
}

#[test]
fn invalid_utf8_remove_is_an_error() {
    let bytes = [b'd', b'n', b'e', b't', b'R', 0xc3];
    assert!(matches!(decode_packet(&bytes), Err(PacketError::RemoveNotUtf8)));
}

#[test]
fn message_type_constants() {
    assert_eq!(dnet_p2p::packet::MSG_TYPE_UPDATE, b'U');
    assert_eq!(dnet_p2p::packet::MSG_TYPE_REMOVE, b'R');
    assert_eq!(dnet_p2p::udp::UdpMessage::MSG_TYPE_UPDATE, b'U');
    assert_eq!(dnet_p2p::udp::UdpMessage::MSG_TYPE_REMOVE, b'R');
}
