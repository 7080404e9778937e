use dashboard::mqtt::{
    build_connect, build_pingreq, build_publish, build_subscribe, decode_remaining_length,
    encode_remaining_length, json_extract, parse_packet_type, parse_publish, MqttPacketType,
};

#[test]
fn packet_type_from_high_nibble() {
    assert_eq!(parse_packet_type(0x10), Some(MqttPacketType::Connect));
    assert_eq!(parse_packet_type(0x20), Some(MqttPacketType::Connack));
    assert_eq!(parse_packet_type(0x30), Some(MqttPacketType::Publish));
    assert_eq!(parse_packet_type(0x3B), Some(MqttPacketType::Publish));
    assert_eq!(parse_packet_type(0x40), Some(MqttPacketType::PubAck));
    assert_eq!(parse_packet_type(0x82), Some(MqttPacketType::Subscribe));
    assert_eq!(parse_packet_type(0x90), Some(MqttPacketType::Suback));
    assert_eq!(parse_packet_type(0xC0), Some(MqttPacketType::PingReq));
    assert_eq!(parse_packet_type(0xD0), Some(MqttPacketType::PingResp));
    assert_eq!(parse_packet_type(0xE0), Some(MqttPacketType::Disconnect));
    assert_eq!(parse_packet_type(0x00), None);
    assert_eq!(parse_packet_type(0x50), None);
    assert_eq!(parse_packet_type(0xF0), None);
}

#[test]
fn pingreq_bytes() {
    assert_eq!(build_pingreq(), [0xC0, 0x00]);
}

#[test]
fn remaining_length_encoding() {
    assert_eq!(encode_remaining_length(0).as_slice(), &[0x00]);
    assert_eq!(encode_remaining_length(127).as_slice(), &[0x7F]);
    assert_eq!(encode_remaining_length(128).as_slice(), &[0x80, 0x01]);
    assert_eq!(encode_remaining_length(321).as_slice(), &[0xC1, 0x02]);
    assert_eq!(encode_remaining_length(16383).as_slice(), &[0xFF, 0x7F]);
    assert_eq!(encode_remaining_length(16384).as_slice(), &[0x80, 0x80, 0x01]);
    assert_eq!(encode_remaining_length(268_435_455).as_slice(), &[0xFF, 0xFF, 0xFF, 0x7F]);
    // A value that needs five bytes keeps only the first four.
    assert_eq!(encode_remaining_length(268_435_456).as_slice(), &[0x80, 0x80, 0x80, 0x80]);
}

#[test]
fn remaining_length_decoding() {
    assert_eq!(decode_remaining_length(&[0x00]), Some((0, 1)));
    assert_eq!(decode_remaining_length(&[0x7F, 0x99]), Some((127, 1)));
    assert_eq!(decode_remaining_length(&[0xC1, 0x02, 0xFF]), Some((321, 2)));
    assert_eq!(decode_remaining_length(&[0x80, 0x80, 0x01]), Some((16384, 3)));
    assert_eq!(decode_remaining_length(&[0xFF, 0xFF, 0xFF, 0x7F]), Some((268_435_455, 4)));
    assert_eq!(decode_remaining_length(&[0x80, 0x80, 0x80, 0x80, 0x01]), None);
    assert_eq!(decode_remaining_length(&[0x80]), None);
    assert_eq!(decode_remaining_length(&[]), None);
}

#[test]
fn remaining_length_roundtrip_on_values() {
    for n in [0u32, 1, 127, 128, 200, 16383, 16384, 2_097_151, 2_097_152, 268_435_455] {
        let mut bytes = encode_remaining_length(n).as_slice().to_vec();
        let used = bytes.len();
        bytes.push(0xAA);
        assert_eq!(decode_remaining_length(&bytes), Some((n, used)));
    }
}

#[test]
fn connect_packet_bytes() {
    let pkt = build_connect("c", "u", "p", 60);
    let expected: Vec<u8> = vec![
        0x10, 19, 0x00, 0x04, b'M', b'Q', b'T', b'T', 4, 0xC2, 0x00, 60, 0x00, 1, b'c', 0x00, 1,
        b'u', 0x00, 1, b'p',
    ];
    assert_eq!(pkt.as_slice(), expected.as_slice());
}

#[test]
fn connect_packet_too_long_drops_payload() {
    let long = "x".repeat(300);
    let pkt = build_connect("id", &long, "pw", 60);
    // The username does not fit the 256-byte payload buffer and is left
    // out, so the payload is header(10) + id field(4) + length(2) + pw(4).
    assert_eq!(pkt[0], 0x10);
    assert_eq!(pkt.len(), 2 + 10 + 4 + 2 + 4);
    assert_eq!(&pkt[12..16], &[0x00, 2, b'i', b'd']);
}

#[test]
fn subscribe_packet_bytes() {
    let pkt = build_subscribe("a/b", 7);
    assert_eq!(pkt.as_slice(), &[0x82, 8, 0x00, 7, 0x00, 3, b'a', b'/', b'b', 0x00]);
}

#[test]
fn publish_packet_bytes() {
    let pkt = build_publish("t", b"hi");
    assert_eq!(pkt.as_slice(), &[0x30, 5, 0x00, 1, b't', b'h', b'i']);
}

#[test]
fn publish_roundtrip() {
    let pkt = build_publish("vps/monitor", b"{\"cpu\": 12.5}");
    let (topic, payload) = parse_publish(&pkt).unwrap();
    assert_eq!(topic, "vps/monitor");
    assert_eq!(payload, b"{\"cpu\": 12.5}");
}

#[test]
fn parse_publish_rejects_bad_packets() {
    // Topic length runs past the end.
    assert_eq!(parse_publish(&[0x30, 4, 0x00, 9, b'a', b'b']), None);
    // No room for the topic length.
    assert_eq!(parse_publish(&[0x30, 1, 0x00]), None);
    // Unterminated remaining length.
    assert_eq!(parse_publish(&[0x30, 0x80, 0x80, 0x80, 0x80]), None);
    // Topic that is not UTF-8.
    assert_eq!(parse_publish(&[0x30, 4, 0x00, 2, 0xFF, 0xFE]), None);
    // Empty payload.
    assert_eq!(parse_publish(&[0x30, 3, 0x00, 1, b'x']), Some(("x", &[][..])));
}

#[test]
fn json_values() {
    assert_eq!(json_extract("{\"temp\": 21.5, \"x\":1}", "temp"), Some("21.5"));
    assert_eq!(json_extract("{\"description\":\"leichter Regen\"}", "description"), Some("leichter Regen"));
    assert_eq!(json_extract("{\"a\": 5 }", "a"), Some("5"));
    assert_eq!(json_extract("{\"a\" :  \"x y\" }", "a"), Some("x y"));
    assert_eq!(json_extract("{\"cpu\":[1,2]}", "cpu"), Some("[1"));
    assert_eq!(json_extract("{\"a\":1}", "b"), None);
    assert_eq!(json_extract("{\"a\" 1}", "a"), None);
    assert_eq!(json_extract("{\"a\":\"open", "a"), None);
    assert_eq!(json_extract("{\"a\":}", "a"), Some(""));
    assert_eq!(json_extract("{\"a\":7", "a"), Some("7"));
}
