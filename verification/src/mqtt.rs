//! MQTT 3.1.1 packet framing: fixed-header type, remaining-length
//! variable integer, and the CONNECT / SUBSCRIBE / PUBLISH / PINGREQ
//! packets the dashboard sends, plus PUBLISH parsing.

use vstd::prelude::*;
use vstd::string::StringSliceAdditionalSpecFns;
use vstd::utf8::*;
use vstd::string::StrSliceExecFns;
use crate::bounded::{
    buf128_extend, buf128_new, buf256_as_slice, buf256_extend, buf256_new,
    buf256_push, buf4_as_slice, buf4_extend, buf4_new, buf4_push, bytes128, bytes256, bytes4,
    extend_capped, push_capped,
};
use crate::text::{collect_chars, is_whitespace, is_ws, str_from_utf8};

verus! {

/// Control packet types recognised in the first byte's high nibble.
#[derive(Debug, Clone, Copy, PartialEq, Eq, Structural)]
pub enum MqttPacketType {
    Connect,
    Connack,
    Publish,
    PubAck,
    Subscribe,
    Suback,
    PingReq,
    PingResp,
    Disconnect,
}

/// The packet type whose code is `nibble`, if it is one of the recognised ones.
pub open spec fn packet_type_of_nibble(nibble: int) -> Option<MqttPacketType> {
    if nibble == 1 {
        Some(MqttPacketType::Connect)
    } else if nibble == 2 {
        Some(MqttPacketType::Connack)
    } else if nibble == 3 {
        Some(MqttPacketType::Publish)
    } else if nibble == 4 {
        Some(MqttPacketType::PubAck)
    } else if nibble == 8 {
        Some(MqttPacketType::Subscribe)
    } else if nibble == 9 {
        Some(MqttPacketType::Suback)
    } else if nibble == 12 {
        Some(MqttPacketType::PingReq)
    } else if nibble == 13 {
        Some(MqttPacketType::PingResp)
    } else if nibble == 14 {
        Some(MqttPacketType::Disconnect)
    } else {
        None
    }
}

/// Decodes the packet type from the first byte of a fixed header.
pub fn parse_packet_type(byte: u8) -> (res: Option<MqttPacketType>)
    ensures
        res == packet_type_of_nibble(byte as int / 16),
{
    let nibble: u8 = byte >> 4;
    assert(nibble == byte / 16) by (bit_vector)
        requires
            nibble == byte >> 4,
    ;
    match nibble {
        1 => Some(MqttPacketType::Connect),
        2 => Some(MqttPacketType::Connack),
        3 => Some(MqttPacketType::Publish),
        4 => Some(MqttPacketType::PubAck),
        8 => Some(MqttPacketType::Subscribe),
        9 => Some(MqttPacketType::Suback),
        12 => Some(MqttPacketType::PingReq),
        13 => Some(MqttPacketType::PingResp),
        14 => Some(MqttPacketType::Disconnect),
        _ => None,
    }
}

/// The two-byte PINGREQ packet.
pub fn build_pingreq() -> (res: [u8; 2])
    ensures
        res@ == seq![0xC0u8, 0x00u8],
{
    [0xC0, 0x00]
}


/// The first `cap` elements of `s`, or all of `s` when it is shorter.
pub open spec fn truncate<A>(s: Seq<A>, cap: int) -> Seq<A> {
    if s.len() <= cap {
        s
    } else {
        s.take(cap)
    }
}

/// The MQTT variable-length encoding of `n`: seven bits per byte, least
/// significant group first, the high bit set on every byte but the last.
pub open spec fn rl_bytes(n: nat) -> Seq<u8>
    decreases n,
{
    if n < 128 {
        seq![n as u8]
    } else {
        seq![(n % 128 + 128) as u8] + rl_bytes(n / 128)
    }
}

/// Decoding of a remaining-length field at the start of `d`: the value and
/// the number of bytes it occupies, or `None` when no terminating byte
/// appears within the first four bytes.
pub open spec fn decode_rl_spec(d: Seq<u8>) -> Option<(u32, usize)> {
    if d.len() >= 1 && d[0] < 128 {
        Some((d[0] as u32, 1usize))
    } else if d.len() >= 2 && d[1] < 128 {
        Some(((d[0] % 128 + d[1] * 128) as u32, 2usize))
    } else if d.len() >= 3 && d[2] < 128 {
        Some(((d[0] % 128 + (d[1] % 128) * 128 + d[2] * 16384) as u32, 3usize))
    } else if d.len() >= 4 && d[3] < 128 {
        Some(
            ((d[0] % 128 + (d[1] % 128) * 128 + (d[2] % 128) * 16384 + d[3] * 2097152) as u32, 4usize),
        )
    } else {
        None
    }
}

proof fn lemma_low7_or_high(v: u32)
    requires
        v < 128,
    ensures
        (v as u8) | 0x80u8 == (v + 128) as u8,
{
    assert((v as u8) | 0x80u8 == (v + 128) as u8) by (bit_vector)
        requires
            v < 128,
    ;
}

/// Encodes `length` as a remaining-length field into at most four bytes;
/// a value of 2^28 or more, which needs five, keeps only the first four.
pub fn encode_remaining_length(length: u32) -> (res: heapless::Vec<u8, 4>)
    ensures
        bytes4(res) == truncate(rl_bytes(length as nat), 4),
{
    let mut length = length;
    let mut buf = buf4_new();
    let ghost n = length as nat;
    let ghost mut emitted: Seq<u8> = Seq::empty();
    loop
        invariant_except_break
            emitted + rl_bytes(length as nat) == rl_bytes(n),
        invariant
            bytes4(buf) == truncate(emitted, 4),
        ensures
            emitted == rl_bytes(n),
        decreases length,
    {
        let low: u32 = length % 128;
        let mut byte: u8 = low as u8;
        let ghost old_len = length;
        length = length / 128;
        if length > 0 {
            proof {
                lemma_low7_or_high(low);
            }
            byte = byte | 0x80;
        }
        let _ = buf4_push(&mut buf, byte);
        proof {
            let tail = if length > 0 { rl_bytes(length as nat) } else { Seq::<u8>::empty() };
            assert(rl_bytes(old_len as nat) == seq![byte] + tail);
            assert(emitted + seq![byte] + tail == rl_bytes(n));
            emitted = emitted + seq![byte];
            assert(bytes4(buf) =~= truncate(emitted, 4));
        }
        if length == 0 {
            assert(emitted =~= rl_bytes(n));
            break;
        }
    }
    buf
}

/// Decodes a remaining-length field at the start of `data`: its value and
/// how many bytes it took, or `None` when it is cut short or longer than
/// four bytes.
pub fn decode_remaining_length(data: &[u8]) -> (res: Option<(u32, usize)>)
    ensures
        res == decode_rl_spec(data@),
{
    let mut value: u32 = 0;
    let mut multiplier: u32 = 1;
    let mut i: usize = 0;
    while i < data.len()
        invariant
            i <= 3,
            multiplier == (if i == 0 { 1u32 } else if i == 1 { 128u32 } else if i == 2 { 16384u32 } else { 2097152u32 }),
            i >= 1 ==> data@[0] >= 128,
            i >= 2 ==> data@[1] >= 128,
            i >= 3 ==> data@[2] >= 128,
            value as int == (if i == 0 { 0int } else if i == 1 { (data@[0] % 128) as int } else if i == 2 {
                data@[0] % 128 + (data@[1] % 128) * 128
            } else {
                data@[0] % 128 + (data@[1] % 128) * 128 + (data@[2] % 128) * 16384
            }),
        decreases data.len() - i,
    {
        let byte = data[i];
        let low: u32 = (byte & 0x7F) as u32;
        assert(low == byte % 128) by (bit_vector)
            requires
                low == (byte & 0x7F) as u32,
        ;
        value = value + low * multiplier;
        if multiplier > 128 * 128 * 128 {
            return None;
        }
        multiplier = multiplier * 128;
        if byte & 0x80 == 0 {
            assert(byte < 128) by (bit_vector)
                requires
                    byte & 0x80 == 0,
            ;
            return Some((value, i + 1));
        }
        assert(byte >= 128) by (bit_vector)
            requires
                byte & 0x80 != 0,
        ;
        if i >= 3 {
            return None;
        }
        i = i + 1;
    }
    None
}


proof fn lemma_rl_bytes_len(n: nat)
    ensures
        rl_bytes(n).len() >= 1,
        n < 128 ==> rl_bytes(n).len() == 1,
        n < 16384 ==> rl_bytes(n).len() <= 2,
        n < 2097152 ==> rl_bytes(n).len() <= 3,
        n < 268435456 ==> rl_bytes(n).len() <= 4,
        n < 34359738368 ==> rl_bytes(n).len() <= 5,
    decreases n,
{
    if n >= 128 {
        lemma_rl_bytes_len(n / 128);
    }
}

/// A remaining-length value below 2^28 decodes back from its encoding,
/// whatever bytes follow it, and occupies as many bytes as were written.
pub proof fn law_remaining_length_roundtrip(n: u32, rest: Seq<u8>)
    requires
        n < 268435456,
    ensures
        truncate(rl_bytes(n as nat), 4) == rl_bytes(n as nat),
        decode_rl_spec(rl_bytes(n as nat) + rest) == Some((n, rl_bytes(n as nat).len() as usize)),
{
    lemma_rl_bytes_len(n as nat);
    let m = n as nat;
    let d = rl_bytes(m) + rest;
    if m < 128 {
        assert(d[0] == n as u8);
    } else {
        let m1 = m / 128;
        assert(rl_bytes(m) == seq![(m % 128 + 128) as u8] + rl_bytes(m1));
        assert(d[0] == (m % 128 + 128) as u8);
        if m1 < 128 {
            assert(rl_bytes(m1) == seq![m1 as u8]);
            assert(d[1] == m1 as u8);
        } else {
            let m2 = m1 / 128;
            assert(rl_bytes(m1) == seq![(m1 % 128 + 128) as u8] + rl_bytes(m2));
            assert(d[1] == (m1 % 128 + 128) as u8);
            if m2 < 128 {
                assert(rl_bytes(m2) == seq![m2 as u8]);
                assert(d[2] == m2 as u8);
            } else {
                let m3 = m2 / 128;
                assert(rl_bytes(m2) == seq![(m2 % 128 + 128) as u8] + rl_bytes(m3));
                assert(m3 < 128);
                assert(rl_bytes(m3) == seq![m3 as u8]);
                assert(d[2] == (m2 % 128 + 128) as u8);
                assert(d[3] == m3 as u8);
            }
        }
    }
}


/// Big-endian bytes of a 16-bit value.
pub open spec fn be16(v: u16) -> Seq<u8> {
    seq![(v / 256) as u8, (v % 256) as u8]
}

/// A UTF-8 string field: its byte length (taken modulo 2^16) as a
/// big-endian u16, then its bytes; each part is appended to `buf`
/// (capacity 256) only if it fits.
pub open spec fn append_field(buf: Seq<u8>, s: Seq<u8>) -> Seq<u8> {
    extend_capped(extend_capped(buf, be16((s.len() % 65536) as u16), 256), s, 256)
}

/// A packet of capacity `cap`: the header `first` followed by the
/// remaining length of `payload` (in a four-byte header buffer), then the
/// payload, which is left out when header and payload together overflow.
pub open spec fn frame(first: u8, payload: Seq<u8>, cap: int) -> Seq<u8> {
    let header = extend_capped(seq![first], truncate(rl_bytes(payload.len()), 4), 4);
    extend_capped(extend_capped(Seq::empty(), header, cap), payload, cap)
}

/// The variable header and payload of a CONNECT packet: protocol name
/// "MQTT", level 4, flags for username, password and clean session, the
/// keep-alive, then the client id, username and password fields.
pub open spec fn connect_payload(client_id: Seq<u8>, username: Seq<u8>, password: Seq<u8>, keepalive: u16) -> Seq<u8> {
    let fixed = seq![0x00u8, 0x04u8, 0x4Du8, 0x51u8, 0x54u8, 0x54u8, 4u8, 0xC2u8] + be16(keepalive);
    append_field(append_field(append_field(fixed, client_id), username), password)
}

/// The payload of a SUBSCRIBE packet: packet id, topic filter, QoS 0.
pub open spec fn subscribe_payload(topic_filter: Seq<u8>, packet_id: u16) -> Seq<u8> {
    push_capped(append_field(be16(packet_id), topic_filter), 0u8, 256)
}

/// The payload of a PUBLISH packet (QoS 0): topic field, then the data.
pub open spec fn publish_payload(topic: Seq<u8>, data: Seq<u8>) -> Seq<u8> {
    extend_capped(append_field(Seq::empty(), topic), data, 256)
}

/// Every packet the builders make starts with its type byte and a
/// remaining-length byte; when header and payload fit in the buffer the
/// packet is exactly the type byte, the encoded payload length and the
/// payload, and otherwise the payload is left out. The type bytes of
/// CONNECT, SUBSCRIBE and PUBLISH decode to those packet types.
pub proof fn law_frame_layout(first: u8, payload: Seq<u8>, cap: int)
    requires
        payload.len() <= 256,
        cap >= 4,
    ensures
        frame(first, payload, cap).len() >= 2,
        frame(first, payload, cap)[0] == first,
        1 + rl_bytes(payload.len()).len() + payload.len() <= cap ==> frame(first, payload, cap) == seq![
            first,
        ] + rl_bytes(payload.len()) + payload,
        1 + rl_bytes(payload.len()).len() + payload.len() > cap ==> frame(first, payload, cap) == seq![
            first,
        ] + rl_bytes(payload.len()),
        packet_type_of_nibble(0x10u8 as int / 16) == Some(MqttPacketType::Connect),
        packet_type_of_nibble(0x82u8 as int / 16) == Some(MqttPacketType::Subscribe),
        packet_type_of_nibble(0x30u8 as int / 16) == Some(MqttPacketType::Publish),
{
    lemma_rl_bytes_len(payload.len());
    let rl = rl_bytes(payload.len());
    assert(truncate(rl, 4) == rl);
    let header = extend_capped(seq![first], rl, 4);
    assert(header =~= seq![first] + rl);
    assert(extend_capped(Seq::empty(), header, cap) =~= header);
}

fn be16_exec(v: u16) -> (res: [u8; 2])
    ensures
        res@ == be16(v),
{
    let hi: u8 = (v >> 8) as u8;
    let lo: u8 = (v & 0xFF) as u8;
    assert(hi == (v / 256) as u8 && lo == (v % 256) as u8) by (bit_vector)
        requires
            hi == (v >> 8) as u8,
            lo == (v & 0xFF) as u8,
    ;
    let res = [hi, lo];
    assert(res@ =~= be16(v));
    res
}

fn append_utf8(buf: &mut heapless::Vec<u8, 256>, s: &str)
    ensures
        bytes256(*final(buf)) == append_field(bytes256(*old(buf)), s.spec_bytes()),
{
    let bytes = s.as_bytes();
    let n: usize = bytes.len();
    let len: u16 = n as u16;
    assert(len == (n % 65536) as u16) by (bit_vector)
        requires
            len == n as u16,
    ;
    let header = be16_exec(len);
    let _ = buf256_extend(buf, &header);
    let _ = buf256_extend(buf, bytes);
}

/// The fixed header of a packet: the type byte and the remaining length
/// of a payload of `len` bytes, in a four-byte buffer.
fn fixed_header(first: u8, len: usize) -> (res: heapless::Vec<u8, 4>)
    requires
        len <= 256,
    ensures
        bytes4(res) == extend_capped(seq![first], truncate(rl_bytes(len as nat), 4), 4),
{
    let mut header = buf4_new();
    let _ = buf4_push(&mut header, first);
    assert(bytes4(header) =~= seq![first]);
    let rl = encode_remaining_length(len as u32);
    let _ = buf4_extend(&mut header, buf4_as_slice(&rl));
    header
}

fn frame256(first: u8, payload: &heapless::Vec<u8, 256>) -> (res: heapless::Vec<u8, 256>)
    ensures
        bytes256(res) == frame(first, bytes256(*payload), 256),
{
    let body = buf256_as_slice(payload);
    let header = fixed_header(first, body.len());
    let mut packet = buf256_new();
    let _ = buf256_extend(&mut packet, buf4_as_slice(&header));
    let _ = buf256_extend(&mut packet, body);
    packet
}

fn frame128(first: u8, payload: &heapless::Vec<u8, 256>) -> (res: heapless::Vec<u8, 128>)
    ensures
        bytes128(res) == frame(first, bytes256(*payload), 128),
{
    let body = buf256_as_slice(payload);
    let header = fixed_header(first, body.len());
    let mut packet = buf128_new();
    let _ = buf128_extend(&mut packet, buf4_as_slice(&header));
    let _ = buf128_extend(&mut packet, body);
    packet
}

/// Builds a CONNECT packet (clean session, username and password set) in
/// a 256-byte buffer; any part that does not fit is left out.
pub fn build_connect(client_id: &str, username: &str, password: &str, keepalive: u16) -> (res: heapless::Vec<u8, 256>)
    ensures
        bytes256(res) == frame(
            0x10,
            connect_payload(client_id.spec_bytes(), username.spec_bytes(), password.spec_bytes(), keepalive),
            256,
        ),
{
    let mut payload = buf256_new();
    let proto: [u8; 6] = [0x00, 0x04, 0x4D, 0x51, 0x54, 0x54];
    let _ = buf256_extend(&mut payload, &proto);
    let _ = buf256_push(&mut payload, 4);
    let flags: u8 = 0x80 | 0x40 | 0x02;
    assert(flags == 0xC2) by (bit_vector)
        requires
            flags == 0x80u8 | 0x40u8 | 0x02u8,
    ;
    let _ = buf256_push(&mut payload, flags);
    let ka = be16_exec(keepalive);
    let _ = buf256_extend(&mut payload, &ka);
    assert(bytes256(payload) =~= seq![0x00u8, 0x04u8, 0x4Du8, 0x51u8, 0x54u8, 0x54u8, 4u8, 0xC2u8] + be16(keepalive));
    append_utf8(&mut payload, client_id);
    append_utf8(&mut payload, username);
    append_utf8(&mut payload, password);
    frame256(0x10, &payload)
}

/// Builds a SUBSCRIBE packet for one topic filter at QoS 0; the payload is
/// assembled in a 256-byte buffer and the packet in a 128-byte one.
pub fn build_subscribe(topic_filter: &str, packet_id: u16) -> (res: heapless::Vec<u8, 128>)
    ensures
        bytes128(res) == frame(0x82, subscribe_payload(topic_filter.spec_bytes(), packet_id), 128),
{
    let mut payload = buf256_new();
    let id = be16_exec(packet_id);
    let _ = buf256_extend(&mut payload, &id);
    assert(bytes256(payload) =~= be16(packet_id));
    append_utf8(&mut payload, topic_filter);
    let _ = buf256_push(&mut payload, 0);
    frame128(0x82, &payload)
}

/// Builds a QoS 0 PUBLISH packet carrying `payload_data` on `topic` in a
/// 256-byte buffer.
pub fn build_publish(topic: &str, payload_data: &[u8]) -> (res: heapless::Vec<u8, 256>)
    ensures
        bytes256(res) == frame(0x30, publish_payload(topic.spec_bytes(), payload_data@), 256),
{
    let mut payload = buf256_new();
    append_utf8(&mut payload, topic);
    let _ = buf256_extend(&mut payload, payload_data);
    frame256(0x30, &payload)
}


/// The topic bytes and payload of a PUBLISH packet `d` (whose first byte
/// is the fixed header), or `None` when the remaining length cannot be
/// read, the topic length or topic runs past the end, or the topic is not
/// valid UTF-8. The payload is everything after the topic.
pub open spec fn parse_publish_spec(d: Seq<u8>) -> Option<(Seq<u8>, Seq<u8>)> {
    match decode_rl_spec(d.skip(1)) {
        None => None,
        Some((_, consumed)) => {
            let vhs = 1 + consumed;
            if vhs + 2 > d.len() {
                None
            } else {
                let topic_start = vhs + 2;
                let topic_end = topic_start + d[vhs as int] * 256 + d[vhs + 1];
                if topic_end > d.len() {
                    None
                } else if !valid_utf8(d.subrange(topic_start, topic_end)) {
                    None
                } else {
                    Some((d.subrange(topic_start, topic_end), d.skip(topic_end)))
                }
            }
        },
    }
}

/// Parsing a PUBLISH packet does not look at the flag bits of its first
/// byte (DUP, QoS, RETAIN): with any other first byte the same packet
/// gives the same topic and payload, or fails alike.
pub proof fn law_publish_ignores_first_byte(d: Seq<u8>, first: u8)
    requires
        d.len() >= 1,
    ensures
        parse_publish_spec(d.update(0, first)) == parse_publish_spec(d),
{
    let e = d.update(0, first);
    assert(e.skip(1) =~= d.skip(1));
    assert forall|k: int| 1 <= k < d.len() implies e[k] == d[k] by {}
    match decode_rl_spec(d.skip(1)) {
        None => {},
        Some((_, consumed)) => {
            let vhs = 1 + consumed;
            if vhs + 2 <= d.len() {
                let topic_start = vhs + 2;
                let topic_end = topic_start + d[vhs as int] * 256 + d[vhs + 1];
                assert(e[vhs as int] == d[vhs as int]);
                assert(e[vhs + 1] == d[vhs + 1]);
                if topic_end <= d.len() {
                    assert(e.subrange(topic_start, topic_end) =~= d.subrange(topic_start, topic_end));
                    assert(e.skip(topic_end) =~= d.skip(topic_end));
                }
            }
        },
    }
}

/// Splits a received PUBLISH packet into its topic and payload.
pub fn parse_publish(data: &[u8]) -> (res: Option<(&str, &[u8])>)
    requires
        data@.len() >= 1,
    ensures
        res is None <==> parse_publish_spec(data@) is None,
        res matches Some((topic, payload)) ==> parse_publish_spec(data@) == Some(
            (topic.spec_bytes(), payload@),
        ),
{
    let rest = vstd::slice::slice_subrange(data, 1, data.len());
    assert(rest@ =~= data@.skip(1));
    let consumed = match decode_remaining_length(rest) {
        Some((_, c)) => c,
        None => return None,
    };
    let var_header_start = 1 + consumed;
    if var_header_start + 2 > data.len() {
        return None;
    }
    let hi: u8 = data[var_header_start];
    let lo: u8 = data[var_header_start + 1];
    let topic_len: u16 = ((hi as u16) << 8) | (lo as u16);
    assert(topic_len == hi * 256 + lo) by (bit_vector)
        requires
            topic_len == ((hi as u16) << 8) | (lo as u16),
    ;
    let topic_start = var_header_start + 2;
    let topic_end = topic_start + topic_len as usize;
    if topic_end > data.len() {
        return None;
    }
    let topic_bytes = vstd::slice::slice_subrange(data, topic_start, topic_end);
    let topic = match str_from_utf8(topic_bytes) {
        Ok(t) => t,
        Err(_) => return None,
    };
    let payload = vstd::slice::slice_subrange(data, topic_end, data.len());
    assert(payload@ =~= data@.skip(topic_end as int));
    Some((topic, payload))
}

proof fn lemma_str_bytes_valid(s: &str)
    ensures
        valid_utf8(s.spec_bytes()),
{
    encode_utf8_valid_utf8(s@);
}

/// A PUBLISH packet built for `topic` and `data` parses back into exactly
/// that topic and data, as long as the whole packet fits its buffer.
pub proof fn law_publish_roundtrip(topic: &str, data: Seq<u8>)
    requires
        2 + topic.spec_bytes().len() + data.len() <= 253,
    ensures
        parse_publish_spec(frame(0x30, publish_payload(topic.spec_bytes(), data), 256)) == Some(
            (topic.spec_bytes(), data),
        ),
{
    let t = topic.spec_bytes();
    lemma_str_bytes_valid(topic);
    let tl = (t.len() % 65536) as u16;
    assert(tl as int == t.len());
    let payload = publish_payload(t, data);
    assert(append_field(Seq::empty(), t) =~= be16(tl) + t);
    assert(payload =~= be16(tl) + t + data);
    let n = payload.len();
    law_remaining_length_roundtrip(n as u32, payload);
    lemma_rl_bytes_len(n);
    let rl = rl_bytes(n);
    let header = extend_capped(seq![0x30u8], truncate(rl, 4), 4);
    assert(header =~= seq![0x30u8] + rl);
    let pkt = frame(0x30, payload, 256);
    assert(extend_capped(Seq::empty(), header, 256) =~= header);
    assert(pkt =~= seq![0x30u8] + rl + payload);
    assert(pkt.skip(1) =~= rl + payload);
    let vhs: int = 1 + rl.len() as int;
    assert(pkt[vhs] == payload[0]);
    assert(pkt[vhs + 1] == payload[1]);
    assert(payload[0] * 256 + payload[1] == tl);
    let ts: int = vhs + 2;
    assert(pkt.subrange(ts, ts + t.len()) =~= t);
    assert(pkt.skip(ts + t.len()) =~= data);
}


/// The first position at or after `i` where `pat` occurs in `m`.
pub open spec fn first_match_from(m: Seq<char>, pat: Seq<char>, i: int) -> Option<int>
    decreases m.len() + 1 - i,
{
    if i < 0 || i + pat.len() > m.len() {
        None
    } else if m.subrange(i, i + pat.len()) == pat {
        Some(i)
    } else {
        first_match_from(m, pat, i + 1)
    }
}

/// The first position at or after `i` that does not hold whitespace (or
/// the end of `m`).
pub open spec fn skip_ws_from(m: Seq<char>, i: int) -> int
    decreases m.len() - i,
{
    if 0 <= i < m.len() && is_ws(m[i]) {
        skip_ws_from(m, i + 1)
    } else {
        i
    }
}

/// The first position at or after `i` holding `c`.
pub open spec fn first_char_from(m: Seq<char>, c: char, i: int) -> Option<int>
    decreases m.len() - i,
{
    if i < 0 || i >= m.len() {
        None
    } else if m[i] == c {
        Some(i)
    } else {
        first_char_from(m, c, i + 1)
    }
}

/// Whether `c` ends an unquoted JSON value: `,`, `}` or `]`.
pub open spec fn is_value_end(c: char) -> bool {
    c == ',' || c == '}' || c == ']'
}

/// The first position at or after `i` that ends an unquoted value (or
/// the end of `m`).
pub open spec fn first_value_end_from(m: Seq<char>, i: int) -> int
    decreases m.len() - i,
{
    if 0 <= i < m.len() && !is_value_end(m[i]) {
        first_value_end_from(m, i + 1)
    } else {
        i
    }
}

/// `j` moved back over trailing whitespace, but not below `lo`.
pub open spec fn trim_end_to(m: Seq<char>, lo: int, j: int) -> int
    decreases j - lo,
{
    if j > lo && is_ws(m[j - 1]) {
        trim_end_to(m, lo, j - 1)
    } else {
        j
    }
}

/// The value of `"key"` in the flat JSON-like text `m`: after the first
/// occurrence of the quoted key and a colon (whitespace allowed around
/// it), either the text of a quoted string up to the next quote, or the
/// text up to the next `,`, `}` or `]` with surrounding whitespace
/// removed. `None` when the key, the colon or a closing quote is missing.
pub open spec fn json_value_spec(m: Seq<char>, key: Seq<char>) -> Option<Seq<char>> {
    let pat = seq!['"'] + key + seq!['"'];
    match first_match_from(m, pat, 0) {
        None => None,
        Some(idx) => {
            let a = skip_ws_from(m, idx + pat.len());
            if a >= m.len() || m[a] != ':' {
                None
            } else {
                let b = skip_ws_from(m, a + 1);
                if b < m.len() && m[b] == '"' {
                    match first_char_from(m, '"', b + 1) {
                        None => None,
                        Some(e) => Some(m.subrange(b + 1, e)),
                    }
                } else {
                    let e = first_value_end_from(m, b);
                    Some(m.subrange(b, trim_end_to(m, b, e)))
                }
            }
        },
    }
}

/// Whether every character of `s` is whitespace.
pub open spec fn all_ws(s: Seq<char>) -> bool {
    forall|k: int| 0 <= k < s.len() ==> is_ws(#[trigger] s[k])
}

/// Whether `v` can stand as an unquoted JSON value such as a number: it
/// is not empty, does not start with a quote, holds none of `,`, `}`,
/// `]`, and neither starts nor ends with whitespace.
pub open spec fn plain_token(v: Seq<char>) -> bool {
    &&& v.len() >= 1
    &&& v[0] != '"'
    &&& !is_ws(v[0])
    &&& !is_ws(v.last())
    &&& forall|k: int| 0 <= k < v.len() ==> !is_value_end(#[trigger] v[k])
}

proof fn lemma_first_match_at(m: Seq<char>, pat: Seq<char>, j: int, p: int)
    requires
        0 <= j <= p,
        p + pat.len() <= m.len(),
        m.subrange(p, p + pat.len()) == pat,
        forall|i: int| j <= i < p ==> #[trigger] m.subrange(i, i + pat.len()) != pat,
    ensures
        first_match_from(m, pat, j) == Some(p),
    decreases p - j,
{
    if j < p {
        assert(m.subrange(j, j + pat.len()) != pat);
        lemma_first_match_at(m, pat, j + 1, p);
    }
}

proof fn lemma_skip_ws_run(m: Seq<char>, i: int, n: int)
    requires
        0 <= i,
        0 <= n,
        i + n <= m.len(),
        forall|k: int| i <= k < i + n ==> is_ws(#[trigger] m[k]),
        i + n < m.len() ==> !is_ws(m[i + n]),
    ensures
        skip_ws_from(m, i) == i + n,
    decreases n,
{
    if n > 0 {
        assert(is_ws(m[i]));
        lemma_skip_ws_run(m, i + 1, n - 1);
    }
}

proof fn lemma_value_end_run(m: Seq<char>, i: int, n: int)
    requires
        0 <= i,
        0 <= n,
        i + n <= m.len(),
        forall|k: int| i <= k < i + n ==> !is_value_end(#[trigger] m[k]),
    ensures
        first_value_end_from(m, i) == first_value_end_from(m, i + n),
    decreases n,
{
    if n > 0 {
        assert(!is_value_end(m[i]));
        lemma_value_end_run(m, i + 1, n - 1);
    }
}

proof fn lemma_trim_ws_run(m: Seq<char>, lo: int, j: int, n: int)
    requires
        lo < j,
        0 <= n,
        j + n <= m.len(),
        !is_ws(m[j - 1]),
        forall|k: int| j <= k < j + n ==> is_ws(#[trigger] m[k]),
    ensures
        trim_end_to(m, lo, j + n) == j,
    decreases n,
{
    if n > 0 {
        assert(is_ws(m[j + n - 1]));
        lemma_trim_ws_run(m, lo, j, n - 1);
    }
}

/// In a flat JSON message where the quoted key first occurs after
/// `prefix`, followed by a colon, optional whitespace, an unquoted token
/// `v` (a number with its sign, `true`, `null`, ...), optional whitespace
/// and then the end of the text or one of `,`, `}`, `]`, the value of the
/// key is exactly `v`: no character of it is dropped or added.
pub proof fn law_json_plain_value(
    prefix: Seq<char>,
    key: Seq<char>,
    ws1: Seq<char>,
    v: Seq<char>,
    ws2: Seq<char>,
    rest: Seq<char>,
)
    requires
        forall|i: int|
            0 <= i < prefix.len() ==> #[trigger] (prefix + seq!['"'] + key + seq!['"']).subrange(
                i,
                i + key.len() + 2,
            ) != seq!['"'] + key + seq!['"'],
        all_ws(ws1),
        plain_token(v),
        all_ws(ws2),
        rest.len() == 0 || is_value_end(rest[0]),
    ensures
        json_value_spec(
            prefix + seq!['"'] + key + seq!['"', ':'] + ws1 + v + ws2 + rest,
            key,
        ) == Some(v),
{
    let pat = seq!['"'] + key + seq!['"'];
    let m = prefix + seq!['"'] + key + seq!['"', ':'] + ws1 + v + ws2 + rest;
    let head = prefix + seq!['"'] + key + seq!['"'];
    let p = prefix.len() as int;
    let lp = pat.len() as int;
    let a = p + lp;
    let b = a + 1 + ws1.len();
    let c = b + v.len();
    let d = c + ws2.len();
    assert(m =~= head + seq![':'] + ws1 + v + ws2 + rest);
    assert(head.len() == a);
    assert(m.len() == d + rest.len());
    assert forall|k: int| 0 <= k < a implies m[k] == head[k] by {}
    assert(m[a] == ':');
    assert forall|k: int| a + 1 <= k < b implies m[k] == ws1[k - a - 1] by {}
    assert forall|k: int| b <= k < c implies m[k] == v[k - b] by {}
    assert forall|k: int| c <= k < d implies m[k] == ws2[k - c] by {}
    assert(rest.len() > 0 ==> m[d] == rest[0]);
    // the quoted key is found right after the prefix
    assert(m.subrange(p, a) =~= pat);
    assert forall|i: int| 0 <= i < p implies #[trigger] m.subrange(i, i + lp) != pat by {
        assert(m.subrange(i, i + lp) =~= head.subrange(i, i + key.len() + 2));
    }
    lemma_first_match_at(m, pat, 0, p);
    // the colon follows at once
    assert(!is_ws(':'));
    lemma_skip_ws_run(m, a, 0);
    // the value starts after the whitespace
    assert forall|k: int| a + 1 <= k < a + 1 + ws1.len() implies is_ws(#[trigger] m[k]) by {
        assert(is_ws(ws1[k - a - 1]));
    }
    assert(m[b] == v[0]);
    lemma_skip_ws_run(m, a + 1, ws1.len() as int);
    // it runs to the first `,`, `}` or `]`, past the whitespace after it
    assert forall|k: int| b <= k < c implies !is_value_end(#[trigger] m[k]) by {
        assert(!is_value_end(v[k - b]));
    }
    lemma_value_end_run(m, b, v.len() as int);
    assert forall|k: int| c <= k < d implies is_ws(#[trigger] m[k]) by {
        assert(is_ws(ws2[k - c]));
    }
    assert forall|k: int| c <= k < d implies !is_value_end(#[trigger] m[k]) by {
        assert(is_ws(m[k]));
    }
    lemma_value_end_run(m, c, ws2.len() as int);
    assert(first_value_end_from(m, d) == d);
    // and the trailing whitespace is trimmed off
    assert(m[c - 1] == v.last());
    lemma_trim_ws_run(m, b, c, ws2.len() as int);
    assert(m.subrange(b, c) =~= v);
}

pub(crate) fn matches_at(m: &Vec<char>, pat: &Vec<char>, i: usize) -> (res: bool)
    requires
        i + pat@.len() <= m@.len(),
    ensures
        res == (m@.subrange(i as int, i + pat@.len()) == pat@),
{
    let n = m.len();
    let mut j: usize = 0;
    while j < pat.len()
        invariant
            j <= pat@.len(),
            i + pat@.len() <= m@.len(),
            n == m@.len(),
            forall|k: int| 0 <= k < j ==> m@[i + k] == pat@[k],
        decreases pat@.len() - j,
    {
        if m[i + j] != pat[j] {
            assert(m@.subrange(i as int, i + pat@.len())[j as int] != pat@[j as int]);
            return false;
        }
        j = j + 1;
    }
    assert(m@.subrange(i as int, i + pat@.len()) =~= pat@);
    true
}

pub(crate) proof fn lemma_first_match_bounds(m: Seq<char>, pat: Seq<char>, i: int)
    ensures
        first_match_from(m, pat, i) matches Some(k) ==> i <= k && 0 <= k && k + pat.len() <= m.len(),
    decreases m.len() + 1 - i,
{
    if !(i < 0 || i + pat.len() > m.len()) && m.subrange(i, i + pat.len()) != pat {
        lemma_first_match_bounds(m, pat, i + 1);
    }
}

/// The first match of `pat` in `m` at or after `start`.
pub(crate) fn find_pattern_from(m: &Vec<char>, pat: &Vec<char>, start: usize) -> (res: Option<usize>)
    requires
        pat@.len() >= 1,
        start <= m@.len(),
    ensures
        match first_match_from(m@, pat@, start as int) {
            None => res is None,
            Some(i) => start <= i && i + pat@.len() <= m@.len() && res == Some(i as usize),
        },
        res matches Some(i) ==> i + pat@.len() <= m@.len(),
{
    proof {
        lemma_first_match_bounds(m@, pat@, start as int);
    }
    if pat.len() > m.len() {
        return None;
    }
    let mut i: usize = start;
    while i <= m.len() - pat.len()
        invariant
            pat@.len() >= 1,
            pat@.len() <= m@.len(),
            start <= i,
            i <= m@.len() - pat@.len() + 1 || i == start,
            first_match_from(m@, pat@, start as int) == first_match_from(m@, pat@, i as int),
        decreases m@.len() + 1 - i,
    {
        if matches_at(m, pat, i) {
            return Some(i);
        }
        i = i + 1;
    }
    None
}

/// The first match of `pat` in `m`.
pub(crate) fn find_pattern(m: &Vec<char>, pat: &Vec<char>) -> (res: Option<usize>)
    requires
        pat@.len() >= 1,
    ensures
        match first_match_from(m@, pat@, 0) {
            None => res is None,
            Some(i) => 0 <= i && i + pat@.len() <= m@.len() && res == Some(i as usize),
        },
        res matches Some(i) ==> i + pat@.len() <= m@.len(),
{
    find_pattern_from(m, pat, 0)
}

pub(crate) fn skip_ws(m: &Vec<char>, i: usize) -> (res: usize)
    requires
        i <= m@.len(),
    ensures
        res as int == skip_ws_from(m@, i as int),
        i <= res <= m@.len(),
{
    let mut j = i;
    while j < m.len() && is_whitespace(m[j])
        invariant
            i <= j <= m@.len(),
            skip_ws_from(m@, i as int) == skip_ws_from(m@, j as int),
        decreases m@.len() - j,
    {
        j = j + 1;
    }
    j
}

pub(crate) fn find_char(m: &Vec<char>, c: char, i: usize) -> (res: Option<usize>)
    requires
        i <= m@.len(),
    ensures
        match first_char_from(m@, c, i as int) {
            None => res is None,
            Some(k) => res == Some(k as usize) && i <= k < m@.len(),
        },
        res matches Some(k) ==> first_char_from(m@, c, i as int) == Some(k as int),
{
    let mut j = i;
    while j < m.len()
        invariant
            i <= j <= m@.len(),
            first_char_from(m@, c, i as int) == first_char_from(m@, c, j as int),
        decreases m@.len() - j,
    {
        if m[j] == c {
            return Some(j);
        }
        j = j + 1;
    }
    None
}

pub(crate) fn find_value_end(m: &Vec<char>, i: usize) -> (res: usize)
    requires
        i <= m@.len(),
    ensures
        res as int == first_value_end_from(m@, i as int),
        i <= res <= m@.len(),
{
    let mut j = i;
    while j < m.len() && !(m[j] == ',' || m[j] == '}' || m[j] == ']')
        invariant
            i <= j <= m@.len(),
            first_value_end_from(m@, i as int) == first_value_end_from(m@, j as int),
        decreases m@.len() - j,
    {
        j = j + 1;
    }
    j
}

pub(crate) fn trim_end(m: &Vec<char>, lo: usize, j: usize) -> (res: usize)
    requires
        lo <= j <= m@.len(),
    ensures
        res as int == trim_end_to(m@, lo as int, j as int),
        lo <= res <= j,
{
    let mut k = j;
    while k > lo && is_whitespace(m[k - 1])
        invariant
            lo <= k <= j,
            j <= m@.len(),
            trim_end_to(m@, lo as int, j as int) == trim_end_to(m@, lo as int, k as int),
        decreases k,
    {
        k = k - 1;
    }
    k
}

/// Extracts the value of `"key"` from a flat JSON message (see
/// `json_value_spec`), as a slice of `msg`.
pub fn json_extract<'a>(msg: &'a str, key: &str) -> (res: Option<&'a str>)
    ensures
        res is None <==> json_value_spec(msg@, key@) is None,
        res matches Some(v) ==> json_value_spec(msg@, key@) == Some(v@),
{
    let m = collect_chars(msg);
    let mlen = m.len();
    let key_chars = collect_chars(key);
    let mut pat: Vec<char> = Vec::new();
    pat.push('"');
    let mut i: usize = 0;
    while i < key_chars.len()
        invariant
            i <= key_chars@.len(),
            pat@ == seq!['"'] + key_chars@.take(i as int),
        decreases key_chars@.len() - i,
    {
        pat.push(key_chars[i]);
        i = i + 1;
        assert(pat@ =~= seq!['"'] + key_chars@.take(i as int));
    }
    pat.push('"');
    assert(key_chars@.take(key_chars@.len() as int) =~= key@);
    assert(pat@ =~= seq!['"'] + key@ + seq!['"']);
    let idx = match find_pattern(&m, &pat) {
        Some(idx) => idx,
        None => return None,
    };
    let a = skip_ws(&m, idx + pat.len());
    if a >= m.len() || m[a] != ':' {
        return None;
    }
    let b = skip_ws(&m, a + 1);
    if b < m.len() && m[b] == '"' {
        match find_char(&m, '"', b + 1) {
            None => None,
            Some(e) => Some(msg.substring_char(b + 1, e)),
        }
    } else {
        let e = find_value_end(&m, b);
        let t = trim_end(&m, b, e);
        Some(msg.substring_char(b, t))
    }
}

} // verus!
