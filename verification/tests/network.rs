use dashboard::led::{recv_led_command, LedCommand, LedQueue};
use dashboard::mqtt::{build_publish, build_subscribe};
use dashboard::net::{
    after_wifi_round, broker_port, dispatch_mqtt_message, handle_mqtt_data, parse_ipv4,
    route_topic, trim_to_utf8, MqttRoute, MqttSession, ServiceActions, ServiceTimers, WifiOutcome,
};

fn drain(q: &mut LedQueue) -> Vec<LedCommand> {
    let mut out = Vec::new();
    while let Some(c) = recv_led_command(q) {
        out.push(c);
    }
    out
}

#[test]
fn trim_keeps_valid_text() {
    assert_eq!(trim_to_utf8(b"hello"), b"hello");
    assert_eq!(trim_to_utf8("grüße".as_bytes()), "grüße".as_bytes());
    assert_eq!(trim_to_utf8(b""), b"");
}

#[test]
fn trim_skips_invalid_prefix() {
    assert_eq!(trim_to_utf8(&[0xFF, 0xFE, b'o', b'k']), b"ok");
    assert_eq!(trim_to_utf8(&[b'a', 0xFF, b'b']), b"b");
    assert_eq!(trim_to_utf8(&[0xFF]), b"");
}

#[test]
fn trim_drops_cut_off_character() {
    // "ab" followed by the first two bytes of a three-byte character.
    assert_eq!(trim_to_utf8(&[b'a', b'b', 0xE2, 0x82]), b"ab");
    assert_eq!(trim_to_utf8(&[0xC3]), b"");
}

#[test]
fn topic_routes() {
    assert_eq!(route_topic("vps/monitor"), MqttRoute::Vps);
    assert_eq!(route_topic("host/monitor"), MqttRoute::Host);
    assert_eq!(route_topic("Sensors/kitchen"), MqttRoute::Sensors);
    assert_eq!(route_topic("sensors"), MqttRoute::Sensors);
    assert_eq!(route_topic("vps/monitor/extra"), MqttRoute::Unhandled);
    assert_eq!(route_topic("SENSORS/x"), MqttRoute::Unhandled);
    assert_eq!(route_topic(""), MqttRoute::Unhandled);
}

#[test]
fn dispatch_trims_payload() {
    let (route, msg) = dispatch_mqtt_message("Sensors/a", &[0xFF, b'{', b'}']);
    assert_eq!(route, MqttRoute::Sensors);
    assert_eq!(msg, "{}");
}

#[test]
fn connack_establishes_session() {
    let mut est = false;
    let mut sent = false;
    let mut pending = 0u8;
    let mut leds = LedQueue::new();
    let res = handle_mqtt_data(&[0x20, 0x02, 0x00, 0x00], &mut est, &mut sent, &mut pending, &mut leds);
    assert!(res.is_none());
    assert!(est && sent);
    assert_eq!(pending, 4);
    assert_eq!(drain(&mut leds), vec![LedCommand::Connected]);
}

#[test]
fn refused_connack_changes_nothing() {
    let mut est = false;
    let mut sent = false;
    let mut pending = 2u8;
    let mut leds = LedQueue::new();
    handle_mqtt_data(&[0x20, 0x02, 0x00, 0x05], &mut est, &mut sent, &mut pending, &mut leds);
    assert!(!est && !sent);
    assert_eq!(pending, 2);
    assert!(drain(&mut leds).is_empty());
    // Too short to be looked at.
    handle_mqtt_data(&[0x20], &mut est, &mut sent, &mut pending, &mut leds);
    assert!(!est);
}

#[test]
fn suback_counts_down_to_zero() {
    let mut est = true;
    let mut sent = false;
    let mut pending = 1u8;
    let mut leds = LedQueue::new();
    handle_mqtt_data(&[0x90, 0x03, 0x00, 0x01, 0x00], &mut est, &mut sent, &mut pending, &mut leds);
    assert_eq!(pending, 0);
    handle_mqtt_data(&[0x90, 0x03, 0x00, 0x02, 0x00], &mut est, &mut sent, &mut pending, &mut leds);
    assert_eq!(pending, 0);
}

#[test]
fn publish_is_handed_out() {
    let pkt = build_publish("host/monitor", b"{\"ram\": 40}");
    let mut est = true;
    let mut sent = false;
    let mut pending = 0u8;
    let mut leds = LedQueue::new();
    let res = handle_mqtt_data(&pkt, &mut est, &mut sent, &mut pending, &mut leds);
    assert_eq!(res, Some((MqttRoute::Host, "{\"ram\": 40}")));
    // A ping response is ignored.
    let res = handle_mqtt_data(&[0xD0, 0x00], &mut est, &mut sent, &mut pending, &mut leds);
    assert_eq!(res, None);
}

#[test]
fn wifi_reset_after_five_failed_rounds() {
    let mut fails = 0u32;
    let mut leds = LedQueue::new();
    for n in 1..5u32 {
        assert_eq!(after_wifi_round(&mut fails, false, &mut leds), WifiOutcome::RetryLater);
        assert_eq!(fails, n);
    }
    assert_eq!(after_wifi_round(&mut fails, false, &mut leds), WifiOutcome::HardReset);
    assert_eq!(fails, 5);
    assert_eq!(drain(&mut leds), vec![LedCommand::Error]);
}

#[test]
fn wifi_success_clears_failures() {
    let mut fails = 3u32;
    let mut leds = LedQueue::new();
    assert_eq!(after_wifi_round(&mut fails, true, &mut leds), WifiOutcome::Connected);
    assert_eq!(fails, 0);
    assert_eq!(drain(&mut leds), vec![LedCommand::MqttConnecting]);
}

const S: u64 = 1_000_000;

#[test]
fn first_pass_runs_ntp_and_weather() {
    let mut t = ServiceTimers::new(5 * S);
    let a = t.poll(5 * S, false);
    assert_eq!(a, ServiceActions { ping: false, ntp: true, weather: true });
    assert!(!t.ntp_due && !t.weather_due);
    // Nothing more is due right after.
    let a = t.poll(6 * S, true);
    assert_eq!(a, ServiceActions { ping: false, ntp: false, weather: false });
}

#[test]
fn ping_every_thirty_seconds_when_connected() {
    let mut t = ServiceTimers::new(0);
    t.poll(0, true);
    assert!(!t.poll(30 * S, true).ping);
    assert!(t.poll(30 * S + 1, true).ping);
    assert_eq!(t.last_ping_us, 30 * S + 1);
    assert!(!t.poll(60 * S, true).ping);
    // Not connected to the broker: no ping.
    assert!(!t.poll(200 * S, false).ping);
}

#[test]
fn weather_every_five_minutes() {
    let mut t = ServiceTimers::new(0);
    t.poll(0, false);
    assert!(!t.poll(300 * S, false).weather);
    assert!(t.poll(300 * S + 1, false).weather);
    assert_eq!(t.last_weather_us, 300 * S + 1);
}

#[test]
fn ntp_retries_every_thirty_seconds_until_synced() {
    let mut t = ServiceTimers::new(0);
    assert!(t.poll(0, false).ntp);
    // The first attempt failed: no sync recorded. The four-hour interval
    // runs from the connection, then retries come every 30 s.
    let four_h = 14_400 * S;
    assert!(!t.poll(four_h, false).ntp);
    assert!(t.poll(four_h + 1, false).ntp);
    assert!(!t.poll(four_h + 30 * S, false).ntp);
    assert!(t.poll(four_h + 31 * S + 1, false).ntp);
    t.ntp_synced(four_h + 31 * S + 1);
    assert!(!t.poll(four_h + 120 * S, false).ntp);
    assert!(t.poll(2 * four_h + 32 * S + 1, false).ntp);
}

#[test]
fn subscriptions_sent_once_per_connack() {
    let mut s = MqttSession::new();
    let mut leds = LedQueue::new();
    assert!(s.take_subscriptions().is_empty());
    s.on_data(&[0x20, 0x02, 0x00, 0x00], &mut leds);
    let pkts = s.take_subscriptions();
    assert_eq!(pkts.len(), 4);
    assert_eq!(pkts[0], build_subscribe("Sensors/#", 1));
    assert_eq!(pkts[1], build_subscribe("sensors/#", 2));
    assert_eq!(pkts[2], build_subscribe("vps/monitor", 3));
    assert_eq!(pkts[3], build_subscribe("host/monitor", 4));
    assert_eq!(s.packet_id, 5);
    assert!(s.take_subscriptions().is_empty());
    s.on_data(&[0x20, 0x02, 0x00, 0x00], &mut leds);
    let again = s.take_subscriptions();
    assert_eq!(again[0], build_subscribe("Sensors/#", 5));
}

#[test]
fn packet_ids_wrap() {
    let mut s = MqttSession { established: true, subscribe_sent: true, pending: 4, packet_id: 65534 };
    let pkts = s.take_subscriptions();
    assert_eq!(pkts[0], build_subscribe("Sensors/#", 65534));
    assert_eq!(pkts[1], build_subscribe("sensors/#", 65535));
    assert_eq!(pkts[2], build_subscribe("vps/monitor", 0));
    assert_eq!(s.packet_id, 2);
}

#[test]
fn no_subscriptions_once_all_acknowledged() {
    let mut s = MqttSession { established: true, subscribe_sent: true, pending: 0, packet_id: 9 };
    assert!(s.take_subscriptions().is_empty());
    assert_eq!(s.packet_id, 9);
}

#[test]
fn ipv4_literals() {
    let valid = [
        ("192.168.1.10", (192, 168, 1, 10)),
        ("0.0.0.0", (0, 0, 0, 0)),
        ("255.255.255.255", (255, 255, 255, 255)),
        ("127.0.0.1", (127, 0, 0, 1)),
        ("10.0.0.100", (10, 0, 0, 100)),
    ];
    for (text, octets) in valid {
        assert_eq!(parse_ipv4(text), Some(octets), "{}", text);
    }
    let invalid = [
        "256.1.1.1", "01.2.3.4", "1.2.3", "1.2.3.4.5", "", "1..2.3", "a.b.c.d", "1.2.3.4 ",
        " 1.2.3.4", "+1.2.3.4", "10.0.0.1000", "001.2.3.4", "0.00.0.0", "mqtt.example.org",
        "1.2.3.", ".1.2.3",
    ];
    for text in invalid {
        assert_eq!(parse_ipv4(text), None, "{}", text);
    }
}

#[test]
fn broker_port_with_default() {
    assert_eq!(broker_port("1883"), 1883);
    assert_eq!(broker_port("8883"), 8883);
    assert_eq!(broker_port("+1"), 1);
    assert_eq!(broker_port("0"), 0);
    assert_eq!(broker_port("65535"), 65535);
    assert_eq!(broker_port("007"), 7);
    assert_eq!(broker_port("65536"), 1883);
    assert_eq!(broker_port(""), 1883);
    assert_eq!(broker_port("abc"), 1883);
    assert_eq!(broker_port(" 1883"), 1883);
    assert_eq!(broker_port("-1"), 1883);
    assert_eq!(broker_port("1883 "), 1883);
}
