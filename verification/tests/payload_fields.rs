use dashboard::payload::{
    cpu_array_items, host_fields, parse_u64, sensor_fields, sensor_label, vps_fields,
};

#[test]
fn unsigned_numbers() {
    assert_eq!(parse_u64("0"), Some(0));
    assert_eq!(parse_u64("+42"), Some(42));
    assert_eq!(parse_u64("18446744073709551615"), Some(u64::MAX));
    assert_eq!(parse_u64("18446744073709551616"), None);
    assert_eq!(parse_u64(""), None);
    assert_eq!(parse_u64("+"), None);
    assert_eq!(parse_u64("-1"), None);
    assert_eq!(parse_u64(" 1"), None);
    assert_eq!(parse_u64("12a"), None);
    assert_eq!(parse_u64("99999999999999999999x"), None);
}

#[test]
fn vps_message() {
    let f = vps_fields("{\"cpu\": 12.5, \"ram\": 40.1, \"disk\": 77, \"uptime_seconds\": 93784}");
    assert_eq!(f.cpu, Some("12.5"));
    assert_eq!(f.ram, Some("40.1"));
    assert_eq!(f.disk, Some("77"));
    assert_eq!(f.uptime_seconds, 93_784);
    let g = vps_fields("{\"uptime_seconds\": 1.5}");
    assert_eq!(g.cpu, None);
    assert_eq!(g.uptime_seconds, 0);
}

#[test]
fn cpu_core_loads() {
    assert_eq!(cpu_array_items("{\"cpu\": [ 1.5, 2 ,3,4.25 ], \"ram\": 3}"), vec!["1.5", "2", "3", "4.25"]);
    assert_eq!(cpu_array_items("{\"cpu\": []}"), vec![""]);
    assert_eq!(cpu_array_items("{\"cpu\": [1, ,x"), vec!["1", "", "x"]);
    assert!(cpu_array_items("{\"ram\": [1]}").is_empty());
    assert!(cpu_array_items("{\"cpu\": 5}").is_empty());
}

#[test]
fn host_message() {
    let f = host_fields(
        "{\"cpu\": [10, 20, 30, 40], \"cpu_temp\": 48.5, \"ram\": 61.2, \"ssd_temp\": 35, \"net_down\": 2048.0}",
    );
    assert_eq!(f.cpu, vec!["10", "20", "30", "40"]);
    assert_eq!(f.cpu_temp, Some("48.5"));
    assert_eq!(f.ram, Some("61.2"));
    assert_eq!(f.ssd_temp, Some("35"));
    assert_eq!(f.net_down, Some("2048.0"));
}

#[test]
fn sensor_messages() {
    let climate = sensor_fields("{\"temperature\": 21.4, \"humidity\": 45.6}");
    assert_eq!(climate.temperature, Some("21.4"));
    assert_eq!(climate.humidity, Some("45.6"));
    assert_eq!(climate.probe_temp, None);
    let probe = sensor_fields("{\"id\": \"Kitchen_28FF\", \"Temp\": 19.75}");
    assert_eq!(probe.probe_temp, Some("19.75"));
    assert_eq!(probe.probe_id, Some("Kitchen_28FF"));
    assert_eq!(probe.temperature, None);
}

#[test]
fn probe_labels() {
    assert_eq!(sensor_label("Kitchen_28FF"), "Kitchen");
    assert_eq!(sensor_label("Garage"), "Garage");
    assert_eq!(sensor_label("_x"), "");
    assert_eq!(sensor_label("a_b_c"), "a");
}

#[test]
fn unsigned_numbers_match_std() {
    for c in ["0", "+0", "12", "+", "-0", "1_000", "0x10", "18446744073709551615", "18446744073709551616", "٣"] {
        assert_eq!(parse_u64(c), c.parse::<u64>().ok(), "{}", c);
    }
}
