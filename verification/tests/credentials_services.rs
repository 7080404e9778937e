use dashboard::services::{
    http_body, ntp_request, ntp_response_time, response_text, weather_fields, weather_request,
};
use dashboard::time::LocalTime;
use dashboard::wifi::{get_wifi_credentials, mask_credential, WifiCredential};

#[test]
fn mask_short_credentials() {
    assert_eq!(mask_credential(""), "");
    assert_eq!(mask_credential("abc"), "a**");
    assert_eq!(mask_credential("abcde"), "a****");
    assert_eq!(mask_credential("äbc"), "ä**");
}

#[test]
fn mask_long_credentials() {
    assert_eq!(mask_credential("password123"), "pas*23*****");
    assert_eq!(mask_credential("abcdef"), "abc*ef");
    assert_eq!(mask_credential("äöüabc"), "äöü***");
}

#[test]
fn mask_keeps_length_of_long_ascii() {
    let s = "MyHomeNetwork-5G";
    let m = mask_credential(s);
    assert_eq!(m.len(), s.len());
    assert!(m.starts_with("MyH*"));
    assert!(m.ends_with("******"));
}

#[test]
fn credentials_skip_empty_slots() {
    let slots = [
        WifiCredential { ssid: "home", password: "a" },
        WifiCredential { ssid: "", password: "b" },
        WifiCredential { ssid: "office", password: "c" },
    ];
    let creds = get_wifi_credentials(slots);
    assert_eq!(creds.len(), 2);
    assert_eq!(creds[0].ssid, "home");
    assert_eq!(creds[1].ssid, "office");
    assert_eq!(creds[1].password, "c");
    let none = [
        WifiCredential { ssid: "", password: "" },
        WifiCredential { ssid: "", password: "" },
        WifiCredential { ssid: "", password: "" },
    ];
    assert!(get_wifi_credentials(none).is_empty());
}

#[test]
fn ntp_request_packet() {
    let r = ntp_request();
    assert_eq!(r.len(), 48);
    assert_eq!(r[0], 0x1B);
    assert!(r[1..].iter().all(|&b| b == 0));
}

#[test]
fn ntp_reply_time() {
    let mut buf = [0u8; 48];
    buf[40..44].copy_from_slice(&[233, 60, 127, 0]);
    assert_eq!(
        ntp_response_time(&buf),
        Some(LocalTime { year: 2024, month: 1, day: 1, hour: 1, minute: 0, second: 0, weekday: 0 })
    );
    assert_eq!(ntp_response_time(&buf[..44]).map(|t| t.hour), Some(1));
    assert_eq!(ntp_response_time(&buf[..43]), None);
    let zero = [0u8; 48];
    assert_eq!(ntp_response_time(&zero), None);
}

#[test]
fn weather_request_text() {
    assert_eq!(
        weather_request("Berlin", "DE", "k3y"),
        "GET /data/2.5/weather?q=Berlin,DE&appid=k3y&units=metric&lang=de HTTP/1.1\r\n\
         Host: api.openweathermap.org\r\nConnection: close\r\n\r\n"
    );
}

#[test]
fn http_body_between_blank_lines() {
    assert_eq!(http_body("HTTP/1.1 200 OK\r\nA: b\r\n\r\n{\"x\":1}"), "{\"x\":1}");
    assert_eq!(http_body("HTTP/1.1 200 OK\r\n\r\nbody\r\n\r\nmore"), "body");
    assert_eq!(http_body("no blank line"), "");
    assert_eq!(http_body("H\r\n\r\n"), "");
}

#[test]
fn response_text_needs_utf8() {
    assert_eq!(response_text(b"abc"), "abc");
    assert_eq!(response_text(&[b'a', 0xFF]), "");
}

#[test]
fn weather_reply_fields() {
    let resp = "HTTP/1.1 200 OK\r\nContent-Type: application/json\r\n\r\n\
        {\"weather\":[{\"description\":\"Mäßig bewölkt\",\"icon\":\"03d\"}],\
        \"main\":{\"temp\":4.5,\"pressure\":1021,\"humidity\":87},\"wind\":{\"speed\":3.6}}";
    let f = weather_fields(resp.as_bytes()).unwrap();
    assert_eq!(f.temp, Some("4.5"));
    assert_eq!(f.pressure, Some("1021"));
    assert_eq!(f.humidity, Some("87"));
    assert_eq!(f.wind, Some("3.6"));
    assert_eq!(f.description, "Mäßig bewölkt");
    assert_eq!(f.icon, "03d");
}

#[test]
fn weather_reply_defaults_and_failures() {
    let f = weather_fields(b"HTTP/1.1 200 OK\r\n\r\n{\"main\":{}}").unwrap();
    assert_eq!(f.temp, None);
    assert_eq!(f.description, "--");
    assert_eq!(f.icon, "--");
    assert!(weather_fields(b"").is_none());
    assert!(weather_fields(b"HTTP/1.1 500\r\n\r\n").is_none());
    assert!(weather_fields(b"no headers at all").is_none());
    assert!(weather_fields(&[b'H', b'\r', b'\n', b'\r', b'\n', b'{', 0xFF]).is_none());
}
