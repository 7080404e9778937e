use dashboard::control::DisplayControl;
use dashboard::icon::{decode_icon, icon_alpha_mask};
use dashboard::led::{recv_led_command, send_led_command, LedCommand, LedQueue};
use dashboard::net::next_credential;
use dashboard::state::{fit_weather_desc, fit_weather_icon, AppState};
use dashboard::time::{can_tick, ntp_to_local, LocalTime};

/// A 2x1 RGBA picture: an opaque red pixel, then a blue one with alpha 100.
const TWO_PIXELS: [u8; 71] = [
    137, 80, 78, 71, 13, 10, 26, 10, 0, 0, 0, 13, 73, 72, 68, 82, 0, 0, 0, 2, 0, 0, 0, 1, 8, 6,
    0, 0, 0, 244, 34, 127, 138, 0, 0, 0, 14, 73, 68, 65, 84, 120, 156, 99, 248, 207, 192, 0, 66,
    41, 0, 15, 94, 3, 98, 192, 145, 138, 196, 0, 0, 0, 0, 73, 69, 78, 68, 174, 66, 96, 130,
];

#[test]
fn decode_small_png() {
    let img = decode_icon(&TWO_PIXELS).unwrap();
    assert_eq!((img.width, img.height), (2, 1));
    assert_eq!(img.rgba, vec![255, 0, 0, 255, 0, 0, 255, 100]);
    assert_eq!(img.opaque, vec![true, false]);
}

#[test]
fn decode_rejects_non_png() {
    assert!(decode_icon(b"not a png at all").is_none());
    assert!(decode_icon(&TWO_PIXELS[..20]).is_none());
    assert!(decode_icon(&[]).is_none());
}

#[test]
fn alpha_mask_threshold() {
    let px = [0, 0, 0, 127, 0, 0, 0, 128, 9, 9, 9, 255];
    assert_eq!(icon_alpha_mask(3, 1, &px), vec![false, true, true]);
    assert!(icon_alpha_mask(0, 5, &[]).is_empty());
}

#[test]
fn weather_texts_fit_or_empty() {
    assert_eq!(fit_weather_desc("Leichter Regen"), "Leichter Regen");
    assert_eq!(fit_weather_desc(&"x".repeat(65)), "");
    assert_eq!(fit_weather_desc(&"x".repeat(64)).len(), 64);
    assert_eq!(fit_weather_icon("10n"), "10n");
    assert_eq!(fit_weather_icon("123456789"), "");
}

#[test]
fn credentials_tried_in_order_until_one_connects() {
    assert_eq!(next_credential(3, 0, false), Some(0));
    assert_eq!(next_credential(3, 1, false), Some(1));
    assert_eq!(next_credential(3, 2, true), None);
    assert_eq!(next_credential(3, 3, false), None);
    assert_eq!(next_credential(0, 0, false), None);
}

#[test]
fn led_queue_keeps_order_of_seven() {
    let cmds = [
        LedCommand::WifiConnecting,
        LedCommand::MqttConnecting,
        LedCommand::Connected,
        LedCommand::WeatherFetching,
        LedCommand::Error,
        LedCommand::Connected,
        LedCommand::MqttConnecting,
    ];
    let mut q = LedQueue::new();
    for c in cmds {
        send_led_command(&mut q, c);
    }
    send_led_command(&mut q, LedCommand::Error);
    for c in cmds {
        assert_eq!(recv_led_command(&mut q), Some(c));
    }
    assert_eq!(recv_led_command(&mut q), None);
}

#[test]
fn display_pass_allowed() {
    let c = DisplayControl::new(1_000);
    let mut s = AppState::new();
    assert!(c.step_allowed(1_000, 1_000, &s));
    assert!(!c.step_allowed(999, 1_000, &s));
    assert!(!c.step_allowed(2_000, 1_500, &s));
    s.set_local_time(LocalTime { year: 2024, month: 1, day: 1, hour: 255, minute: 59, second: 59, weekday: 0 });
    assert!(!c.step_allowed(2_000_000, 2_000_000, &s));
    assert!(c.step_allowed(1_500, 1_500, &s));
}

#[test]
fn clock_tick_ranges() {
    let t = LocalTime { year: 2024, month: 1, day: 1, hour: 23, minute: 59, second: 59, weekday: 0 };
    assert!(can_tick(&t));
    assert!(!can_tick(&LocalTime { second: 255, ..t }));
    assert!(!can_tick(&LocalTime { minute: 255, ..t }));
    assert!(can_tick(&LocalTime { minute: 255, second: 3, ..t }));
}

#[test]
fn ntp_era_years() {
    assert_eq!(ntp_to_local(0).unwrap().year, 1900);
    assert_eq!(ntp_to_local(0xFFFF_FFFF).unwrap().year, 2036);
}
