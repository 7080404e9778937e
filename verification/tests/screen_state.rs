use dashboard::display::Screen;
use dashboard::state::AppState;
use dashboard::theme::{is_dark_mode, theme, theme_dark, theme_default, toggle_theme, Color565, ThemeMode};
use dashboard::time::LocalTime;
use dashboard::touch::{handle_nav_touch, handle_theme_toggle, read_touch, touch_sample};

#[test]
fn screen_labels_and_order() {
    assert_eq!(Screen::Weather.label(), "Wetter");
    assert_eq!(Screen::Sensors.label(), "Sensor");
    assert_eq!(Screen::Vps.label(), "VPS");
    assert_eq!(Screen::Host.label(), "Host");
    assert_eq!(Screen::all(), [Screen::Weather, Screen::Sensors, Screen::Vps, Screen::Host]);
}

#[test]
fn nav_button_under_touch() {
    assert_eq!(Screen::from_touch_x(0), Screen::Weather);
    assert_eq!(Screen::from_touch_x(59), Screen::Weather);
    assert_eq!(Screen::from_touch_x(60), Screen::Sensors);
    assert_eq!(Screen::from_touch_x(150), Screen::Vps);
    assert_eq!(Screen::from_touch_x(239), Screen::Host);
    assert_eq!(Screen::from_touch_x(1000), Screen::Host);
    assert_eq!(Screen::from_touch_x(-5), Screen::Weather);
}

#[test]
fn fresh_state() {
    let s = AppState::new();
    let r = s.read();
    assert!(r.sensors.is_empty());
    assert!(!r.wifi_connected);
    assert_eq!(r.active_screen, Screen::Weather);
    assert_eq!(r.local_time, None);
}

#[test]
fn setters() {
    let mut s = AppState::new();
    s.set_wifi_connected(true);
    s.set_active_screen(Screen::Host);
    let t = LocalTime { year: 2025, month: 5, day: 4, hour: 12, minute: 59, second: 59, weekday: 6 };
    s.set_local_time(t);
    s.tick_local_time();
    let r = s.read();
    assert!(r.wifi_connected);
    assert_eq!(r.active_screen, Screen::Host);
    assert_eq!(r.local_time.map(|t| (t.hour, t.minute, t.second)), Some((13, 0, 0)));
}

#[test]
fn sensor_reading_updates_in_place() {
    let mut s = AppState::new();
    s.add_sensor("Temperature", "21.5C");
    s.add_sensor("Humidity", "40%");
    s.add_sensor("Temperature", "22.0C");
    let r = s.read();
    assert_eq!(r.sensors.len(), 2);
    assert_eq!(r.sensors[0].label, "Temperature");
    assert_eq!(r.sensors[0].value, "22.0C");
    assert_eq!(r.sensors[1].label, "Humidity");
    assert_eq!(r.sensors[1].value, "40%");
}

#[test]
fn sensor_readings_capped_at_eight() {
    let mut s = AppState::new();
    for i in 0..10 {
        let label = format!("S{}", i);
        s.add_sensor(&label, "1");
    }
    let r = s.read();
    assert_eq!(r.sensors.len(), 8);
    assert_eq!(r.sensors[7].label, "S7");
}

#[test]
fn oversized_texts_stored_empty() {
    let mut s = AppState::new();
    s.add_sensor("L", "12345678901234567");
    s.add_sensor(&"x".repeat(33), "v");
    let r = s.read();
    assert_eq!(r.sensors[0].value, "");
    assert_eq!(r.sensors[1].label, "");
    assert_eq!(r.sensors[1].value, "v");
}

#[test]
fn theme_switch() {
    let mut m = ThemeMode::new();
    assert!(is_dark_mode(&m));
    assert_eq!(theme(&m), theme_dark());
    assert_eq!(theme(&m).bg, Color565 { r: 0, g: 0, b: 0 });
    toggle_theme(&mut m);
    assert!(!is_dark_mode(&m));
    assert_eq!(theme(&m), theme_default());
    assert_eq!(theme(&m).bg, Color565 { r: 31, g: 63, b: 31 });
    toggle_theme(&mut m);
    assert!(is_dark_mode(&m));
}

#[test]
fn touch_sample_bits() {
    assert_eq!(touch_sample([0x00, 0x7F, 0xF0, 0x00]), 0x7FF);
    assert_eq!(touch_sample([0xFF, 0x12, 0x34, 0xFF]), 0x123);
}

#[test]
fn touch_mapping() {
    assert_eq!(read_touch(0x0FFF, 1000), None);
    assert_eq!(read_touch(1000, 0), None);
    assert_eq!(read_touch(0x7FF, 1000), None);
    assert_eq!(read_touch(288, 1000), None);
    assert_eq!(read_touch(1000, 1850), None);
    // px = (1850 - 1000) * 240 / 1620 + 20 = 145; py = (1000 - 288) * 320 / 1578 = 144.
    assert_eq!(read_touch(1000, 1000), Some((145, 144)));
    // Near the edges the point is clamped to the screen.
    assert_eq!(read_touch(1865, 231), Some((239, 319)));
}

#[test]
fn nav_touch_switches_screen() {
    let mut s = AppState::new();
    assert!(!handle_nav_touch(100, 279, &mut s));
    assert!(handle_nav_touch(100, 280, &mut s));
    assert_eq!(s.read().active_screen, Screen::Sensors);
    assert!(!handle_nav_touch(110, 300, &mut s));
}

#[test]
fn theme_button_only_on_weather_screen() {
    let mut s = AppState::new();
    let mut m = ThemeMode::new();
    assert!(handle_theme_toggle(190, 40, &s, &mut m));
    assert!(!m.dark);
    assert!(!handle_theme_toggle(184, 40, &s, &mut m));
    s.set_active_screen(Screen::Vps);
    assert!(!handle_theme_toggle(190, 40, &s, &mut m));
    assert!(!m.dark);
}
