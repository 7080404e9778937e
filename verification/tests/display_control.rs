use dashboard::control::{DisplayActions, DisplayControl};
use dashboard::display::Screen;
use dashboard::layout::{
    icon_index, icon_rgb, nav_label_x, progress_fill, sensor_card_origin, theme_icon_code,
    weather_card_origin,
};
use dashboard::state::AppState;
use dashboard::theme::ThemeMode;
use dashboard::time::LocalTime;

const S: u64 = 1_000_000;

#[test]
fn clock_ticks_once_a_second() {
    let mut c = DisplayControl::new(0);
    let mut s = AppState::new();
    let mut m = ThemeMode::new();
    s.set_local_time(LocalTime { year: 2024, month: 1, day: 1, hour: 8, minute: 0, second: 0, weekday: 0 });
    let a = c.step(S / 2, None, S / 2, &mut s, &mut m);
    assert!(!a.tick);
    let a = c.step(S, None, S, &mut s, &mut m);
    assert!(a.tick);
    assert_eq!(s.read().local_time.unwrap().second, 1);
    let a = c.step(S + S / 2, None, S + S / 2, &mut s, &mut m);
    assert!(!a.tick);
    assert_eq!(c.last_second_us, S);
}

#[test]
fn backlight_dims_after_three_minutes() {
    let mut c = DisplayControl::new(0);
    let mut s = AppState::new();
    let mut m = ThemeMode::new();
    let a = c.step(180 * S, None, 180 * S, &mut s, &mut m);
    assert!(!a.dim && a.redraw);
    let a = c.step(180 * S + 1, None, 180 * S + 1, &mut s, &mut m);
    assert_eq!(a, DisplayActions { tick: false, dim: true, wake: false, redraw: false });
    assert!(!c.backlight_on);
    let a = c.step(200 * S, None, 200 * S, &mut s, &mut m);
    assert!(!a.dim && !a.redraw);
}

#[test]
fn touch_on_dark_screen_only_wakes() {
    let mut c = DisplayControl { backlight_on: false, last_touch_us: 0, last_second_us: 0 };
    let mut s = AppState::new();
    let mut m = ThemeMode::new();
    // A tap on the navigation bar while dark does not switch screens.
    let a = c.step(500 * S, Some((200, 300)), 500 * S + 10, &mut s, &mut m);
    assert!(a.wake && a.redraw);
    assert!(c.backlight_on);
    assert_eq!(c.last_touch_us, 500 * S + 10);
    assert_eq!(s.read().active_screen, Screen::Weather);
    assert!(m.dark);
}

#[test]
fn touch_on_lit_screen_navigates_or_toggles() {
    let mut c = DisplayControl::new(0);
    let mut s = AppState::new();
    let mut m = ThemeMode::new();
    c.step(S / 10, Some((190, 40)), S / 10, &mut s, &mut m);
    assert!(!m.dark);
    c.step(S / 5, Some((200, 300)), S / 5, &mut s, &mut m);
    assert_eq!(s.read().active_screen, Screen::Host);
    // The theme button only works on the weather screen.
    c.step(S / 4, Some((190, 40)), S / 4, &mut s, &mut m);
    assert!(!m.dark);
}

#[test]
fn progress_bar_fill() {
    assert_eq!(progress_fill(200, 12, 0), None);
    assert_eq!(progress_fill(200, 12, 50), Some((98, 10)));
    assert_eq!(progress_fill(200, 12, 1), Some((1, 10)));
    assert_eq!(progress_fill(140, 6, 100), Some((138, 4)));
    assert_eq!(progress_fill(140, 2, 100), Some((138, 1)));
}

#[test]
fn nav_labels_centred() {
    // "Wetter" is 6 characters of 9 pixels: 60 - 54 = 6, half is 3.
    assert_eq!(nav_label_x(0, 6), 3);
    assert_eq!(nav_label_x(2, 3), 120 + 16);
    // Wider than the button: the offset rounds towards zero.
    assert_eq!(nav_label_x(1, 7), 60 - 1);
}

#[test]
fn card_grids() {
    assert_eq!(sensor_card_origin(0), (5, 60));
    assert_eq!(sensor_card_origin(1), (119, 60));
    assert_eq!(sensor_card_origin(5), (119, 216));
    assert_eq!(weather_card_origin(0), (5, 160));
    assert_eq!(weather_card_origin(3), (120, 216));
}

#[test]
fn weather_icons() {
    assert_eq!(icon_index("01d"), Some(0));
    assert_eq!(icon_index("01n"), Some(1));
    assert_eq!(icon_index("10n"), Some(11));
    assert_eq!(icon_index("50d"), Some(16));
    assert_eq!(icon_index("05d"), None);
    assert_eq!(icon_index("--"), None);
    assert_eq!(icon_index("01x"), None);
    assert_eq!(icon_index("01dd"), None);
    assert_eq!(theme_icon_code(true), "01n");
    assert_eq!(theme_icon_code(false), "01d");
}

#[test]
fn icon_colours_inverted() {
    assert_eq!(icon_rgb(0, 0, 0), (31, 63, 31));
    assert_eq!(icon_rgb(255, 255, 255), (0, 0, 0));
    assert_eq!(icon_rgb(8, 4, 16), (30, 62, 29));
}
