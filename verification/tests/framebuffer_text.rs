use dashboard::format::{clock_string, date_string, format_time, format_uptime, sanitize_text};
use dashboard::framebuffer::{DisplayBuffer, Rect};
use dashboard::state::AppState;
use dashboard::time::LocalTime;

#[test]
fn new_buffer_is_black() {
    let fb = DisplayBuffer::new();
    assert_eq!(fb.size(), (240, 320));
    assert_eq!(fb.pixel(0), 0);
    assert_eq!(fb.pixel(76_799), 0);
}

#[test]
fn draw_then_read_pixel() {
    let mut fb = DisplayBuffer::new();
    fb.draw_iter(&[(3, 2, 0xF800), (-1, 0, 0x1234), (240, 0, 0x1234), (0, 320, 0x1234)]);
    assert_eq!(fb.pixel(2 * 240 + 3), 0xF800);
    assert_eq!(fb.pixel_rgb(2 * 240 + 3), (31, 0, 0));
    assert_eq!(fb.pixel(0), 0);
    assert_eq!(fb.pixel(239), 0);
    // The last write to a pixel wins.
    fb.draw_iter(&[(5, 5, 1), (5, 5, 2)]);
    assert_eq!(fb.pixel(5 * 240 + 5), 2);
}

#[test]
fn rgb565_components() {
    let mut fb = DisplayBuffer::new();
    fb.draw_iter(&[(0, 0, 0xFFFF), (1, 0, 0x07E0), (2, 0, 0x001F), (3, 0, 0b10101_101010_01010)]);
    assert_eq!(fb.pixel_rgb(0), (31, 63, 31));
    assert_eq!(fb.pixel_rgb(1), (0, 63, 0));
    assert_eq!(fb.pixel_rgb(2), (0, 0, 31));
    assert_eq!(fb.pixel_rgb(3), (21, 42, 10));
}

#[test]
fn fill_solid_clips_to_screen() {
    let mut fb = DisplayBuffer::new();
    fb.fill_solid(Rect { x: 238, y: 318, w: 10, h: 10 }, 7);
    assert_eq!(fb.pixel(318 * 240 + 238), 7);
    assert_eq!(fb.pixel(319 * 240 + 239), 7);
    assert_eq!(fb.pixel(317 * 240 + 239), 0);
    assert_eq!(fb.pixel(319 * 240 + 237), 0);
    // Both edges are clamped: a rectangle left of the screen lands on its
    // first column.
    fb.fill_solid(Rect { x: -20, y: 5, w: 10, h: 10 }, 9);
    assert_eq!(fb.pixel(5 * 240), 9);
    assert_eq!(fb.pixel(14 * 240), 9);
    assert_eq!(fb.pixel(15 * 240), 0);
    assert_eq!(fb.pixel(5 * 240 + 1), 0);
    // Zero size: nothing changes.
    fb.fill_solid(Rect { x: 10, y: 10, w: 0, h: 5 }, 9);
    assert_eq!(fb.pixel(10 * 240 + 10), 0);
}

#[test]
fn fill_contiguous_row_by_row() {
    let mut fb = DisplayBuffer::new();
    fb.fill_contiguous(Rect { x: 1, y: 1, w: 2, h: 2 }, &[10, 11, 12]);
    assert_eq!(fb.pixel(240 + 1), 10);
    assert_eq!(fb.pixel(240 + 2), 11);
    assert_eq!(fb.pixel(2 * 240 + 1), 12);
    // The colours ran out before the last pixel.
    assert_eq!(fb.pixel(2 * 240 + 2), 0);
}

#[test]
fn uptime_text() {
    assert_eq!(format_uptime(0), "00h 00m");
    assert_eq!(format_uptime(3_599), "00h 59m");
    assert_eq!(format_uptime(90_061), "1d 01h 01m");
    assert_eq!(format_uptime(10 * 86_400 + 23 * 3_600 + 5 * 60 + 59), "10d 23h 05m");
}

#[test]
fn clock_and_date_text() {
    let t = LocalTime { year: 2024, month: 2, day: 9, hour: 7, minute: 5, second: 3, weekday: 4 };
    assert_eq!(clock_string(Some(t)), "07:05:03");
    assert_eq!(date_string(Some(t)), "09.02.2024");
    assert_eq!(clock_string(None), "--:--:--");
    assert_eq!(date_string(None), "--.--.----");
    let mut s = AppState::new();
    assert_eq!(format_time(&s), "--:--:--");
    s.set_local_time(t);
    assert_eq!(format_time(&s), "07:05:03");
}

#[test]
fn sanitize_for_ascii_font() {
    assert_eq!(sanitize_text("Bewölkt"), "Bewoelkt");
    assert_eq!(sanitize_text("Größe ÄÖÜ"), "Groesse AeOeUe");
    assert_eq!(sanitize_text("21.5°C"), "21.5C");
    assert_eq!(sanitize_text("a€b"), "ab");
    let long = "ä".repeat(70);
    assert_eq!(sanitize_text(&long).as_str(), "ae".repeat(64));
}
