//! XPT2046 touch handling: decoding a sample, calibrating raw readings to
//! screen coordinates, and the navigation and theme-button taps.

use vstd::prelude::*;

use crate::display::{
    screen_at_x, Screen, DISP_H, DISP_W, NAV_TOP, THEME_BTN_H, THEME_BTN_W, THEME_BTN_X,
    THEME_BTN_Y,
};
use crate::state::{AppState, AppStateView};
use crate::theme::{toggle_theme, toggled, ThemeMode};

verus! {

/// Raw X reading at the left calibration edge.
pub const TOUCH_X_MIN: u16 = 288;

/// Raw X reading at the right calibration edge.
pub const TOUCH_X_MAX: u16 = 1866;

/// Raw Y reading at the top calibration edge.
pub const TOUCH_Y_MIN: u16 = 230;

/// Raw Y reading at the bottom calibration edge.
pub const TOUCH_Y_MAX: u16 = 1850;

/// Horizontal correction added to the mapped column.
pub const TOUCH_X_OFFSET: i32 = 20;

/// Vertical correction added to the mapped row.
pub const TOUCH_Y_OFFSET: i32 = 0;

/// The 12-bit conversion result in bytes 1 and 2 of an SPI exchange.
pub open spec fn touch_sample_spec(b1: u8, b2: u8) -> u16 {
    ((b1 * 256 + b2) / 16) as u16
}

/// Extracts the 12-bit reading from the four bytes clocked in for a
/// command (the result sits in bytes 1-2, left-aligned).
pub fn touch_sample(buf: [u8; 4]) -> (res: u16)
    ensures
        res == touch_sample_spec(buf@[1], buf@[2]),
{
    let b1 = buf[1];
    let b2 = buf[2];
    let raw: u16 = ((b1 as u16) << 8) | (b2 as u16);
    let r: u16 = raw >> 4;
    assert(r == ((b1 * 256 + b2) / 16) as u16) by (bit_vector)
        requires
            raw == ((b1 as u16) << 8) | (b2 as u16),
            r == raw >> 4,
    ;
    r
}

/// `v` clamped into `lo..=hi`.
pub open spec fn clamp_spec(v: int, lo: int, hi: int) -> int {
    if v < lo {
        lo
    } else if v > hi {
        hi
    } else {
        v
    }
}

/// Whether a raw reading is one the controller gives when nothing is
/// pressed or the line floats (all ones, zero, or the mid-scale value).
pub open spec fn is_idle_reading(r: u16) -> bool {
    r == 0x0FFF || r == 0 || r == 0x7FF
}

/// The screen point of a pair of raw readings, or `None` when either is an
/// idle reading or lies outside the calibrated range. The panel is
/// rotated: raw Y runs right to left across the columns, raw X top to
/// bottom down the rows.
pub open spec fn touch_point_spec(raw_x: u16, raw_y: u16) -> Option<(i32, i32)> {
    if is_idle_reading(raw_x) || is_idle_reading(raw_y) {
        None
    } else if raw_x <= TOUCH_X_MIN || raw_x >= TOUCH_X_MAX {
        None
    } else if raw_y <= TOUCH_Y_MIN || raw_y >= TOUCH_Y_MAX {
        None
    } else {
        let px = (TOUCH_Y_MAX - raw_y) * DISP_W / (TOUCH_Y_MAX - TOUCH_Y_MIN) + TOUCH_X_OFFSET;
        let py = (raw_x - TOUCH_X_MIN) * DISP_H / (TOUCH_X_MAX - TOUCH_X_MIN) + TOUCH_Y_OFFSET;
        Some(
            (
                clamp_spec(px, 0, DISP_W - 1) as i32,
                clamp_spec(py, 0, DISP_H - 1) as i32,
            ),
        )
    }
}

fn clamp_i32(v: i32, lo: i32, hi: i32) -> (res: i32)
    requires
        lo <= hi,
    ensures
        res == clamp_spec(v as int, lo as int, hi as int),
{
    if v < lo {
        lo
    } else if v > hi {
        hi
    } else {
        v
    }
}

/// Maps a pair of raw touch readings to a screen point (see
/// `touch_point_spec`).
pub fn read_touch(raw_x: u16, raw_y: u16) -> (res: Option<(i32, i32)>)
    ensures
        res == touch_point_spec(raw_x, raw_y),
        res matches Some((x, y)) ==> 0 <= x < DISP_W && 0 <= y < DISP_H,
{
    if raw_x == 0x0FFF || raw_x == 0 || raw_x == 0x7FF {
        return None;
    }
    if raw_y == 0x0FFF || raw_y == 0 || raw_y == 0x7FF {
        return None;
    }
    if raw_x <= TOUCH_X_MIN || raw_x >= TOUCH_X_MAX {
        return None;
    }
    if raw_y <= TOUCH_Y_MIN || raw_y >= TOUCH_Y_MAX {
        return None;
    }
    let dy: i32 = (TOUCH_Y_MAX - raw_y) as i32;
    let dx: i32 = (raw_x - TOUCH_X_MIN) as i32;
    let px: i32 = dy * DISP_W as i32 / (TOUCH_Y_MAX - TOUCH_Y_MIN) as i32 + TOUCH_X_OFFSET;
    let py: i32 = dx * DISP_H as i32 / (TOUCH_X_MAX - TOUCH_X_MIN) as i32 + TOUCH_Y_OFFSET;
    let px = clamp_i32(px, 0, DISP_W as i32 - 1);
    let py = clamp_i32(py, 0, DISP_H as i32 - 1);
    Some((px, py))
}

/// Whether `(tx, ty)` lies on the theme toggle button.
pub open spec fn on_theme_button(tx: int, ty: int) -> bool {
    THEME_BTN_X <= tx < THEME_BTN_X + THEME_BTN_W && THEME_BTN_Y <= ty < THEME_BTN_Y
        + THEME_BTN_H
}

/// A tap on the theme button while the weather screen is shown toggles the
/// theme and reports `true`; anything else changes nothing.
pub fn handle_theme_toggle(tx: i32, ty: i32, state: &AppState, mode: &mut ThemeMode) -> (res: bool)
    ensures
        res == (state@.active_screen == Screen::Weather && on_theme_button(tx as int, ty as int)),
        *final(mode) == (if res { toggled(*old(mode)) } else { *old(mode) }),
{
    if state.read().active_screen != Screen::Weather {
        return false;
    }
    if tx >= THEME_BTN_X && tx < THEME_BTN_X + THEME_BTN_W && ty >= THEME_BTN_Y && ty
        < THEME_BTN_Y + THEME_BTN_H {
        toggle_theme(mode);
        return true;
    }
    false
}

/// A tap in the navigation bar switches to the screen of the button under
/// it and reports `true` if that changed the screen; taps above the bar
/// change nothing.
pub fn handle_nav_touch(tx: i32, ty: i32, state: &mut AppState) -> (res: bool)
    requires
        old(state).wf(),
    ensures
        final(state).wf(),
        res == (ty >= NAV_TOP && screen_at_x(tx as int) != old(state)@.active_screen),
        final(state)@ == (if res {
            AppStateView { active_screen: screen_at_x(tx as int), ..old(state)@ }
        } else {
            old(state)@
        }),
{
    if ty < NAV_TOP {
        return false;
    }
    let new_screen = Screen::from_touch_x(tx);
    let current = state.read().active_screen;
    if new_screen != current {
        state.set_active_screen(new_screen);
        return true;
    }
    false
}

} // verus!
