//! Screen navigation, layout constants, the RGB565 framebuffer, and the
//! text the status bar and screens show.

use vstd::prelude::*;

verus! {

/// Display width in pixels (portrait).
pub const DISP_W: u16 = 240;

/// Display height in pixels (portrait).
pub const DISP_H: u16 = 320;

/// Number of pixels on the display.
pub const PIXEL_COUNT: usize = 76800;

/// Height of the status bar.
pub const STATUS_H: i32 = 18;

/// Top of the content area.
pub const CONTENT_Y: i32 = 12;

/// Height of the navigation bar.
pub const NAV_H: i32 = 40;

/// Top of the navigation bar (`DISP_H - NAV_H`).
pub const NAV_TOP: i32 = 280;

/// Width of one navigation button (a quarter of the display).
pub const NAV_BTN_W: i32 = 60;

/// Left edge of the theme toggle button.
pub const THEME_BTN_X: i32 = 185;

/// Top edge of the theme toggle button (`CONTENT_Y + 22`).
pub const THEME_BTN_Y: i32 = 34;

/// Width of the theme toggle button.
pub const THEME_BTN_W: i32 = 50;

/// Height of the theme toggle button.
pub const THEME_BTN_H: i32 = 50;

/// Milliseconds without a touch before the backlight goes off.
pub const DIMMING_TIMEOUT_MS: u64 = 180_000;

/// The four dashboard screens, in navigation-bar order.
#[derive(Debug, Clone, Copy, PartialEq, Eq, Structural)]
pub enum Screen {
    Weather,
    Sensors,
    Vps,
    Host,
}

/// The label shown on each screen's navigation button.
pub open spec fn screen_label(s: Screen) -> Seq<char> {
    match s {
        Screen::Weather => "Wetter"@,
        Screen::Sensors => "Sensor"@,
        Screen::Vps => "VPS"@,
        Screen::Host => "Host"@,
    }
}

/// The screens in navigation-bar order, left to right.
pub open spec fn all_screens() -> Seq<Screen> {
    seq![Screen::Weather, Screen::Sensors, Screen::Vps, Screen::Host]
}

/// The screen whose navigation button covers column `x`: each button is
/// `NAV_BTN_W` wide; columns left of the bar pick the first screen and
/// columns right of it the last.
pub open spec fn screen_at_x(x: int) -> Screen {
    if x < NAV_BTN_W {
        Screen::Weather
    } else if x < 2 * NAV_BTN_W {
        Screen::Sensors
    } else if x < 3 * NAV_BTN_W {
        Screen::Vps
    } else {
        Screen::Host
    }
}

impl Screen {
    /// The navigation-bar label of this screen.
    pub fn label(self) -> (res: &'static str)
        ensures
            res@ == screen_label(self),
    {
        match self {
            Screen::Weather => "Wetter",
            Screen::Sensors => "Sensor",
            Screen::Vps => "VPS",
            Screen::Host => "Host",
        }
    }

    /// All screens, left to right.
    pub fn all() -> (res: [Screen; 4])
        ensures
            res@ == all_screens(),
    {
        let res = [Screen::Weather, Screen::Sensors, Screen::Vps, Screen::Host];
        assert(res@ =~= all_screens());
        res
    }

    /// The screen selected by a touch at column `x` of the navigation bar.
    pub fn from_touch_x(x: i32) -> (res: Screen)
        ensures
            res == screen_at_x(x as int),
    {
        let q: i32 = x / NAV_BTN_W;
        let idx: i32 = if q < 0 {
            0
        } else if q > 3 {
            3
        } else {
            q
        };
        let all = Self::all();
        proof {
            if x >= 0 {
                assert(q as int == x as int / 60);
            } else {
                assert(q <= 0);
            }
        }
        all[idx as usize]
    }
}

/// Each navigation button selects its own screen: a touch anywhere in the
/// `i`-th button picks the `i`-th screen, and the labels are distinct.
pub proof fn law_nav_buttons_select_their_screen(i: int, dx: int)
    requires
        0 <= i < 4,
        0 <= dx < NAV_BTN_W,
    ensures
        screen_at_x(i * NAV_BTN_W + dx) == all_screens()[i],
        forall|a: int, b: int|
            0 <= a < 4 && 0 <= b < 4 && a != b ==> screen_label(all_screens()[a]) != screen_label(
                all_screens()[b],
            ),
{
    reveal_strlit("Wetter");
    reveal_strlit("Sensor");
    reveal_strlit("VPS");
    reveal_strlit("Host");
    assert("Wetter"@[0] != "Sensor"@[0]);
    assert("Wetter"@.len() != "VPS"@.len());
    assert("Wetter"@.len() != "Host"@.len());
    assert("Sensor"@.len() != "VPS"@.len());
    assert("Sensor"@.len() != "Host"@.len());
    assert("VPS"@.len() != "Host"@.len());
}

} // verus!
