//! The light and dark colour palettes and the theme switch.

use vstd::prelude::*;

verus! {

/// An RGB565 colour by its components: red and blue 0-31, green 0-63.
#[derive(Debug, Clone, Copy, PartialEq, Eq, Structural)]
pub struct Color565 {
    pub r: u8,
    pub g: u8,
    pub b: u8,
}

/// The colours of one palette.
#[derive(Debug, Clone, Copy, PartialEq, Eq, Structural)]
pub struct Theme {
    pub bg: Color565,
    pub card: Color565,
    pub border: Color565,
    pub primary: Color565,
    pub secondary: Color565,
    pub warning: Color565,
    pub danger: Color565,
    pub text: Color565,
    pub text_muted: Color565,
    pub nav: Color565,
    pub nav_active: Color565,
    pub nav_inactive: Color565,
}

/// The light palette: white background, blue accents.
pub open spec fn light_palette() -> Theme {
    Theme {
        bg: Color565 { r: 31, g: 63, b: 31 },
        card: Color565 { r: 29, g: 60, b: 29 },
        border: Color565 { r: 24, g: 48, b: 24 },
        primary: Color565 { r: 0, g: 0, b: 31 },
        secondary: Color565 { r: 0, g: 32, b: 31 },
        warning: Color565 { r: 31, g: 32, b: 0 },
        danger: Color565 { r: 31, g: 0, b: 0 },
        text: Color565 { r: 0, g: 0, b: 0 },
        text_muted: Color565 { r: 10, g: 20, b: 10 },
        nav: Color565 { r: 28, g: 58, b: 28 },
        nav_active: Color565 { r: 20, g: 40, b: 20 },
        nav_inactive: Color565 { r: 28, g: 58, b: 28 },
    }
}

/// The dark palette: black background, cyan accents.
pub open spec fn dark_palette() -> Theme {
    Theme {
        bg: Color565 { r: 0, g: 0, b: 0 },
        card: Color565 { r: 5, g: 10, b: 5 },
        border: Color565 { r: 8, g: 16, b: 8 },
        primary: Color565 { r: 10, g: 30, b: 31 },
        secondary: Color565 { r: 0, g: 40, b: 31 },
        warning: Color565 { r: 31, g: 63, b: 0 },
        danger: Color565 { r: 31, g: 0, b: 0 },
        text: Color565 { r: 31, g: 63, b: 31 },
        text_muted: Color565 { r: 20, g: 40, b: 20 },
        nav: Color565 { r: 3, g: 6, b: 3 },
        nav_active: Color565 { r: 8, g: 16, b: 8 },
        nav_inactive: Color565 { r: 3, g: 6, b: 3 },
    }
}

/// The light palette.
pub fn theme_default() -> (res: Theme)
    ensures
        res == light_palette(),
{
    Theme {
        bg: Color565 { r: 31, g: 63, b: 31 },
        card: Color565 { r: 29, g: 60, b: 29 },
        border: Color565 { r: 24, g: 48, b: 24 },
        primary: Color565 { r: 0, g: 0, b: 31 },
        secondary: Color565 { r: 0, g: 32, b: 31 },
        warning: Color565 { r: 31, g: 32, b: 0 },
        danger: Color565 { r: 31, g: 0, b: 0 },
        text: Color565 { r: 0, g: 0, b: 0 },
        text_muted: Color565 { r: 10, g: 20, b: 10 },
        nav: Color565 { r: 28, g: 58, b: 28 },
        nav_active: Color565 { r: 20, g: 40, b: 20 },
        nav_inactive: Color565 { r: 28, g: 58, b: 28 },
    }
}

/// The dark palette.
pub fn theme_dark() -> (res: Theme)
    ensures
        res == dark_palette(),
{
    Theme {
        bg: Color565 { r: 0, g: 0, b: 0 },
        card: Color565 { r: 5, g: 10, b: 5 },
        border: Color565 { r: 8, g: 16, b: 8 },
        primary: Color565 { r: 10, g: 30, b: 31 },
        secondary: Color565 { r: 0, g: 40, b: 31 },
        warning: Color565 { r: 31, g: 63, b: 0 },
        danger: Color565 { r: 31, g: 0, b: 0 },
        text: Color565 { r: 31, g: 63, b: 31 },
        text_muted: Color565 { r: 20, g: 40, b: 20 },
        nav: Color565 { r: 3, g: 6, b: 3 },
        nav_active: Color565 { r: 8, g: 16, b: 8 },
        nav_inactive: Color565 { r: 3, g: 6, b: 3 },
    }
}

/// Which palette is in use; the firmware starts in dark mode.
#[derive(Debug, Clone, Copy, PartialEq, Eq, Structural)]
pub struct ThemeMode {
    pub dark: bool,
}

impl ThemeMode {
    /// Dark mode, as at start-up.
    pub fn new() -> (res: Self)
        ensures
            res.dark,
    {
        ThemeMode { dark: true }
    }
}

/// The palette used in mode `m`.
pub open spec fn palette_of(m: ThemeMode) -> Theme {
    if m.dark {
        dark_palette()
    } else {
        light_palette()
    }
}

/// The mode after a toggle.
pub open spec fn toggled(m: ThemeMode) -> ThemeMode {
    ThemeMode { dark: !m.dark }
}

/// The palette of the current mode.
pub fn theme(mode: &ThemeMode) -> (res: Theme)
    ensures
        res == palette_of(*mode),
{
    if mode.dark {
        theme_dark()
    } else {
        theme_default()
    }
}

/// Switches between the light and dark palettes.
pub fn toggle_theme(mode: &mut ThemeMode)
    ensures
        *final(mode) == toggled(*old(mode)),
{
    mode.dark = !mode.dark;
}

/// Whether the dark palette is in use.
pub fn is_dark_mode(mode: &ThemeMode) -> (res: bool)
    ensures
        res == mode.dark,
{
    mode.dark
}

/// Toggling the theme always changes the palette, and toggling twice
/// restores the mode it started from.
pub proof fn law_toggle_theme(m: ThemeMode)
    ensures
        palette_of(toggled(m)) != palette_of(m),
        toggled(toggled(m)) == m,
{
}

} // verus!
