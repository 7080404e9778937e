//! Geometry and colour rules of the screens: the progress bar fill, the
//! navigation labels, the card grids, and the weather icons.

use vstd::prelude::*;

use crate::display::{CONTENT_Y, NAV_BTN_W};
use crate::text::collect_chars;

verus! {

/// Integer division rounding towards zero, as `/` does on `i32`.
pub open spec fn div_toward_zero(a: int, b: int) -> int {
    if a >= 0 {
        a / b
    } else {
        -((-a) / b)
    }
}

/// The size of the coloured part of a progress bar `w` by `h` pixels
/// filled to `pct` percent, drawn one pixel inside the bar: none at 0 %;
/// otherwise `pct` percent of the width (at least 3) less the 2-pixel
/// border, by the height less the border (at least 1).
pub open spec fn progress_fill_spec(w: u32, h: u32, pct: u8) -> Option<(u32, u32)> {
    if pct == 0 {
        None
    } else {
        let fill_w = if w * pct / 100 >= 3 {
            w * pct / 100
        } else {
            3
        };
        let inner_h = if h >= 3 {
            h - 2
        } else {
            1
        };
        Some(((fill_w - 2) as u32, inner_h as u32))
    }
}

/// The fill of a progress bar (see `progress_fill_spec`); the bar's width
/// and height are taken as drawn, reinterpreted as unsigned.
pub fn progress_fill(w: i32, h: i32, pct: u8) -> (res: Option<(u32, u32)>)
    requires
        (w as u32) * (pct as u32) <= u32::MAX,
    ensures
        res == progress_fill_spec(w as u32, h as u32, pct),
{
    if pct == 0 {
        return None;
    }
    let wu = w as u32;
    let hu = h as u32;
    let scaled = wu * (pct as u32) / 100;
    let fill_w = if scaled >= 3 {
        scaled
    } else {
        3
    };
    let inner_h = if hu >= 3 {
        hu - 2
    } else {
        1
    };
    Some((fill_w - 2, inner_h))
}

/// The left edge of the label of navigation button `i` whose text is
/// `label_len` characters of the 9-pixel font: centred in the button
/// (rounding towards zero).
pub open spec fn nav_label_x_spec(i: int, label_len: int) -> int {
    i * NAV_BTN_W + div_toward_zero(NAV_BTN_W - label_len * 9, 2)
}

/// Where the label of navigation button `i` starts (see
/// `nav_label_x_spec`).
pub fn nav_label_x(i: usize, label_len: usize) -> (res: i32)
    requires
        i < 4,
        label_len * 9 <= i32::MAX,
    ensures
        res == nav_label_x_spec(i as int, label_len as int),
{
    let x = (i as i32) * NAV_BTN_W;
    let d = NAV_BTN_W - (label_len as i32) * 9;
    x + d / 2
}

/// The top-left corner of sensor card `i` in the 2-by-3 grid of the
/// sensor screen: 108 by 72 pixel cards, 6 pixels apart.
pub open spec fn sensor_card_origin_spec(i: int) -> (int, int) {
    (5 + (i % 2) * 114, 48 + CONTENT_Y + (i / 2) * 78)
}

/// Where sensor card `i` goes (see `sensor_card_origin_spec`).
pub fn sensor_card_origin(i: usize) -> (res: (i32, i32))
    requires
        i < 6,
    ensures
        res.0 == sensor_card_origin_spec(i as int).0,
        res.1 == sensor_card_origin_spec(i as int).1,
{
    let col = (i % 2) as i32;
    let row = (i / 2) as i32;
    (5 + col * (108 + 6), 48 + CONTENT_Y + row * (72 + 6))
}

/// The top-left corner of card `i` in the 2-by-2 grid of the weather
/// screen (temperature, humidity, wind, pressure).
pub open spec fn weather_card_origin_spec(i: int) -> (int, int) {
    (if i % 2 == 0 {
        5
    } else {
        120
    }, if i / 2 == 0 {
        148 + CONTENT_Y
    } else {
        204 + CONTENT_Y
    })
}

/// Where weather card `i` goes (see `weather_card_origin_spec`).
pub fn weather_card_origin(i: usize) -> (res: (i32, i32))
    requires
        i < 4,
    ensures
        res.0 == weather_card_origin_spec(i as int).0,
        res.1 == weather_card_origin_spec(i as int).1,
{
    let x = if i % 2 == 0 {
        5
    } else {
        120
    };
    let y = if i / 2 == 0 {
        148 + CONTENT_Y
    } else {
        204 + CONTENT_Y
    };
    (x, y)
}

/// The OpenWeatherMap icon codes that have a picture, in order.
pub open spec fn icon_codes() -> Seq<Seq<char>> {
    seq![
        seq!['0', '1', 'd'], seq!['0', '1', 'n'], seq!['0', '2', 'd'], seq!['0', '2', 'n'],
        seq!['0', '3', 'd'], seq!['0', '3', 'n'], seq!['0', '4', 'd'], seq!['0', '4', 'n'],
        seq!['0', '9', 'd'], seq!['0', '9', 'n'], seq!['1', '0', 'd'], seq!['1', '0', 'n'],
        seq!['1', '1', 'd'], seq!['1', '1', 'n'], seq!['1', '3', 'd'], seq!['1', '3', 'n'],
        seq!['5', '0', 'd'], seq!['5', '0', 'n'],
    ]
}

/// The position of `code` in `icon_codes`, if it has a picture.
pub open spec fn icon_index_spec(code: Seq<char>) -> Option<int> {
    if exists|i: int| 0 <= i < 18 && #[trigger] icon_codes()[i] == code {
        Some(choose|i: int| 0 <= i < 18 && #[trigger] icon_codes()[i] == code)
    } else {
        None
    }
}

/// The number the icon code's two digits spell, for a code of two digits
/// and a `d` or `n`.
fn two_digits(cs: &Vec<char>) -> (res: Option<(u32, bool)>)
    requires
        cs@.len() == 3,
    ensures
        res matches Some((n, night)) ==> '0' <= cs@[0] <= '9' && '0' <= cs@[1] <= '9' && n == (cs@[0]
            as int - '0' as int) * 10 + (cs@[1] as int - '0' as int) && (night <==> cs@[2] == 'n')
            && (cs@[2] == 'd' || cs@[2] == 'n'),
        res is None ==> !('0' <= cs@[0] <= '9' && '0' <= cs@[1] <= '9' && (cs@[2] == 'd' || cs@[2]
            == 'n')),
{
    let a = cs[0];
    let b = cs[1];
    let c = cs[2];
    if '0' <= a && a <= '9' && '0' <= b && b <= '9' && (c == 'd' || c == 'n') {
        Some(((a as u32 - 48) * 10 + (b as u32 - 48), c == 'n'))
    } else {
        None
    }
}

/// Which picture an icon code has (see `icon_codes`), if any.
pub fn icon_index(code: &str) -> (res: Option<usize>)
    ensures
        match icon_index_spec(code@) {
            Some(i) => res == Some(i as usize),
            None => res is None,
        },
{
    let cs = collect_chars(code);
    if cs.len() != 3 {
        proof {
            assert forall|i: int| 0 <= i < 18 implies #[trigger] icon_codes()[i] != code@ by {
                assert(icon_codes()[i].len() == 3);
            }
        }
        return None;
    }
    let (n, night) = match two_digits(&cs) {
        Some(p) => p,
        None => {
            proof {
                assert forall|i: int| 0 <= i < 18 implies #[trigger] icon_codes()[i] != code@ by {
                    if icon_codes()[i] == code@ {
                        assert(icon_codes()[i][0] == code@[0]);
                        assert(icon_codes()[i][1] == code@[1]);
                        assert(icon_codes()[i][2] == code@[2]);
                    }
                }
            }
            return None;
        },
    };
    let base: Option<usize> = if n == 1 {
        Some(0)
    } else if n == 2 {
        Some(2)
    } else if n == 3 {
        Some(4)
    } else if n == 4 {
        Some(6)
    } else if n == 9 {
        Some(8)
    } else if n == 10 {
        Some(10)
    } else if n == 11 {
        Some(12)
    } else if n == 13 {
        Some(14)
    } else if n == 50 {
        Some(16)
    } else {
        None
    };
    let res = match base {
        Some(k) => Some(if night {
            k + 1
        } else {
            k
        }),
        None => None,
    };
    proof {
        assert(cs@ == code@);
        match res {
            Some(k) => {
                assert(icon_codes()[k as int] =~= code@);
                assert forall|i: int| 0 <= i < 18 && #[trigger] icon_codes()[i] == code@ implies i
                    == k by {
                    assert(icon_codes()[i][0] == code@[0]);
                    assert(icon_codes()[i][1] == code@[1]);
                    assert(icon_codes()[i][2] == code@[2]);
                }
            },
            None => {
                assert forall|i: int| 0 <= i < 18 implies #[trigger] icon_codes()[i] != code@ by {
                    if icon_codes()[i] == code@ {
                        assert(icon_codes()[i][0] == code@[0]);
                        assert(icon_codes()[i][1] == code@[1]);
                        assert(icon_codes()[i][2] == code@[2]);
                    }
                }
            },
        }
    }
    res
}

/// The icon code of the theme button: a moon in dark mode, a sun in light
/// mode.
pub fn theme_icon_code(dark: bool) -> (res: &'static str)
    ensures
        dark ==> res@ == seq!['0', '1', 'n'],
        !dark ==> res@ == seq!['0', '1', 'd'],
{
    proof {
        reveal_strlit("01n");
        reveal_strlit("01d");
    }
    if dark {
        "01n"
    } else {
        "01d"
    }
}

/// The RGB565 components an opaque icon pixel is drawn in: each 8-bit
/// channel narrowed to 5, 6 and 5 bits and inverted (the panel inverts
/// colours).
pub open spec fn icon_rgb_spec(r: u8, g: u8, b: u8) -> (u8, u8, u8) {
    ((31 - r / 8) as u8, (63 - g / 4) as u8, (31 - b / 8) as u8)
}

/// The colour of an icon pixel (see `icon_rgb_spec`).
pub fn icon_rgb(r: u8, g: u8, b: u8) -> (res: (u8, u8, u8))
    ensures
        res == icon_rgb_spec(r, g, b),
{
    assert(r >> 3u8 == r / 8) by (bit_vector);
    assert(g >> 2u8 == g / 4) by (bit_vector);
    assert(b >> 3u8 == b / 8) by (bit_vector);
    (31 - (r >> 3), 63 - (g >> 2), 31 - (b >> 3))
}

} // verus!
