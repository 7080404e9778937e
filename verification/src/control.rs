//! Decisions of the display task, taken every pass of its loop: the
//! once-a-second clock tick, dimming the backlight after three minutes
//! without a touch, and what a touch does.

use vstd::prelude::*;

use crate::display::{Screen, NAV_TOP};
use crate::display::screen_at_x;
use crate::state::{AppState, AppStateView};
use crate::theme::{toggled, ThemeMode};
use crate::time::{can_tick, law_tick_advances_one_second, tick_in_range, tick_spec, valid_local_time};
use crate::touch::{handle_nav_touch, handle_theme_toggle, on_theme_button};

verus! {

/// Microseconds between clock ticks.
pub const TICK_INTERVAL_US: u64 = 1_000_000;

/// Microseconds without a touch after which the backlight goes off
/// (`DIMMING_TIMEOUT_MS` in microseconds).
pub const DIMMING_TIMEOUT_US: u64 = 180_000_000;

/// The display task's own state: whether the backlight is on, and when
/// the screen was last touched and the clock last ticked (microseconds).
#[derive(Debug, Clone, Copy, PartialEq, Eq, Structural)]
pub struct DisplayControl {
    pub backlight_on: bool,
    pub last_touch_us: u64,
    pub last_second_us: u64,
}

/// What one pass of the display loop does besides updating the state:
/// tick the clock, switch the backlight off (`dim`) or on (`wake`), and
/// redraw the screen.
#[derive(Debug, Clone, Copy, PartialEq, Eq, Structural)]
pub struct DisplayActions {
    pub tick: bool,
    pub dim: bool,
    pub wake: bool,
    pub redraw: bool,
}

/// Whether the clock ticks at `now`: a full second since the last tick.
pub open spec fn tick_due(c: DisplayControl, now: u64) -> bool {
    now - c.last_second_us >= TICK_INTERVAL_US
}

/// Whether the backlight goes off at `now`: it is on and the last touch
/// is more than three minutes old.
pub open spec fn dim_due(c: DisplayControl, now: u64) -> bool {
    c.backlight_on && now - c.last_touch_us > DIMMING_TIMEOUT_US
}

/// Whether the backlight is on when the touch is looked at.
pub open spec fn lit_before_touch(c: DisplayControl, now: u64) -> bool {
    c.backlight_on && !dim_due(c, now)
}

/// The control state and actions of a pass at `now`, with `touch` read
/// at `touch_us`: a touch is remembered and switches a dark backlight on;
/// the screen is redrawn whenever the backlight ends up on.
pub open spec fn control_step(c: DisplayControl, now: u64, touch: Option<(i32, i32)>, touch_us: u64) -> (
    DisplayControl,
    DisplayActions,
) {
    let tick = tick_due(c, now);
    let dim = dim_due(c, now);
    let lit = lit_before_touch(c, now);
    let on = lit || touch is Some;
    (
        DisplayControl {
            backlight_on: on,
            last_touch_us: if touch is Some {
                touch_us
            } else {
                c.last_touch_us
            },
            last_second_us: if tick {
                now
            } else {
                c.last_second_us
            },
        },
        DisplayActions { tick, dim, wake: touch is Some && !lit, redraw: on },
    )
}

/// The shared state after a pass: the clock ticks when due; a touch on a
/// lit screen in the navigation bar switches to the screen under it.
pub open spec fn state_after_step(
    s: AppStateView,
    c: DisplayControl,
    now: u64,
    touch: Option<(i32, i32)>,
) -> AppStateView {
    let s1 = if tick_due(c, now) {
        AppStateView {
            local_time: match s.local_time {
                Some(t) => Some(tick_spec(t)),
                None => None,
            },
            ..s
        }
    } else {
        s
    };
    match touch {
        Some((tx, ty)) => if lit_before_touch(c, now) && ty >= NAV_TOP && screen_at_x(tx as int)
            != s1.active_screen {
            AppStateView { active_screen: screen_at_x(tx as int), ..s1 }
        } else {
            s1
        },
        None => s1,
    }
}

/// The theme after a pass: a touch on a lit screen that does not switch
/// screens toggles the theme when it hits the theme button of the
/// weather screen.
pub open spec fn mode_after_step(
    m: ThemeMode,
    s: AppStateView,
    c: DisplayControl,
    now: u64,
    touch: Option<(i32, i32)>,
) -> ThemeMode {
    match touch {
        Some((tx, ty)) => {
            let s1 = state_after_step(s, c, now, None);
            if lit_before_touch(c, now) && !(ty >= NAV_TOP && screen_at_x(tx as int) != s1.active_screen)
                && s1.active_screen == Screen::Weather && on_theme_button(tx as int, ty as int) {
                toggled(m)
            } else {
                m
            }
        },
        None => m,
    }
}

/// Whether the clock of `s`, if set, holds a valid time of day.
pub open spec fn clock_valid(s: AppStateView) -> bool {
    s.local_time matches Some(t) ==> valid_local_time(t)
}

/// Whether the control's timestamps lie no later than `now`.
pub open spec fn control_not_after(c: DisplayControl, now: u64) -> bool {
    c.last_touch_us <= now && c.last_second_us <= now
}

impl DisplayControl {
    /// The control state at start-up (`now_us`): backlight on, as if
    /// touched and ticked just now.
    pub fn new(now_us: u64) -> (res: Self)
        ensures
            res == (DisplayControl { backlight_on: true, last_touch_us: now_us, last_second_us: now_us }),
    {
        DisplayControl { backlight_on: true, last_touch_us: now_us, last_second_us: now_us }
    }

    /// Whether a pass at `now_us`, with the touch read at `touch_us`, may
    /// run (the requirements of `step`, but for the state's own
    /// well-formedness, which every state operation keeps): no timestamp
    /// lies after `now_us`, the touch is read no earlier, and a due tick
    /// finds the clock within its field ranges.
    pub fn step_allowed(&self, now_us: u64, touch_us: u64, state: &AppState) -> (res: bool)
        ensures
            res == (control_not_after(*self, now_us) && now_us <= touch_us && (tick_due(*self, now_us)
                ==> (state@.local_time matches Some(t) ==> tick_in_range(t)))),
    {
        if self.last_touch_us > now_us || self.last_second_us > now_us || now_us > touch_us {
            return false;
        }
        if now_us - self.last_second_us >= TICK_INTERVAL_US {
            match state.read().local_time {
                Some(t) => can_tick(&t),
                None => true,
            }
        } else {
            true
        }
    }

    /// One pass of the display loop at `now_us`, with the touch (if any)
    /// read at `touch_us` (see `control_step`, `state_after_step` and
    /// `mode_after_step`).
    pub fn step(
        &mut self,
        now_us: u64,
        touch: Option<(i32, i32)>,
        touch_us: u64,
        state: &mut AppState,
        mode: &mut ThemeMode,
    ) -> (res: DisplayActions)
        requires
            control_not_after(*old(self), now_us),
            now_us <= touch_us,
            old(state).wf(),
            tick_due(*old(self), now_us) ==> (old(state)@.local_time matches Some(t) ==> tick_in_range(
                t,
            )),
        ensures
            (*final(self), res) == control_step(*old(self), now_us, touch, touch_us),
            final(state).wf(),
            final(state)@ == state_after_step(old(state)@, *old(self), now_us, touch),
            clock_valid(old(state)@) ==> clock_valid(final(state)@),
            *final(mode) == mode_after_step(*old(mode), old(state)@, *old(self), now_us, touch),
    {
        let tick = now_us - self.last_second_us >= TICK_INTERVAL_US;
        if tick {
            self.last_second_us = now_us;
            proof {
                if let Some(t) = state@.local_time {
                    if valid_local_time(t) {
                        law_tick_advances_one_second(t);
                    }
                }
            }
            state.tick_local_time();
        }
        let dim = self.backlight_on && now_us - self.last_touch_us > DIMMING_TIMEOUT_US;
        if dim {
            self.backlight_on = false;
        }
        let mut wake = false;
        if let Some((tx, ty)) = touch {
            self.last_touch_us = touch_us;
            if !self.backlight_on {
                self.backlight_on = true;
                wake = true;
            } else if !handle_nav_touch(tx, ty, state) {
                handle_theme_toggle(tx, ty, state, mode);
            }
        }
        DisplayActions { tick, dim, wake, redraw: self.backlight_on }
    }
}

/// A touch on a dark screen only wakes it: the backlight comes on, and
/// neither the active screen nor the theme changes.
pub proof fn law_touch_on_dark_screen_only_wakes(
    c: DisplayControl,
    s: AppStateView,
    m: ThemeMode,
    now: u64,
    tx: i32,
    ty: i32,
    touch_us: u64,
)
    requires
        control_not_after(c, now),
        !lit_before_touch(c, now),
    ensures
        control_step(c, now, Some((tx, ty)), touch_us).0.backlight_on,
        control_step(c, now, Some((tx, ty)), touch_us).1.wake,
        control_step(c, now, Some((tx, ty)), touch_us).0.last_touch_us == touch_us,
        state_after_step(s, c, now, Some((tx, ty))).active_screen == s.active_screen,
        mode_after_step(m, s, c, now, Some((tx, ty))) == m,
{
}

/// Without a touch the screen stays as it is once dark: the backlight is
/// not switched on and nothing is drawn, whatever the time; and a lit
/// screen whose last touch is more than three minutes old goes dark in
/// the next pass and is not drawn.
pub proof fn law_dark_without_touch(c: DisplayControl, now: u64)
    requires
        control_not_after(c, now),
    ensures
        !c.backlight_on ==> !control_step(c, now, None, now).0.backlight_on && !control_step(
            c,
            now,
            None,
            now,
        ).1.redraw && !control_step(c, now, None, now).1.wake,
        (c.backlight_on && now - c.last_touch_us > DIMMING_TIMEOUT_US) ==> control_step(
            c,
            now,
            None,
            now,
        ).1.dim && !control_step(c, now, None, now).1.redraw,
{
}

/// The backlight stays on for three minutes after a touch, and goes off
/// in the first pass after that without a touch.
pub proof fn law_backlight_timeout(c: DisplayControl, now1: u64, tx: i32, ty: i32, touch_us: u64, now2: u64)
    requires
        control_not_after(c, now1),
        now1 <= touch_us <= now2,
    ensures
        ({
            let c1 = control_step(c, now1, Some((tx, ty)), touch_us).0;
            &&& c1.backlight_on
            &&& now2 - touch_us <= DIMMING_TIMEOUT_US ==> control_step(c1, now2, None, now2).0.backlight_on
            &&& now2 - touch_us > DIMMING_TIMEOUT_US ==> {
                &&& !control_step(c1, now2, None, now2).0.backlight_on
                &&& control_step(c1, now2, None, now2).1.dim
                &&& !control_step(c1, now2, None, now2).1.redraw
            }
        }),
{
}

/// The clock ticks at most once a second: after a tick at `now1`, no pass
/// within the next second ticks again.
pub proof fn law_tick_at_most_once_a_second(
    c: DisplayControl,
    now1: u64,
    now2: u64,
    touch: Option<(i32, i32)>,
    touch_us: u64,
)
    requires
        control_not_after(c, now1),
        now1 <= now2,
        tick_due(c, now1),
        now2 - now1 < TICK_INTERVAL_US,
    ensures
        !control_step(control_step(c, now1, touch, touch_us).0, now2, None, now2).1.tick,
{
}

} // verus!
