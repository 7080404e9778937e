//! The dashboard state shared by the network and display tasks: the
//! local sensor readings, WiFi status, the active screen and the clock.

use vstd::prelude::*;
use vstd::string::StringSliceAdditionalSpecFns;

use crate::bounded::{
    reading_at, readings, readings_clone, readings_len, readings_new, readings_push,
    readings_set_value, str16_new, str16_try_from, str32_as_str, str32_new, str32_try_from,
    str64_new, str64_try_from, str8_new, str8_try_from, text16, text32, text64, text8,
};
use crate::display::Screen;
use crate::time::{tick_in_range, tick_spec, tick_time, LocalTime};

verus! {

/// Most sensor readings kept.
pub const MAX_SENSORS: usize = 8;

/// Byte capacity of a sensor label.
pub const LABEL_CAP: usize = 32;

/// Byte capacity of a sensor value.
pub const VALUE_CAP: usize = 16;

/// Text stored in a field of `cap` bytes: the text itself if its UTF-8
/// encoding fits, otherwise the empty string.
pub open spec fn fit_text(s: &str, cap: int) -> Seq<char> {
    if s.spec_bytes().len() <= cap {
        s@
    } else {
        Seq::empty()
    }
}

/// A label for a reading: `s` when it fits in 32 bytes, else empty (as
/// `String::try_from(s).unwrap_or_default()` gives it).
pub fn fit_label(s: &str) -> (res: heapless::String<32>)
    ensures
        text32(res) == fit_text(s, LABEL_CAP as int),
{
    match str32_try_from(s) {
        Ok(t) => t,
        Err(_) => str32_new(),
    }
}

/// A value for a reading: `s` when it fits in 16 bytes, else empty.
pub fn fit_value(s: &str) -> (res: heapless::String<16>)
    ensures
        text16(res) == fit_text(s, VALUE_CAP as int),
{
    match str16_try_from(s) {
        Ok(t) => t,
        Err(_) => str16_new(),
    }
}

/// Byte capacity of the weather description.
pub const WEATHER_DESC_CAP: usize = 64;

/// Byte capacity of the weather icon code.
pub const WEATHER_ICON_CAP: usize = 8;

/// The weather description as stored: `s` when it fits in 64 bytes, else
/// empty.
pub fn fit_weather_desc(s: &str) -> (res: heapless::String<64>)
    ensures
        text64(res) == fit_text(s, WEATHER_DESC_CAP as int),
{
    match str64_try_from(s) {
        Ok(t) => t,
        Err(_) => str64_new(),
    }
}

/// The weather icon code as stored: `s` when it fits in 8 bytes, else
/// empty.
pub fn fit_weather_icon(s: &str) -> (res: heapless::String<8>)
    ensures
        text8(res) == fit_text(s, WEATHER_ICON_CAP as int),
{
    match str8_try_from(s) {
        Ok(t) => t,
        Err(_) => str8_new(),
    }
}

/// One named reading from a local sensor, as displayed.
#[derive(Debug, Clone)]
pub struct SensorReading {
    pub label: heapless::String<32>,
    pub value: heapless::String<16>,
}

/// The abstract dashboard state: readings as (label, value) pairs in the
/// order they first arrived, WiFi status, active screen, local time.
pub struct AppStateView {
    pub sensors: Seq<(Seq<char>, Seq<char>)>,
    pub wifi_connected: bool,
    pub active_screen: Screen,
    pub local_time: Option<LocalTime>,
}

/// The state shared between tasks (the firmware wraps it in a
/// critical-section mutex).
pub struct AppState {
    sensors: heapless::Vec<SensorReading, 8>,
    wifi_connected: bool,
    active_screen: Screen,
    local_time: Option<LocalTime>,
}

/// A copy of the state taken for one redraw.
pub struct AppStateSnapshot {
    pub sensors: heapless::Vec<SensorReading, 8>,
    pub wifi_connected: bool,
    pub active_screen: Screen,
    pub local_time: Option<LocalTime>,
}

impl View for AppState {
    type V = AppStateView;

    closed spec fn view(&self) -> AppStateView {
        AppStateView {
            sensors: readings(self.sensors),
            wifi_connected: self.wifi_connected,
            active_screen: self.active_screen,
            local_time: self.local_time,
        }
    }
}

impl View for AppStateSnapshot {
    type V = AppStateView;

    open spec fn view(&self) -> AppStateView {
        AppStateView {
            sensors: readings(self.sensors),
            wifi_connected: self.wifi_connected,
            active_screen: self.active_screen,
            local_time: self.local_time,
        }
    }
}

/// The index of the first reading at or after `i` labelled `label`.
pub open spec fn find_label_from(s: Seq<(Seq<char>, Seq<char>)>, label: Seq<char>, i: int) -> Option<int>
    decreases s.len() - i,
{
    if i < 0 || i >= s.len() {
        None
    } else if s[i].0 == label {
        Some(i)
    } else {
        find_label_from(s, label, i + 1)
    }
}

/// The index of the first reading labelled `label`.
pub open spec fn find_label(s: Seq<(Seq<char>, Seq<char>)>, label: Seq<char>) -> Option<int> {
    find_label_from(s, label, 0)
}

/// The readings after a new reading of `value` for `label`: the first
/// reading with that label gets the new value; with no such reading a
/// new one is appended while there are fewer than `MAX_SENSORS`. Label
/// and value are stored only if they fit their fields.
pub open spec fn add_sensor_spec(
    s: Seq<(Seq<char>, Seq<char>)>,
    label: &str,
    value: &str,
) -> Seq<(Seq<char>, Seq<char>)> {
    match find_label(s, label@) {
        Some(i) => s.update(i, (s[i].0, fit_text(value, VALUE_CAP as int))),
        None => if s.len() < MAX_SENSORS {
            s.push((fit_text(label, LABEL_CAP as int), fit_text(value, VALUE_CAP as int)))
        } else {
            s
        },
    }
}

proof fn lemma_find_label_from(s: Seq<(Seq<char>, Seq<char>)>, label: Seq<char>, i: int)
    requires
        0 <= i,
        forall|j: int| 0 <= j < i && j < s.len() ==> s[j].0 != label,
    ensures
        match find_label_from(s, label, i) {
            Some(k) => 0 <= k < s.len() && s[k].0 == label && forall|j: int|
                0 <= j < k ==> s[j].0 != label,
            None => forall|j: int| 0 <= j < s.len() ==> s[j].0 != label,
        },
    decreases s.len() - i,
{
    if i < s.len() && s[i].0 != label {
        lemma_find_label_from(s, label, i + 1);
    }
}

proof fn lemma_find_label_same_labels(
    s: Seq<(Seq<char>, Seq<char>)>,
    t: Seq<(Seq<char>, Seq<char>)>,
    label: Seq<char>,
    i: int,
)
    requires
        s.len() == t.len(),
        forall|j: int| 0 <= j < s.len() ==> #[trigger] s[j].0 == t[j].0,
    ensures
        find_label_from(s, label, i) == find_label_from(t, label, i),
    decreases s.len() - i,
{
    if 0 <= i < s.len() {
        assert(s[i].0 == t[i].0);
        lemma_find_label_same_labels(s, t, label, i + 1);
    }
}

proof fn lemma_find_label_push(
    s: Seq<(Seq<char>, Seq<char>)>,
    e: (Seq<char>, Seq<char>),
    label: Seq<char>,
    i: int,
)
    requires
        0 <= i <= s.len(),
    ensures
        find_label_from(s.push(e), label, i) == (match find_label_from(s, label, i) {
            Some(k) => Some(k),
            None => if e.0 == label {
                Some(s.len() as int)
            } else {
                None
            },
        }),
    decreases s.len() - i,
{
    if i < s.len() {
        assert(s.push(e)[i] == s[i]);
        lemma_find_label_push(s, e, label, i + 1);
    } else {
        assert(s.push(e)[i] == e);
        assert(find_label_from(s.push(e), label, i + 1) is None);
    }
}

/// A reading is found again under its label: after a reading for a label
/// that fits its field, stored while that label is shown or there is
/// room, the reading with that label holds the new value (or nothing, if
/// the value does not fit); readings under other labels are unchanged,
/// and there are never more than `MAX_SENSORS`.
pub proof fn law_sensor_reading_found_again(s: Seq<(Seq<char>, Seq<char>)>, label: &str, value: &str, other: Seq<char>)
    requires
        s.len() <= MAX_SENSORS,
        label.spec_bytes().len() <= LABEL_CAP,
        find_label(s, label@) is Some || s.len() < MAX_SENSORS,
        other != label@,
    ensures
        ({
            let r = add_sensor_spec(s, label, value);
            &&& r.len() <= MAX_SENSORS
            &&& find_label(r, label@) matches Some(k) && r[k] == (label@, fit_text(value, VALUE_CAP as int))
            &&& find_label(r, other) == find_label(s, other)
            &&& (find_label(s, other) matches Some(k) ==> r[k] == s[k])
        }),
{
    lemma_find_label_from(s, label@, 0);
    let r = add_sensor_spec(s, label, value);
    match find_label(s, label@) {
        Some(i) => {
            assert forall|j: int| 0 <= j < s.len() implies #[trigger] r[j].0 == s[j].0 by {}
            lemma_find_label_same_labels(r, s, label@, 0);
            lemma_find_label_same_labels(r, s, other, 0);
            lemma_find_label_from(s, other, 0);
        },
        None => {
            let e = (fit_text(label, LABEL_CAP as int), fit_text(value, VALUE_CAP as int));
            lemma_find_label_push(s, e, label@, 0);
            lemma_find_label_push(s, e, other, 0);
            lemma_find_label_from(s, other, 0);
        },
    }
}

impl AppState {
    /// At most `MAX_SENSORS` readings.
    pub closed spec fn wf(&self) -> bool {
        readings(self.sensors).len() <= MAX_SENSORS
    }

    /// The start-up state: no readings, WiFi down, weather screen, no time.
    pub fn new() -> (res: Self)
        ensures
            res.wf(),
            res@.sensors == Seq::<(Seq<char>, Seq<char>)>::empty(),
            !res@.wifi_connected,
            res@.active_screen == Screen::Weather,
            res@.local_time is None,
    {
        AppState {
            sensors: readings_new(),
            wifi_connected: false,
            active_screen: Screen::Weather,
            local_time: None,
        }
    }

    /// A copy of the whole state.
    pub fn read(&self) -> (res: AppStateSnapshot)
        ensures
            res@ == self@,
            self.wf() ==> res@.sensors.len() <= MAX_SENSORS,
    {
        AppStateSnapshot {
            sensors: readings_clone(&self.sensors),
            wifi_connected: self.wifi_connected,
            active_screen: self.active_screen,
            local_time: self.local_time,
        }
    }

    /// Records whether WiFi is up.
    pub fn set_wifi_connected(&mut self, v: bool)
        requires
            old(self).wf(),
        ensures
            final(self).wf(),
            final(self)@ == (AppStateView { wifi_connected: v, ..old(self)@ }),
    {
        self.wifi_connected = v;
    }

    /// Switches the active screen.
    pub fn set_active_screen(&mut self, s: Screen)
        requires
            old(self).wf(),
        ensures
            final(self).wf(),
            final(self)@ == (AppStateView { active_screen: s, ..old(self)@ }),
    {
        self.active_screen = s;
    }

    /// Sets the clock.
    pub fn set_local_time(&mut self, t: LocalTime)
        requires
            old(self).wf(),
        ensures
            final(self).wf(),
            final(self)@ == (AppStateView { local_time: Some(t), ..old(self)@ }),
    {
        self.local_time = Some(t);
    }

    /// Advances the clock by one second, if it has been set.
    pub fn tick_local_time(&mut self)
        requires
            old(self).wf(),
            old(self)@.local_time matches Some(t) ==> tick_in_range(t),
        ensures
            final(self).wf(),
            final(self)@ == (AppStateView {
                local_time: match old(self)@.local_time {
                    Some(t) => Some(tick_spec(t)),
                    None => None,
                },
                ..old(self)@
            }),
    {
        if let Some(t) = self.local_time {
            let mut t2 = t;
            tick_time(&mut t2);
            self.local_time = Some(t2);
        }
    }

    /// Stores a reading of `value` for `label` (see `add_sensor_spec`).
    pub fn add_sensor(&mut self, label: &str, value: &str)
        requires
            old(self).wf(),
        ensures
            final(self).wf(),
            final(self)@.sensors.len() <= MAX_SENSORS,
            final(self)@ == (AppStateView {
                sensors: add_sensor_spec(old(self)@.sensors, label, value),
                ..old(self)@
            }),
    {
        let ghost s0 = self@.sensors;
        proof {
            lemma_find_label_from(s0, label@, 0);
        }
        let wanted = label.to_owned();
        let n = readings_len(&self.sensors);
        let mut i: usize = 0;
        while i < n
            invariant
                i <= n,
                n == readings(self.sensors).len(),
                n <= MAX_SENSORS,
                self@.sensors == s0,
                wanted@ == label@,
                forall|j: int| 0 <= j < i ==> s0[j].0 != label@,
                self.wifi_connected == old(self).wifi_connected,
                self.active_screen == old(self).active_screen,
                self.local_time == old(self).local_time,
                s0 == old(self)@.sensors,
            decreases n - i,
        {
            let r = reading_at(&self.sensors, i);
            let current = str32_as_str(&r.label).to_owned();
            if current == wanted {
                let new_value = fit_value(value);
                readings_set_value(&mut self.sensors, i, new_value);
                proof {
                    assert(s0[i as int].0 == label@);
                    lemma_find_label_from(s0, label@, 0);
                    assert(find_label(s0, label@) == Some(i as int));
                    assert(self@.sensors =~= add_sensor_spec(s0, label, value));
                }
                return;
            }
            i = i + 1;
        }
        if n < MAX_SENSORS {
            let reading = SensorReading { label: fit_label(label), value: fit_value(value) };
            let _ = readings_push(&mut self.sensors, reading);
        }
        proof {
            assert(self@.sensors =~= add_sensor_spec(s0, label, value));
        }
    }
}

} // verus!
