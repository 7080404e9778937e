//! Local time for the status bar: NTP seconds to Unix time, conversion to
//! Europe/Berlin civil time, and the once-a-second clock tick.

use vstd::prelude::*;

use chrono::{Datelike, TimeZone, Timelike};
use chrono_tz::Europe::Berlin;

verus! {

/// Seconds from the NTP epoch (1900-01-01) to the Unix epoch (1970-01-01).
pub const NTP_TO_UNIX_EPOCH: u64 = 2_208_988_800;

/// A Europe/Berlin wall-clock time. `weekday` counts days from Monday (0).
#[derive(Debug, Clone, Copy, PartialEq, Eq, Structural)]
pub struct LocalTime {
    pub year: u16,
    pub month: u8,
    pub day: u8,
    pub hour: u8,
    pub minute: u8,
    pub second: u8,
    pub weekday: u8,
}

/// Unix seconds for NTP seconds `ntp`: `ntp - NTP_TO_UNIX_EPOCH`,
/// wrapped into the `i64` range.
pub open spec fn ntp_to_unix_spec(ntp: u64) -> i64 {
    let d = ntp - NTP_TO_UNIX_EPOCH;
    if d > i64::MAX {
        (d - 0x1_0000_0000_0000_0000) as i64
    } else {
        d as i64
    }
}

/// Converts NTP seconds to Unix seconds (wrapping subtraction of the epoch
/// offset, reinterpreted as signed).
pub fn ntp_to_unix(ntp_secs: u64) -> (res: i64)
    ensures
        res == ntp_to_unix_spec(ntp_secs),
{
    let w: u64 = ntp_secs.wrapping_sub(NTP_TO_UNIX_EPOCH);
    let r: i64 = w as i64;
    assert(r == (if w > 0x7FFF_FFFF_FFFF_FFFFu64 { w - 0x1_0000_0000_0000_0000 } else { w as int })) by (bit_vector)
        requires
            r == w as i64,
    ;
    r
}

/// Named result of Europe/Berlin civil time for a Unix timestamp, as
/// computed by `chrono-tz`: year, month, day, hour, minute, second and
/// days from Monday.
pub uninterp spec fn berlin_civil_time(unix_ts: i64) -> Option<(i32, u32, u32, u32, u32, u32, u32)>;

/// Calls `chrono_tz::Europe::Berlin.timestamp_opt(unix_ts, 0).earliest()`
/// and reads the fields of the result. Trusted: the result is the named
/// civil time; chrono documents the ranges of month (1-12), day (1-31),
/// hour (0-23), minute and second (0-59) and weekday (0-6); and the
/// timestamp is in range (chrono accepts years up to 262142) whenever
/// `|unix_ts| <= 8e12`; a timestamp of the NTP era (1900-01-01 to
/// 2036-02-07 UTC) falls in a Berlin year from 1900 to 2036, and since
/// every Berlin offset from 1893 on is a whole number of hours (CET,
/// CEST, CEMT in the zone table of `chrono-tz`), its minute and second
/// are those of the UTC time: `(unix_ts / 60) % 60` and `unix_ts % 60`.
#[verifier::external_body]
fn berlin_from_unix(unix_ts: i64) -> (res: Option<(i32, u32, u32, u32, u32, u32, u32)>)
    ensures
        res == berlin_civil_time(unix_ts),
        res matches Some((y, mo, d, h, mi, s, wd)) ==> 1 <= mo <= 12 && 1 <= d <= 31 && h < 24
            && mi < 60 && s < 60 && wd < 7,
        -8_000_000_000_000 <= unix_ts <= 8_000_000_000_000 ==> res is Some,
        -2_208_988_800 <= unix_ts <= 2_085_978_495 ==> 1900 <= (res->0).0 <= 2036,
        -2_208_988_800 <= unix_ts <= 2_085_978_495 ==> (res->0).4 == (unix_ts / 60) % 60
            && (res->0).5 == unix_ts % 60,
{
    match Berlin.timestamp_opt(unix_ts, 0).earliest() {
        Some(dt) => Some((dt.year(), dt.month(), dt.day(), dt.hour(), dt.minute(), dt.second(),
            dt.weekday().num_days_from_monday())),
        None => None,
    }
}

/// The `LocalTime` holding civil-time fields, each narrowed to its field
/// width as by `as`.
pub open spec fn local_time_from_fields(f: (i32, u32, u32, u32, u32, u32, u32)) -> LocalTime {
    LocalTime {
        year: f.0 as u16,
        month: f.1 as u8,
        day: f.2 as u8,
        hour: f.3 as u8,
        minute: f.4 as u8,
        second: f.5 as u8,
        weekday: f.6 as u8,
    }
}

/// Civil-time fields that fit their `LocalTime` fields are carried over
/// unchanged, each to its own place: the civil minute becomes the minute,
/// the civil second the second, and so on.
pub proof fn law_local_time_keeps_civil_fields(f: (i32, u32, u32, u32, u32, u32, u32))
    requires
        0 <= f.0 <= 0xFFFF,
        f.1 <= 0xFF && f.2 <= 0xFF && f.3 <= 0xFF && f.4 <= 0xFF && f.5 <= 0xFF && f.6 <= 0xFF,
    ensures
        local_time_from_fields(f).year == f.0,
        local_time_from_fields(f).month == f.1,
        local_time_from_fields(f).day == f.2,
        local_time_from_fields(f).hour == f.3,
        local_time_from_fields(f).minute == f.4,
        local_time_from_fields(f).second == f.5,
        local_time_from_fields(f).weekday == f.6,
{
}

/// Builds a `LocalTime` from civil-time fields.
pub fn local_time_from_civil(f: (i32, u32, u32, u32, u32, u32, u32)) -> (res: LocalTime)
    ensures
        res == local_time_from_fields(f),
{
    LocalTime {
        year: f.0 as u16,
        month: f.1 as u8,
        day: f.2 as u8,
        hour: f.3 as u8,
        minute: f.4 as u8,
        second: f.5 as u8,
        weekday: f.6 as u8,
    }
}

/// The Berlin local time of a Unix timestamp, `None` when chrono cannot
/// represent it.
pub fn unix_to_local(unix_ts: i64) -> (res: Option<LocalTime>)
    ensures
        res == (match berlin_civil_time(unix_ts) {
            Some(f) => Some(local_time_from_fields(f)),
            None => None,
        }),
        -8_000_000_000_000 <= unix_ts <= 8_000_000_000_000 ==> res is Some,
        -2_208_988_800 <= unix_ts <= 2_085_978_495 ==> (res matches Some(t) && 1900 <= t.year
            <= 2036),
        -2_208_988_800 <= unix_ts <= 2_085_978_495 ==> (res matches Some(t) && t.minute == (
        unix_ts / 60) % 60 && t.second == unix_ts % 60),
        res matches Some(t) ==> valid_local_time(t),
{
    match berlin_from_unix(unix_ts) {
        Some(f) => Some(local_time_from_civil(f)),
        None => None,
    }
}

/// The Berlin local time for NTP seconds.
pub fn ntp_to_local(ntp_secs: u64) -> (res: Option<LocalTime>)
    ensures
        res == (match berlin_civil_time(ntp_to_unix_spec(ntp_secs)) {
            Some(f) => Some(local_time_from_fields(f)),
            None => None,
        }),
        ntp_secs < 0x1_0000_0000 ==> (res matches Some(t) && 1900 <= t.year <= 2036),
        ntp_secs < 0x1_0000_0000 ==> (res matches Some(t) && t.minute == (ntp_secs / 60) % 60
            && t.second == ntp_secs % 60),
        res matches Some(t) ==> valid_local_time(t),
{
    let unix_ts = ntp_to_unix(ntp_secs);
    proof {
        if ntp_secs < 0x1_0000_0000 {
            let u: int = ntp_secs - NTP_TO_UNIX_EPOCH;
            assert(unix_ts == u);
            assert(u % 60 == ntp_secs % 60);
            assert((u / 60) % 60 == (ntp_secs / 60) % 60);
        }
    }
    unix_to_local(unix_ts)
}

/// A time of day within range: month 1-12, day 1-31, hour below 24,
/// minute and second below 60, weekday below 7.
pub open spec fn valid_local_time(t: LocalTime) -> bool {
    1 <= t.month <= 12 && 1 <= t.day <= 31 && t.hour < 24 && t.minute < 60 && t.second < 60
        && t.weekday < 7
}

/// Seconds since midnight of a time of day.
pub open spec fn seconds_of_day(t: LocalTime) -> int {
    t.hour * 3600 + t.minute * 60 + t.second
}

/// Whether ticking `t` stays within the `u8` fields: the second is below
/// 255, and a carry into the minute or hour finds it below 255 too.
pub open spec fn tick_in_range(t: LocalTime) -> bool {
    t.second < 255 && (t.second + 1 >= 60 ==> t.minute < 255 && (t.minute + 1 >= 60 ==> t.hour < 255))
}

/// Whether `t` can be ticked (see `tick_in_range`).
pub fn can_tick(t: &LocalTime) -> (res: bool)
    ensures
        res == tick_in_range(*t),
{
    t.second < 255 && (t.second + 1 < 60 || (t.minute < 255 && (t.minute + 1 < 60 || t.hour < 255)))
}

/// One second later: the second counts up; at 60 it wraps to 0 and the
/// minute counts up; at 60 the minute wraps and the hour counts up,
/// wrapping at 24. The date is left as it is.
pub open spec fn tick_spec(t: LocalTime) -> LocalTime {
    let s = t.second + 1;
    if s < 60 {
        LocalTime { second: s as u8, ..t }
    } else {
        let m = t.minute + 1;
        if m < 60 {
            LocalTime { second: 0, minute: m as u8, ..t }
        } else {
            let h = t.hour + 1;
            LocalTime { second: 0, minute: 0, hour: if h >= 24 { 0 } else { h as u8 }, ..t }
        }
    }
}

/// Advances `t` by one second (see `tick_spec`).
pub fn tick_time(t: &mut LocalTime)
    requires
        tick_in_range(*old(t)),
    ensures
        *final(t) == tick_spec(*old(t)),
{
    t.second = t.second + 1;
    if t.second >= 60 {
        t.second = 0;
        t.minute = t.minute + 1;
        if t.minute >= 60 {
            t.minute = 0;
            t.hour = t.hour + 1;
            if t.hour >= 24 {
                t.hour = 0;
            }
        }
    }
}

/// The clock tick keeps a valid time valid and moves it one second
/// forward around the day: the seconds since midnight grow by one,
/// modulo a day.
pub proof fn law_tick_advances_one_second(t: LocalTime)
    requires
        valid_local_time(t),
    ensures
        tick_in_range(t),
        valid_local_time(tick_spec(t)),
        seconds_of_day(tick_spec(t)) == (seconds_of_day(t) + 1) % 86400,
{
}

} // verus!
