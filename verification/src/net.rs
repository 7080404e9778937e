//! Decisions of the network task: cleaning received payloads, routing
//! MQTT messages, reacting to broker packets, the WiFi retry policy and
//! the timing of pings, NTP syncs and weather fetches.

use vstd::prelude::*;
use vstd::string::StringSliceAdditionalSpecFns;
use vstd::utf8::*;

use crate::bounded::bytes128;
use crate::led::{led_command, send_spec, LedCommand, LedQueue};
use crate::mqtt::{
    build_subscribe, frame, packet_type_of_nibble, parse_packet_type, parse_publish, parse_publish_spec,
    subscribe_payload, MqttPacketType,
};
use crate::payload::{digits_value, is_digit, parse_u64, parse_u64_spec};
use crate::text::{
    split_on, split_pieces,
    collect_chars, lemma_longest_valid_within, str_from_utf8, utf8_error_len, valid_prefix_len,
};

verus! {

/// The part of `d` from `start` on that the trimming keeps: if it is valid
/// UTF-8, all of it; if it ends in a cut-off character, its valid prefix;
/// otherwise the same again after the invalid sequence.
pub open spec fn trim_from(d: Seq<u8>, start: int) -> Seq<u8>
    decreases d.len() - start,
{
    if start < 0 || start >= d.len() {
        Seq::empty()
    } else {
        let s = d.skip(start);
        if valid_utf8(s) {
            s
        } else {
            let v = valid_prefix_len(s);
            match utf8_error_len(s) {
                Some(b) => if v >= 0 && b >= 1 && start + v + b <= d.len() {
                    trim_from(d, start + v + b)
                } else {
                    Seq::empty()
                },
                None => s.take(v),
            }
        }
    }
}

proof fn lemma_trim_from_valid(d: Seq<u8>, start: int)
    ensures
        valid_utf8(trim_from(d, start)),
    decreases d.len() - start,
{
    if start < 0 || start >= d.len() {
    } else {
        let s = d.skip(start);
        if !valid_utf8(s) {
            let v = valid_prefix_len(s);
            lemma_longest_valid_within(s, s.len() as int);
            match utf8_error_len(s) {
                Some(b) => if v >= 0 && b >= 1 && start + v + b <= d.len() {
                    lemma_trim_from_valid(d, start + v + b);
                },
                None => {},
            }
        }
    }
}

/// Strips bytes that are not UTF-8 from the payload: invalid sequences
/// before the first well-formed tail are skipped, and a character cut off
/// at the end is dropped. The result is always valid UTF-8.
pub fn trim_to_utf8(data: &[u8]) -> (res: &[u8])
    ensures
        res@ == trim_from(data@, 0),
        valid_utf8(res@),
        valid_utf8(data@) ==> res@ == data@,
{
    proof {
        lemma_trim_from_valid(data@, 0);
        if valid_utf8(data@) {
            assert(data@.skip(0) =~= data@);
            if data@.len() == 0 {
                assert(trim_from(data@, 0) =~= data@);
            }
        }
    }
    let len = data.len();
    let mut start: usize = 0;
    while start < len
        invariant_except_break
            start <= len,
            len == data@.len(),
            trim_from(data@, 0) == trim_from(data@, start as int),
            valid_utf8(data@) ==> trim_from(data@, 0) == data@,
        ensures
            start <= len,
            len == data@.len(),
            trim_from(data@, 0) == trim_from(data@, start as int),
            start < len ==> valid_utf8(data@.skip(start as int)),
        decreases len - start,
    {
        let tail = vstd::slice::slice_subrange(data, start, len);
        assert(tail@ =~= data@.skip(start as int));
        match str_from_utf8(tail) {
            Ok(_) => break,
            Err((valid_up_to, error_len)) => {
                match error_len {
                    Some(bad_len) => {
                        start = start + valid_up_to + bad_len;
                    },
                    None => {
                        proof {
                            lemma_longest_valid_within(tail@, tail@.len() as int);
                        }
                        let res = vstd::slice::slice_subrange(data, start, start + valid_up_to);
                        assert(res@ =~= tail@.take(valid_up_to as int));
                        return res;
                    },
                }
            },
        }
    }
    if start >= len {
        return vstd::slice::slice_subrange(data, len, len);
    }
    let mut end = len;
    while end > start
        invariant
            start < end <= len,
            len == data@.len(),
            valid_utf8(data@.skip(start as int)),
            end == len,
        decreases end,
    {
        let part = vstd::slice::slice_subrange(data, start, end);
        assert(part@ =~= data@.skip(start as int));
        if str_from_utf8(part).is_ok() {
            break;
        }
        end = end - 1;
    }
    let res = vstd::slice::slice_subrange(data, start, end);
    assert(res@ =~= data@.skip(start as int));
    res
}


/// Which payload handler a topic goes to.
#[derive(Debug, Clone, Copy, PartialEq, Eq, Structural)]
pub enum MqttRoute {
    Vps,
    Host,
    Sensors,
    Unhandled,
}

/// Whether `t` starts with `p`.
pub open spec fn has_prefix(t: Seq<char>, p: Seq<char>) -> bool {
    t.len() >= p.len() && t.take(p.len() as int) == p
}

/// The route of a topic: `vps/monitor` and `host/monitor` exactly, any
/// topic starting with `Sensors` or `sensors`, and nothing else.
pub open spec fn route_spec(t: Seq<char>) -> MqttRoute {
    if t == "vps/monitor"@ {
        MqttRoute::Vps
    } else if t == "host/monitor"@ {
        MqttRoute::Host
    } else if has_prefix(t, "Sensors"@) || has_prefix(t, "sensors"@) {
        MqttRoute::Sensors
    } else {
        MqttRoute::Unhandled
    }
}

/// Every topic under `sensors/#` (or `Sensors/...`), and indeed every
/// topic that begins with `sensors` or `Sensors`, whatever follows,
/// routes to the sensor handler.
pub proof fn law_sensor_topics_route_to_sensors(suffix: Seq<char>)
    ensures
        route_spec("sensors"@ + suffix) == MqttRoute::Sensors,
        route_spec("Sensors"@ + suffix) == MqttRoute::Sensors,
{
    reveal_strlit("sensors");
    reveal_strlit("Sensors");
    reveal_strlit("vps/monitor");
    reveal_strlit("host/monitor");
    let lower = "sensors"@ + suffix;
    let upper = "Sensors"@ + suffix;
    assert(lower[0] == 's' && upper[0] == 'S');
    assert(lower != "vps/monitor"@) by {
        assert("vps/monitor"@[0] == 'v');
    }
    assert(lower != "host/monitor"@) by {
        assert("host/monitor"@[0] == 'h');
    }
    assert(upper != "vps/monitor"@) by {
        assert("vps/monitor"@[0] == 'v');
    }
    assert(upper != "host/monitor"@) by {
        assert("host/monitor"@[0] == 'h');
    }
    assert(lower.take(7) =~= "sensors"@);
    assert(upper.take(7) =~= "Sensors"@);
}

fn starts_with_chars(t: &Vec<char>, p: &Vec<char>) -> (res: bool)
    ensures
        res == has_prefix(t@, p@),
{
    if t.len() < p.len() {
        return false;
    }
    let mut i: usize = 0;
    while i < p.len()
        invariant
            i <= p@.len() <= t@.len(),
            forall|k: int| 0 <= k < i ==> t@[k] == p@[k],
        decreases p@.len() - i,
    {
        if t[i] != p[i] {
            assert(t@.take(p@.len() as int)[i as int] != p@[i as int]);
            return false;
        }
        i = i + 1;
    }
    assert(t@.take(p@.len() as int) =~= p@);
    true
}

fn equal_chars(t: &Vec<char>, p: &Vec<char>) -> (res: bool)
    ensures
        res == (t@ == p@),
{
    if t.len() != p.len() {
        return false;
    }
    let r = starts_with_chars(t, p);
    assert(t@.take(p@.len() as int) =~= t@);
    r
}

/// Routes a topic to its payload handler.
pub fn route_topic(topic: &str) -> (res: MqttRoute)
    ensures
        res == route_spec(topic@),
{
    let t = collect_chars(topic);
    let vps = collect_chars("vps/monitor");
    let host = collect_chars("host/monitor");
    if equal_chars(&t, &vps) {
        MqttRoute::Vps
    } else if equal_chars(&t, &host) {
        MqttRoute::Host
    } else {
        let upper = collect_chars("Sensors");
        let lower = collect_chars("sensors");
        if starts_with_chars(&t, &upper) || starts_with_chars(&t, &lower) {
            MqttRoute::Sensors
        } else {
            MqttRoute::Unhandled
        }
    }
}

/// A received PUBLISH message: the route of its topic and its text (the
/// UTF-8 trimmed payload).
pub fn dispatch_mqtt_message<'a>(topic: &str, payload: &'a [u8]) -> (res: (MqttRoute, &'a str))
    ensures
        res.0 == route_spec(topic@),
        res.1.spec_bytes() == trim_from(payload@, 0),
{
    let trimmed = trim_to_utf8(payload);
    let route = route_topic(topic);
    match str_from_utf8(trimmed) {
        Ok(msg) => (route, msg),
        Err(_) => {
            assert(false);
            (route, "")
        },
    }
}

/// The message a PUBLISH packet `data` delivers, if it parses: the route
/// of its topic and the trimmed payload bytes.
pub open spec fn publish_message_spec(data: Seq<u8>) -> Option<(MqttRoute, Seq<u8>)> {
    match parse_publish_spec(data) {
        None => None,
        Some((t, p)) => Some((route_spec(decode_utf8(t)), trim_from(p, 0))),
    }
}

/// The broker session flags the network task keeps per connection.
pub open spec fn session_after(
    data: Seq<u8>,
    established: bool,
    subscribe_sent: bool,
    pending: u8,
) -> (bool, bool, u8) {
    if data.len() < 2 {
        (established, subscribe_sent, pending)
    } else {
        match packet_type_of_nibble(data[0] as int / 16) {
            Some(MqttPacketType::Connack) => if data.len() >= 4 && data[3] == 0 {
                (true, true, 4u8)
            } else {
                (established, subscribe_sent, pending)
            },
            Some(MqttPacketType::Suback) => (
                established,
                subscribe_sent,
                if pending > 0 {
                    (pending - 1) as u8
                } else {
                    pending
                },
            ),
            _ => (established, subscribe_sent, pending),
        }
    }
}

/// Whether `data` is an accepted CONNACK (return code 0).
pub open spec fn is_connack_accepted(data: Seq<u8>) -> bool {
    data.len() >= 4 && packet_type_of_nibble(data[0] as int / 16) == Some(MqttPacketType::Connack)
        && data[3] == 0
}

/// Reacts to one chunk read from the broker. An accepted CONNACK marks
/// the session established, asks for the subscriptions to be sent, expects
/// four SUBACKs and shows `Connected` on the LED; a SUBACK counts one down;
/// a PUBLISH is returned for its handler; anything else is ignored.
pub fn handle_mqtt_data<'a>(
    data: &'a [u8],
    mqtt_established: &mut bool,
    subscribe_sent: &mut bool,
    subscriptions_pending: &mut u8,
    leds: &mut LedQueue,
) -> (res: Option<(MqttRoute, &'a str)>)
    requires
        old(leds).wf(),
    ensures
        final(leds).wf(),
        (*final(mqtt_established), *final(subscribe_sent), *final(subscriptions_pending))
            == session_after(data@, *old(mqtt_established), *old(subscribe_sent), *old(subscriptions_pending)),
        final(leds)@ == (if is_connack_accepted(data@) {
            send_spec(old(leds)@, LedCommand::Connected)
        } else {
            old(leds)@
        }),
        res is Some <==> (data@.len() >= 2 && packet_type_of_nibble(data@[0] as int / 16) == Some(
            MqttPacketType::Publish,
        ) && publish_message_spec(data@) is Some),
        res matches Some((route, msg)) ==> publish_message_spec(data@) == Some((route, msg.spec_bytes())),
{
    if data.len() < 2 {
        return None;
    }
    match parse_packet_type(data[0]) {
        Some(MqttPacketType::Connack) => {
            if data.len() >= 4 && data[3] == 0 {
                *mqtt_established = true;
                *subscribe_sent = true;
                *subscriptions_pending = 4;
                led_command(leds, LedCommand::Connected);
            }
            None
        },
        Some(MqttPacketType::Suback) => {
            if *subscriptions_pending > 0 {
                *subscriptions_pending = *subscriptions_pending - 1;
            }
            None
        },
        Some(MqttPacketType::Publish) => {
            match parse_publish(data) {
                Some((topic, payload)) => {
                    proof {
                        encode_utf8_decode_utf8(topic@);
                    }
                    Some(dispatch_mqtt_message(topic, payload))
                },
                None => None,
            }
        },
        _ => None,
    }
}

/// Seconds between successful NTP syncs.
pub const NTP_INTERVAL_SECS: u64 = 14_400;

/// Seconds between NTP attempts while a sync is overdue.
pub const NTP_RETRY_SECS: u64 = 30;

/// Seconds between weather fetches.
pub const WEATHER_INTERVAL_SECS: u64 = 300;

/// Seconds between MQTT keep-alive pings.
pub const MQTT_PING_INTERVAL_SECS: u64 = 30;

/// Consecutive failed WiFi rounds after which the board resets itself.
pub const MAX_RECONNECT_FAILS: u32 = 5;

/// Timer ticks per second: the timestamps of the schedulers are in
/// microseconds.
pub const TICKS_PER_SEC: u64 = 1_000_000;

/// What the network task does after a round of WiFi connection attempts.
#[derive(Debug, Clone, Copy, PartialEq, Eq, Structural)]
pub enum WifiOutcome {
    /// Connected: go on to DHCP and MQTT.
    Connected,
    /// Not connected: wait and try another round.
    RetryLater,
    /// Too many failed rounds in a row: reset the board.
    HardReset,
}

/// The failure count and outcome after a round that connected (`ok`) or
/// not, starting from `fails` consecutive failed rounds: a success clears
/// the count; a failure adds one, and the fifth in a row resets the board.
pub open spec fn wifi_round_spec(fails: u32, ok: bool) -> (u32, WifiOutcome) {
    if ok {
        (0, WifiOutcome::Connected)
    } else if fails + 1 >= MAX_RECONNECT_FAILS {
        ((fails + 1) as u32, WifiOutcome::HardReset)
    } else {
        ((fails + 1) as u32, WifiOutcome::RetryLater)
    }
}

/// Records the end of a WiFi round (see `wifi_round_spec`) and tells the
/// LED what comes next: `MqttConnecting` after a success, `Error` before
/// a reset.
pub fn after_wifi_round(reconnect_fails: &mut u32, wifi_ok: bool, leds: &mut LedQueue) -> (res: WifiOutcome)
    requires
        old(leds).wf(),
        *old(reconnect_fails) < u32::MAX,
    ensures
        final(leds).wf(),
        (*final(reconnect_fails), res) == wifi_round_spec(*old(reconnect_fails), wifi_ok),
        final(leds)@ == (match res {
            WifiOutcome::Connected => send_spec(old(leds)@, LedCommand::MqttConnecting),
            WifiOutcome::HardReset => send_spec(old(leds)@, LedCommand::Error),
            WifiOutcome::RetryLater => old(leds)@,
        }),
{
    if wifi_ok {
        *reconnect_fails = 0;
        led_command(leds, LedCommand::MqttConnecting);
        WifiOutcome::Connected
    } else {
        *reconnect_fails = *reconnect_fails + 1;
        if *reconnect_fails >= MAX_RECONNECT_FAILS {
            led_command(leds, LedCommand::Error);
            WifiOutcome::HardReset
        } else {
            WifiOutcome::RetryLater
        }
    }
}

/// Which network a WiFi round tries next, after `tried` attempts at the
/// `count` networks in order: the next one while none has connected;
/// `None` once one connected or all were tried.
pub fn next_credential(count: usize, tried: usize, connected: bool) -> (res: Option<usize>)
    ensures
        res == (if connected || tried >= count {
            None
        } else {
            Some(tried)
        }),
{
    if connected || tried >= count {
        None
    } else {
        Some(tried)
    }
}

/// The failure count after `n` failed rounds in a row from `fails`.
pub open spec fn failures_after(fails: u32, n: nat) -> u32
    decreases n,
{
    if n == 0 {
        fails
    } else {
        wifi_round_spec(failures_after(fails, (n - 1) as nat), false).0
    }
}

/// From a fresh start (or right after a success), the `n`-th failed round
/// in a row counts `n` failures, and it resets the board exactly when `n`
/// reaches `MAX_RECONNECT_FAILS`; a successful round always clears the
/// count.
pub proof fn law_wifi_reset_after_consecutive_failures(n: nat, fails: u32)
    requires
        1 <= n <= MAX_RECONNECT_FAILS,
    ensures
        failures_after(wifi_round_spec(fails, true).0, n) == n,
        (wifi_round_spec(failures_after(0, (n - 1) as nat), false).1 == WifiOutcome::HardReset)
            <==> n == MAX_RECONNECT_FAILS,
        wifi_round_spec(fails, true) == (0u32, WifiOutcome::Connected),
    decreases n,
{
    if n > 1 {
        law_wifi_reset_after_consecutive_failures((n - 1) as nat, fails);
    }
    assert(failures_after(0, (n - 1) as nat) == n - 1) by {
        if n > 1 {
            law_wifi_reset_after_consecutive_failures((n - 1) as nat, fails);
        }
    }
}

/// When the network task last did each periodic job (microseconds), and
/// whether NTP and weather are due at once (as they are after connecting).
#[derive(Debug, Clone, Copy, PartialEq, Eq, Structural)]
pub struct ServiceTimers {
    pub ntp_due: bool,
    pub weather_due: bool,
    pub last_ntp_us: u64,
    pub last_ntp_attempt_us: u64,
    pub last_weather_us: u64,
    pub last_ping_us: u64,
}

/// The periodic jobs to run in one pass of the network loop.
#[derive(Debug, Clone, Copy, PartialEq, Eq, Structural)]
pub struct ServiceActions {
    pub ping: bool,
    pub ntp: bool,
    pub weather: bool,
}

/// Whether more than `secs` seconds lie between `since` and `now`.
pub open spec fn longer_than(now: u64, since: u64, secs: u64) -> bool {
    now - since > secs * TICKS_PER_SEC
}

/// The timers of a fresh MQTT connection at `now`: NTP and weather due.
pub open spec fn timers_start(now: u64) -> ServiceTimers {
    ServiceTimers {
        ntp_due: true,
        weather_due: true,
        last_ntp_us: now,
        last_ntp_attempt_us: now,
        last_weather_us: now,
        last_ping_us: now,
    }
}

/// No timestamp of `t` lies after `now`.
pub open spec fn timers_not_after(t: ServiceTimers, now: u64) -> bool {
    &&& t.last_ntp_us <= now
    &&& t.last_ntp_attempt_us <= now
    &&& t.last_weather_us <= now
    &&& t.last_ping_us <= now
}

/// The jobs due at `now`: a ping when connected to the broker and the
/// last ping is over 30 s old; NTP when due, or when the last sync is over
/// four hours old and the last attempt over 30 s old; weather when due or
/// when the last fetch is over five minutes old.
pub open spec fn poll_actions(t: ServiceTimers, now: u64, established: bool) -> ServiceActions {
    ServiceActions {
        ping: established && longer_than(now, t.last_ping_us, MQTT_PING_INTERVAL_SECS),
        ntp: t.ntp_due || (longer_than(now, t.last_ntp_us, NTP_INTERVAL_SECS) && longer_than(
            now,
            t.last_ntp_attempt_us,
            NTP_RETRY_SECS,
        )),
        weather: t.weather_due || longer_than(now, t.last_weather_us, WEATHER_INTERVAL_SECS),
    }
}

/// The timers after the jobs of `poll_actions` start at `now`: each job
/// that runs is stamped `now` and no longer due. A sync is only recorded
/// as done by `ServiceTimers::ntp_synced`.
pub open spec fn poll_timers(t: ServiceTimers, now: u64, established: bool) -> ServiceTimers {
    let a = poll_actions(t, now, established);
    ServiceTimers {
        ntp_due: if a.ntp {
            false
        } else {
            t.ntp_due
        },
        weather_due: if a.weather {
            false
        } else {
            t.weather_due
        },
        last_ntp_us: t.last_ntp_us,
        last_ntp_attempt_us: if a.ntp {
            now
        } else {
            t.last_ntp_attempt_us
        },
        last_weather_us: if a.weather {
            now
        } else {
            t.last_weather_us
        },
        last_ping_us: if a.ping {
            now
        } else {
            t.last_ping_us
        },
    }
}

fn elapsed_over(now: u64, since: u64, limit_us: u64) -> (res: bool)
    requires
        since <= now,
    ensures
        res == (now - since > limit_us),
{
    now - since > limit_us
}

impl ServiceTimers {
    /// The timers of a fresh connection at `now_us` (see `timers_start`).
    pub fn new(now_us: u64) -> (res: Self)
        ensures
            res == timers_start(now_us),
    {
        ServiceTimers {
            ntp_due: true,
            weather_due: true,
            last_ntp_us: now_us,
            last_ntp_attempt_us: now_us,
            last_weather_us: now_us,
            last_ping_us: now_us,
        }
    }

    /// Decides which jobs run at `now_us` and stamps them (see
    /// `poll_actions` and `poll_timers`).
    pub fn poll(&mut self, now_us: u64, established: bool) -> (res: ServiceActions)
        requires
            timers_not_after(*old(self), now_us),
        ensures
            res == poll_actions(*old(self), now_us, established),
            *final(self) == poll_timers(*old(self), now_us, established),
            timers_not_after(*final(self), now_us),
    {
        let ping = established && elapsed_over(
            now_us,
            self.last_ping_us,
            MQTT_PING_INTERVAL_SECS * TICKS_PER_SEC,
        );
        let ntp = self.ntp_due || (elapsed_over(now_us, self.last_ntp_us, NTP_INTERVAL_SECS * TICKS_PER_SEC)
            && elapsed_over(now_us, self.last_ntp_attempt_us, NTP_RETRY_SECS * TICKS_PER_SEC));
        let weather = self.weather_due || elapsed_over(
            now_us,
            self.last_weather_us,
            WEATHER_INTERVAL_SECS * TICKS_PER_SEC,
        );
        if ping {
            self.last_ping_us = now_us;
        }
        if ntp {
            self.ntp_due = false;
            self.last_ntp_attempt_us = now_us;
        }
        if weather {
            self.weather_due = false;
            self.last_weather_us = now_us;
        }
        ServiceActions { ping, ntp, weather }
    }

    /// Records a successful NTP sync started at `now_us`.
    pub fn ntp_synced(&mut self, now_us: u64)
        ensures
            *final(self) == (ServiceTimers { last_ntp_us: now_us, ..*old(self) }),
    {
        self.last_ntp_us = now_us;
    }
}

/// Right after connecting, the first pass of the loop syncs the time and
/// fetches the weather, whenever it comes.
pub proof fn law_first_pass_syncs_and_fetches(start: u64, now: u64, established: bool)
    requires
        start <= now,
    ensures
        poll_actions(timers_start(start), now, established).ntp,
        poll_actions(timers_start(start), now, established).weather,
{
}

/// After a job runs at `now1`, it does not run again at a `now2` that is
/// no later than its interval afterwards: pings are at least 30 s apart,
/// weather fetches five minutes, NTP attempts 30 s, and after a
/// successful sync the next attempt waits four hours.
pub proof fn law_jobs_keep_their_intervals(
    t: ServiceTimers,
    now1: u64,
    now2: u64,
    est1: bool,
    est2: bool,
    synced: bool,
)
    requires
        timers_not_after(t, now1),
        now1 <= now2,
    ensures
        ({
            let a1 = poll_actions(t, now1, est1);
            let t1 = poll_timers(t, now1, est1);
            let t2 = if a1.ntp && synced {
                ServiceTimers { last_ntp_us: now1, ..t1 }
            } else {
                t1
            };
            let a2 = poll_actions(t2, now2, est2);
            &&& (a1.ping && now2 - now1 <= MQTT_PING_INTERVAL_SECS * TICKS_PER_SEC) ==> !a2.ping
            &&& (a1.weather && now2 - now1 <= WEATHER_INTERVAL_SECS * TICKS_PER_SEC) ==> !a2.weather
            &&& (a1.ntp && now2 - now1 <= NTP_RETRY_SECS * TICKS_PER_SEC) ==> !a2.ntp
            &&& (a1.ntp && synced && now2 - now1 <= NTP_INTERVAL_SECS * TICKS_PER_SEC) ==> !a2.ntp
        }),
{
}

/// How many SUBACKs a fresh broker session waits for: one per topic.
pub const MQTT_TOPIC_COUNT: u8 = 4;

/// The topic filters subscribed to after each accepted CONNACK, in order.
pub open spec fn subscription_topics() -> Seq<Seq<u8>> {
    seq![
        "Sensors/#".spec_bytes(),
        "sensors/#".spec_bytes(),
        "vps/monitor".spec_bytes(),
        "host/monitor".spec_bytes(),
    ]
}

/// A packet id `k` steps after `id`, wrapping at 65536.
pub open spec fn packet_id_after(id: u16, k: int) -> u16 {
    ((id + k) % 0x1_0000) as u16
}

/// The broker session of one MQTT connection: whether the CONNACK was
/// accepted, whether the subscriptions still have to be sent, how many
/// SUBACKs are outstanding, and the next packet id.
#[derive(Debug, Clone, Copy, PartialEq, Eq, Structural)]
pub struct MqttSession {
    pub established: bool,
    pub subscribe_sent: bool,
    pub pending: u8,
    pub packet_id: u16,
}

/// Whether the subscriptions go out in this pass of the loop.
pub open spec fn subscriptions_due(s: MqttSession) -> bool {
    s.established && s.subscribe_sent && s.pending > 0
}

/// The session after `data` arrives (see `session_after`).
pub open spec fn session_on_data(s: MqttSession, data: Seq<u8>) -> MqttSession {
    let (e, sent, p) = session_after(data, s.established, s.subscribe_sent, s.pending);
    MqttSession { established: e, subscribe_sent: sent, pending: p, packet_id: s.packet_id }
}

/// The session after the subscriptions are handed out: nothing changes
/// unless they were due; then they are marked sent and four packet ids
/// are used up.
pub open spec fn session_after_subscribing(s: MqttSession) -> MqttSession {
    if subscriptions_due(s) {
        MqttSession { subscribe_sent: false, packet_id: packet_id_after(s.packet_id, 4), ..s }
    } else {
        s
    }
}

fn subscription_topic(k: usize) -> (res: &'static str)
    requires
        k < 4,
    ensures
        res.spec_bytes() == subscription_topics()[k as int],
{
    if k == 0 {
        "Sensors/#"
    } else if k == 1 {
        "sensors/#"
    } else if k == 2 {
        "vps/monitor"
    } else {
        "host/monitor"
    }
}

impl MqttSession {
    /// A session before the CONNACK: not established, four subscriptions
    /// outstanding, packet ids starting at 1.
    pub fn new() -> (res: Self)
        ensures
            res == (MqttSession {
                established: false,
                subscribe_sent: false,
                pending: MQTT_TOPIC_COUNT,
                packet_id: 1,
            }),
    {
        MqttSession { established: false, subscribe_sent: false, pending: MQTT_TOPIC_COUNT, packet_id: 1 }
    }

    /// Handles one chunk read from the broker (see `handle_mqtt_data`).
    pub fn on_data<'a>(&mut self, data: &'a [u8], leds: &mut LedQueue) -> (res: Option<(MqttRoute, &'a str)>)
        requires
            old(leds).wf(),
        ensures
            final(leds).wf(),
            *final(self) == session_on_data(*old(self), data@),
            final(leds)@ == (if is_connack_accepted(data@) {
                send_spec(old(leds)@, LedCommand::Connected)
            } else {
                old(leds)@
            }),
            res is Some <==> (data@.len() >= 2 && packet_type_of_nibble(data@[0] as int / 16) == Some(
                MqttPacketType::Publish,
            ) && publish_message_spec(data@) is Some),
            res matches Some((route, msg)) ==> publish_message_spec(data@) == Some((route, msg.spec_bytes())),
    {
        handle_mqtt_data(data, &mut self.established, &mut self.subscribe_sent, &mut self.pending, leds)
    }

    /// The SUBSCRIBE packets to write in this pass: one per topic of
    /// `subscription_topics`, with consecutive packet ids, when the
    /// subscriptions are due; none otherwise.
    pub fn take_subscriptions(&mut self) -> (res: Vec<heapless::Vec<u8, 128>>)
        ensures
            *final(self) == session_after_subscribing(*old(self)),
            subscriptions_due(*old(self)) ==> res@.len() == 4 && forall|k: int|
                0 <= k < 4 ==> #[trigger] bytes128(res@[k]) == frame(
                    0x82,
                    subscribe_payload(subscription_topics()[k], packet_id_after(old(self).packet_id, k)),
                    128,
                ),
            !subscriptions_due(*old(self)) ==> res@.len() == 0,
    {
        let mut packets: Vec<heapless::Vec<u8, 128>> = Vec::new();
        if !(self.established && self.subscribe_sent && self.pending > 0) {
            return packets;
        }
        let ghost id0 = self.packet_id;
        let mut k: usize = 0;
        while k < 4
            invariant
                k <= 4,
                packets@.len() == k,
                self.packet_id == packet_id_after(id0, k as int),
                self.established == old(self).established,
                self.subscribe_sent == old(self).subscribe_sent,
                self.pending == old(self).pending,
                id0 == old(self).packet_id,
                forall|j: int|
                    0 <= j < k ==> #[trigger] bytes128(packets@[j]) == frame(
                        0x82,
                        subscribe_payload(subscription_topics()[j], packet_id_after(id0, j)),
                        128,
                    ),
            decreases 4 - k,
        {
            let topic = subscription_topic(k);
            let p = build_subscribe(topic, self.packet_id);
            packets.push(p);
            self.packet_id = self.packet_id.wrapping_add(1);
            k = k + 1;
        }
        self.subscribe_sent = false;
        packets
    }
}

/// An accepted CONNACK makes the subscriptions go out exactly once: the
/// next pass hands out the batch, the one after hands out nothing, and a
/// later CONNACK asks for them again.
pub proof fn law_one_subscription_batch_per_connack(s: MqttSession, connack: Seq<u8>)
    requires
        is_connack_accepted(connack),
    ensures
        subscriptions_due(session_on_data(s, connack)),
        !subscriptions_due(session_after_subscribing(session_on_data(s, connack))),
        subscriptions_due(session_on_data(session_after_subscribing(session_on_data(s, connack)), connack)),
{
}

/// The MQTT port used when the configured one is not a number.
pub const DEFAULT_MQTT_PORT: u16 = 1883;

/// The broker port of the configuration text `t`: the number it holds as
/// `u16::from_str` reads it, or `DEFAULT_MQTT_PORT`.
pub open spec fn port_spec(t: Seq<char>) -> u16 {
    match parse_u64_spec(t) {
        Some(n) => if n <= 65535 {
            n as u16
        } else {
            DEFAULT_MQTT_PORT
        },
        None => DEFAULT_MQTT_PORT,
    }
}

/// Reads the configured broker port (see `port_spec`).
pub fn broker_port(text: &str) -> (res: u16)
    ensures
        res == port_spec(text@),
{
    match parse_u64(text) {
        Some(n) => if n <= 65535 {
            n as u16
        } else {
            DEFAULT_MQTT_PORT
        },
        None => DEFAULT_MQTT_PORT,
    }
}

/// Whether `p` is one part of a dotted IPv4 address as `Ipv4Addr::from_str`
/// reads it: one to three ASCII digits, no leading zero unless the part is
/// `0`, and a value of at most 255.
pub open spec fn octet_ok(p: Seq<char>) -> bool {
    &&& 1 <= p.len() <= 3
    &&& forall|i: int| 0 <= i < p.len() ==> is_digit(#[trigger] p[i])
    &&& !(p.len() > 1 && p[0] == '0')
    &&& digits_value(p) <= 255
}

/// The address a host name spells as a dotted IPv4 address: exactly four
/// parts between dots, each an `octet_ok` number; `None` for anything else
/// (a name to look up).
pub open spec fn ipv4_spec(s: Seq<char>) -> Option<(u8, u8, u8, u8)> {
    let parts = split_on(s, '.');
    if parts.len() == 4 && octet_ok(parts[0]) && octet_ok(parts[1]) && octet_ok(parts[2])
        && octet_ok(parts[3]) {
        Some(
            (
                digits_value(parts[0]) as u8,
                digits_value(parts[1]) as u8,
                digits_value(parts[2]) as u8,
                digits_value(parts[3]) as u8,
            ),
        )
    } else {
        None
    }
}

fn octet_value(p: &Vec<char>) -> (res: Option<u8>)
    ensures
        res is Some <==> octet_ok(p@),
        res matches Some(v) ==> v == digits_value(p@),
{
    let n = p.len();
    if n == 0 || n > 3 {
        return None;
    }
    let mut acc: u32 = 0;
    let mut i: usize = 0;
    while i < n
        invariant
            n == p@.len(),
            1 <= n <= 3,
            i <= n,
            forall|j: int| 0 <= j < i ==> is_digit(#[trigger] p@[j]),
            acc == digits_value(p@.take(i as int)),
            acc < 1000,
        decreases n - i,
    {
        let c = p[i];
        if !('0' <= c && c <= '9') {
            assert(!is_digit(p@[i as int]));
            return None;
        }
        assert(p@.take(i + 1).drop_last() =~= p@.take(i as int));
        assert(p@.take(i + 1).last() == c);
        proof {
            if i >= 1 {
                assert(acc < 100) by {
                    lemma_digits_below(p@.take(i as int));
                }
            }
        }
        acc = acc * 10 + (c as u32 - 48);
        i = i + 1;
    }
    assert(p@.take(n as int) =~= p@);
    if n > 1 && p[0] == '0' {
        return None;
    }
    if acc > 255 {
        return None;
    }
    Some(acc as u8)
}

proof fn lemma_digits_below(ds: Seq<char>)
    requires
        ds.len() <= 2,
        forall|j: int| 0 <= j < ds.len() ==> is_digit(#[trigger] ds[j]),
    ensures
        digits_value(ds) < (if ds.len() == 0 {
            1int
        } else if ds.len() == 1 {
            10int
        } else {
            100int
        }),
    decreases ds.len(),
{
    if ds.len() > 0 {
        lemma_digits_below(ds.drop_last());
        assert(is_digit(ds[ds.len() - 1]));
    }
}

/// Reads a host name as a dotted IPv4 address (see `ipv4_spec`).
pub fn parse_ipv4(s: &str) -> (res: Option<(u8, u8, u8, u8)>)
    ensures
        res == ipv4_spec(s@),
{
    let cs = collect_chars(s);
    let n = cs.len();
    let parts = split_pieces(&cs, 0, n, '.');
    assert(cs@.subrange(0, n as int) =~= s@);
    if parts.len() != 4 {
        return None;
    }
    let a = match octet_value(&parts[0]) {
        Some(v) => v,
        None => return None,
    };
    let b = match octet_value(&parts[1]) {
        Some(v) => v,
        None => return None,
    };
    let c = match octet_value(&parts[2]) {
        Some(v) => v,
        None => return None,
    };
    let d = match octet_value(&parts[3]) {
        Some(v) => v,
        None => return None,
    };
    Some((a, b, c, d))
}

} // verus!
