//! The two outside services: the NTP request and the time read from its
//! reply, and the weather request and the fields read from its reply.

use vstd::prelude::*;
use vstd::string::StringSliceAdditionalSpecFns;
use vstd::utf8::*;

use crate::mqtt::{
    find_pattern_from, first_match_from, json_extract, json_value_spec, lemma_first_match_bounds,
};
use crate::text::{collect_chars, push_chars, str_from_utf8};
use crate::time::{berlin_civil_time, local_time_from_fields, ntp_to_local, ntp_to_unix_spec, LocalTime};

verus! {

/// Size of an NTP packet.
pub const NTP_PACKET_LEN: usize = 48;

/// The NTP server port.
pub const NTP_PORT: u16 = 123;

/// The local UDP port the NTP request is sent from.
pub const NTP_LOCAL_PORT: u16 = 12345;

/// The first byte of a client request: no leap warning, version 3, mode 3.
pub const NTP_CLIENT_HEADER: u8 = 0x1B;

/// An SNTP client request: the header byte, then zeros.
pub fn ntp_request() -> (res: [u8; 48])
    ensures
        res@ == seq![NTP_CLIENT_HEADER] + Seq::new(47, |i: int| 0u8),
{
    let mut request = [0u8; 48];
    request[0] = NTP_CLIENT_HEADER;
    assert(request@ =~= seq![NTP_CLIENT_HEADER] + Seq::new(47, |i: int| 0u8));
    request
}

/// The transmit timestamp (whole seconds since 1900, big-endian at bytes
/// 40..44) of an NTP reply, or `None` for a reply shorter than 44 bytes.
pub open spec fn ntp_transmit_secs(resp: Seq<u8>) -> Option<u64> {
    if resp.len() < 44 {
        None
    } else {
        Some(
            (resp[40] * 0x100_0000 + resp[41] * 0x1_0000 + resp[42] * 0x100 + resp[43]) as u64,
        )
    }
}

/// The local time an NTP reply gives: none for a short reply or a zero
/// timestamp, else the Berlin time of the timestamp.
pub open spec fn ntp_reply_time(resp: Seq<u8>) -> Option<LocalTime> {
    match ntp_transmit_secs(resp) {
        None => None,
        Some(secs) => if secs == 0 {
            None
        } else {
            match berlin_civil_time(ntp_to_unix_spec(secs)) {
                Some(f) => Some(local_time_from_fields(f)),
                None => None,
            }
        },
    }
}

/// Reads the local time from the bytes of an NTP reply (see
/// `ntp_reply_time`); every reply of 44 bytes or more with a non-zero
/// timestamp gives a time.
pub fn ntp_response_time(resp: &[u8]) -> (res: Option<LocalTime>)
    ensures
        res == ntp_reply_time(resp@),
        (ntp_transmit_secs(resp@) matches Some(s) && s != 0) ==> res is Some,
        ntp_transmit_secs(resp@) matches Some(s) ==> (s != 0 ==> (res matches Some(t) && t.minute
            == (s / 60) % 60 && t.second == s % 60)),
{
    if resp.len() < 44 {
        return None;
    }
    let secs: u64 = (resp[40] as u64) * 0x100_0000 + (resp[41] as u64) * 0x1_0000 + (resp[42] as u64)
        * 0x100 + (resp[43] as u64);
    if secs == 0 {
        return None;
    }
    ntp_to_local(secs)
}

/// The HTTP request for the current weather in `city`, `country`, in
/// metric units with German descriptions.
pub open spec fn weather_request_spec(city: Seq<char>, country: Seq<char>, api_key: Seq<char>) -> Seq<
    char,
> {
    "GET /data/2.5/weather?q="@ + city + ","@ + country + "&appid="@ + api_key
        + "&units=metric&lang=de HTTP/1.1\r\nHost: api.openweathermap.org\r\nConnection: close\r\n\r\n"@
}

/// Builds the weather request (see `weather_request_spec`).
pub fn weather_request(city: &str, country: &str, api_key: &str) -> (res: String)
    ensures
        res@ == weather_request_spec(city@, country@, api_key@),
{
    let mut req = String::new();
    push_chars(&mut req, "GET /data/2.5/weather?q=");
    push_chars(&mut req, city);
    push_chars(&mut req, ",");
    push_chars(&mut req, country);
    push_chars(&mut req, "&appid=");
    push_chars(&mut req, api_key);
    push_chars(
        &mut req,
        "&units=metric&lang=de HTTP/1.1\r\nHost: api.openweathermap.org\r\nConnection: close\r\n\r\n",
    );
    req
}

/// The blank line that ends the HTTP headers.
pub open spec fn header_end() -> Seq<char> {
    seq!['\r', '\n', '\r', '\n']
}

/// The body of an HTTP response: the text after the first blank line, up
/// to the next blank line if there is one; empty without a blank line.
pub open spec fn http_body_spec(r: Seq<char>) -> Seq<char> {
    match first_match_from(r, header_end(), 0) {
        None => Seq::empty(),
        Some(i) => match first_match_from(r, header_end(), i + 4) {
            None => r.subrange(i + 4, r.len() as int),
            Some(j) => r.subrange(i + 4, j),
        },
    }
}

/// The body of an HTTP response (see `http_body_spec`).
pub fn http_body(resp: &str) -> (res: &str)
    ensures
        res@ == http_body_spec(resp@),
{
    let m = collect_chars(resp);
    let mut sep: Vec<char> = Vec::new();
    sep.push('\r');
    sep.push('\n');
    sep.push('\r');
    sep.push('\n');
    assert(sep@ =~= header_end());
    proof {
        reveal_strlit("");
    }
    let i = match find_pattern_from(&m, &sep, 0) {
        None => return "",
        Some(i) => i,
    };
    let n = m.len();
    assert(i + 4 <= n);
    match find_pattern_from(&m, &sep, i + 4) {
        None => resp.substring_char(i + 4, n),
        Some(j) => resp.substring_char(i + 4, j),
    }
}

/// The text of a response as read: the bytes when they are valid UTF-8,
/// else empty.
pub fn response_text(bytes: &[u8]) -> (res: &str)
    ensures
        valid_utf8(bytes@) ==> res.spec_bytes() == bytes@,
        !valid_utf8(bytes@) ==> res@ == Seq::<char>::empty(),
{
    proof {
        reveal_strlit("");
    }
    match str_from_utf8(bytes) {
        Ok(s) => s,
        Err(_) => "",
    }
}

/// The text of an optional slice.
pub open spec fn opt_text(o: Option<&str>) -> Option<Seq<char>> {
    match o {
        Some(s) => Some(s@),
        None => None,
    }
}

/// A JSON value, or `--` when it is missing.
pub open spec fn text_or_dashes(v: Option<Seq<char>>) -> Seq<char> {
    match v {
        Some(t) => t,
        None => "--"@,
    }
}

/// The raw fields of a weather reply: the numbers as text (read by the
/// caller), the description and icon code (`--` when missing).
#[derive(Debug, Clone, Copy)]
pub struct WeatherFields<'a> {
    pub temp: Option<&'a str>,
    pub humidity: Option<&'a str>,
    pub pressure: Option<&'a str>,
    pub wind: Option<&'a str>,
    pub description: &'a str,
    pub icon: &'a str,
}

/// The body of a weather reply, when there is one: the reply must be non-
/// empty valid UTF-8 with a non-empty body.
pub open spec fn weather_body(resp: Seq<u8>) -> Option<Seq<char>> {
    if resp.len() == 0 || !valid_utf8(resp) {
        None
    } else {
        let body = http_body_spec(decode_utf8(resp));
        if body.len() == 0 {
            None
        } else {
            Some(body)
        }
    }
}

/// Reads the weather fields from a reply (see `weather_body`): `temp`,
/// `humidity`, `pressure` and `speed` (the wind), and `description` and
/// `icon` with `--` for a missing one. `None` when there is no body.
pub fn weather_fields<'a>(resp: &'a [u8]) -> (res: Option<WeatherFields<'a>>)
    ensures
        res is None <==> weather_body(resp@) is None,
        res matches Some(f) ==> ({
            let body = weather_body(resp@)->0;
            &&& opt_text(f.temp) == json_value_spec(body, "temp"@)
            &&& opt_text(f.humidity) == json_value_spec(body, "humidity"@)
            &&& opt_text(f.pressure) == json_value_spec(body, "pressure"@)
            &&& opt_text(f.wind) == json_value_spec(body, "speed"@)
            &&& f.description@ == text_or_dashes(json_value_spec(body, "description"@))
            &&& f.icon@ == text_or_dashes(json_value_spec(body, "icon"@))
        }),
{
    if resp.len() == 0 {
        return None;
    }
    let text = response_text(resp);
    proof {
        if valid_utf8(resp@) {
            encode_utf8_decode_utf8(text@);
        }
    }
    let body = http_body(text);
    if body.is_empty() {
        return None;
    }
    let temp = json_extract(body, "temp");
    let humidity = json_extract(body, "humidity");
    let pressure = json_extract(body, "pressure");
    let wind = json_extract(body, "speed");
    let description = match json_extract(body, "description") {
        Some(d) => d,
        None => "--",
    };
    let icon = match json_extract(body, "icon") {
        Some(i) => i,
        None => "--",
    };
    Some(WeatherFields { temp, humidity, pressure, wind, description, icon })
}

} // verus!
