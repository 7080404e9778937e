//! The fields read from the MQTT payloads of the VPS and host monitors
//! and of the room sensors. Numbers with a fraction stay text here; the
//! caller reads them.

use vstd::prelude::*;

use crate::mqtt::{
    find_char, find_pattern, first_char_from, first_match_from, json_extract, json_value_spec,
    skip_ws, skip_ws_from, trim_end, trim_end_to,
};
use crate::services::opt_text;
use crate::text::{collect_chars, split_on, split_pieces, string_push};

verus! {

/// Whether `c` is an ASCII decimal digit.
pub open spec fn is_digit(c: char) -> bool {
    '0' <= c <= '9'
}

/// The value of the decimal digits `ds`.
pub open spec fn digits_value(ds: Seq<char>) -> nat
    decreases ds.len(),
{
    if ds.len() == 0 {
        0
    } else {
        digits_value(ds.drop_last()) * 10 + ((ds.last() as int - '0' as int) as nat)
    }
}

/// `cs` without a leading `+`.
pub open spec fn unsigned_digits(cs: Seq<char>) -> Seq<char> {
    if cs.len() > 0 && cs[0] == '+' {
        cs.skip(1)
    } else {
        cs
    }
}

/// `u64::from_str`: an optional `+`, then one or more ASCII digits whose
/// value fits in 64 bits; anything else is refused.
pub open spec fn parse_u64_spec(cs: Seq<char>) -> Option<u64> {
    let ds = unsigned_digits(cs);
    if ds.len() == 0 || exists|i: int| 0 <= i < ds.len() && !is_digit(#[trigger] ds[i]) {
        None
    } else if digits_value(ds) > u64::MAX {
        None
    } else {
        Some(digits_value(ds) as u64)
    }
}

proof fn lemma_digits_value_grows(ds: Seq<char>, k: int)
    requires
        0 <= k <= ds.len(),
        forall|i: int| 0 <= i < ds.len() ==> is_digit(#[trigger] ds[i]),
    ensures
        digits_value(ds.take(k)) <= digits_value(ds),
    decreases ds.len() - k,
{
    if k < ds.len() {
        lemma_digits_value_grows(ds, k + 1);
        assert(ds.take(k + 1).drop_last() =~= ds.take(k));
    } else {
        assert(ds.take(k) =~= ds);
    }
}

/// Reads an unsigned 64-bit decimal number (see `parse_u64_spec`).
pub fn parse_u64(s: &str) -> (res: Option<u64>)
    ensures
        res == parse_u64_spec(s@),
{
    let cs = collect_chars(s);
    let start: usize = if cs.len() > 0 && cs[0] == '+' {
        1
    } else {
        0
    };
    let ghost ds = unsigned_digits(s@);
    assert(ds =~= cs@.skip(start as int));
    if start >= cs.len() {
        return None;
    }
    let mut acc: u64 = 0;
    let mut i: usize = start;
    while i < cs.len()
        invariant
            start <= i <= cs@.len(),
            cs@ == s@,
            ds == cs@.skip(start as int),
            ds == unsigned_digits(s@),
            forall|j: int| 0 <= j < i - start ==> is_digit(#[trigger] ds[j]),
            acc == digits_value(ds.take(i - start)),
        decreases cs@.len() - i,
    {
        let c = cs[i];
        assert(c == ds[i - start]);
        if !('0' <= c && c <= '9') {
            assert(!is_digit(ds[i - start]));
            return None;
        }
        let d: u64 = (c as u32 - 48) as u64;
        assert(ds.take(i - start + 1).drop_last() =~= ds.take(i - start));
        assert(ds.take(i - start + 1).last() == c);
        assert(digits_value(ds.take(i - start + 1)) == acc * 10 + d);
        match acc.checked_mul(10) {
            None => {
                assert(acc * 10 > u64::MAX);
                proof {
                    if forall|j: int| 0 <= j < ds.len() ==> is_digit(#[trigger] ds[j]) {
                        lemma_digits_value_grows(ds, i - start + 1);
                        assert(digits_value(ds) > u64::MAX);
                    }
                }
                return None;
            },
            Some(t) => match t.checked_add(d) {
                None => {
                    proof {
                        if forall|j: int| 0 <= j < ds.len() ==> is_digit(#[trigger] ds[j]) {
                            lemma_digits_value_grows(ds, i - start + 1);
                        }
                    }
                    return None;
                },
                Some(v) => {
                    acc = v;
                },
            },
        }
        i = i + 1;
    }
    assert(ds.take(ds.len() as int) =~= ds);
    Some(acc)
}

/// The fields of a VPS monitor message: CPU, RAM and disk load as text,
/// and the uptime in seconds (0 when missing or not a number).
#[derive(Debug, Clone, Copy)]
pub struct VpsFields<'a> {
    pub cpu: Option<&'a str>,
    pub ram: Option<&'a str>,
    pub disk: Option<&'a str>,
    pub uptime_seconds: u64,
}

/// The uptime a VPS message gives: its `uptime_seconds` value read as a
/// number, 0 when missing or not a number.
pub open spec fn uptime_of(m: Seq<char>) -> u64 {
    match json_value_spec(m, "uptime_seconds"@) {
        Some(v) => match parse_u64_spec(v) {
            Some(n) => n,
            None => 0,
        },
        None => 0,
    }
}

/// Reads the fields of a VPS monitor message.
pub fn vps_fields<'a>(msg: &'a str) -> (res: VpsFields<'a>)
    ensures
        opt_text(res.cpu) == json_value_spec(msg@, "cpu"@),
        opt_text(res.ram) == json_value_spec(msg@, "ram"@),
        opt_text(res.disk) == json_value_spec(msg@, "disk"@),
        res.uptime_seconds == uptime_of(msg@),
{
    let cpu = json_extract(msg, "cpu");
    let ram = json_extract(msg, "ram");
    let disk = json_extract(msg, "disk");
    let uptime_seconds = match json_extract(msg, "uptime_seconds") {
        Some(v) => match parse_u64(v) {
            Some(n) => n,
            None => 0,
        },
        None => 0,
    };
    VpsFields { cpu, ram, disk, uptime_seconds }
}

/// `s` without leading and trailing whitespace, as `str::trim` gives it.
pub open spec fn trim_spec(s: Seq<char>) -> Seq<char> {
    let a = skip_ws_from(s, 0);
    s.subrange(a, trim_end_to(s, a, s.len() as int))
}

/// Where the CPU core loads of a host message lie: after the first
/// `"cpu"`, from the next `[` up to the following `]` (or the end).
pub open spec fn cpu_array_region(m: Seq<char>) -> Option<(int, int)> {
    match first_match_from(m, "\"cpu\""@, 0) {
        None => None,
        Some(start) => match first_char_from(m, '[', start) {
            None => None,
            Some(b) => match first_char_from(m, ']', b + 1) {
                Some(e) => Some((b + 1, e)),
                None => Some((b + 1, m.len() as int)),
            },
        },
    }
}

/// The CPU core loads of a host message as text: the trimmed pieces
/// between commas of `cpu_array_region`; none without the region.
pub open spec fn cpu_items_spec(m: Seq<char>) -> Seq<Seq<char>> {
    match cpu_array_region(m) {
        None => Seq::empty(),
        Some((lo, hi)) => split_on(m.subrange(lo, hi), ',').map_values(|p: Seq<char>| trim_spec(p)),
    }
}

fn trimmed_string(piece: &Vec<char>) -> (res: String)
    ensures
        res@ == trim_spec(piece@),
{
    let a = skip_ws(piece, 0);
    let b = trim_end(piece, a, piece.len());
    let mut out = String::new();
    let mut k = a;
    while k < b
        invariant
            a <= k <= b <= piece@.len(),
            out@ == piece@.subrange(a as int, k as int),
        decreases b - k,
    {
        string_push(&mut out, piece[k]);
        k = k + 1;
        assert(out@ =~= piece@.subrange(a as int, k as int));
    }
    out
}

/// Splits `m[lo..hi]` on commas and trims each piece.
fn split_and_trim(m: &Vec<char>, lo: usize, hi: usize) -> (res: Vec<String>)
    requires
        lo <= hi <= m@.len(),
    ensures
        res@.len() == split_on(m@.subrange(lo as int, hi as int), ',').len(),
        forall|j: int|
            0 <= j < res@.len() ==> #[trigger] res@[j]@ == trim_spec(
                split_on(m@.subrange(lo as int, hi as int), ',')[j],
            ),
{
    let pieces = split_pieces(m, lo, hi, ',');
    let mut items: Vec<String> = Vec::new();
    let mut k: usize = 0;
    while k < pieces.len()
        invariant
            k <= pieces@.len(),
            pieces@.len() == split_on(m@.subrange(lo as int, hi as int), ',').len(),
            forall|j: int|
                0 <= j < pieces@.len() ==> #[trigger] pieces@[j]@ == split_on(
                    m@.subrange(lo as int, hi as int),
                    ',',
                )[j],
            items@.len() == k,
            forall|j: int|
                0 <= j < k ==> #[trigger] items@[j]@ == trim_spec(
                    split_on(m@.subrange(lo as int, hi as int), ',')[j],
                ),
        decreases pieces@.len() - k,
    {
        let t = trimmed_string(&pieces[k]);
        items.push(t);
        k = k + 1;
    }
    items
}

/// The CPU core loads of a host message as text (see `cpu_items_spec`).
pub fn cpu_array_items(msg: &str) -> (res: Vec<String>)
    ensures
        res@.len() == cpu_items_spec(msg@).len(),
        forall|j: int| 0 <= j < res@.len() ==> #[trigger] res@[j]@ == cpu_items_spec(msg@)[j],
{
    let m = collect_chars(msg);
    let n = m.len();
    let mut pat: Vec<char> = Vec::new();
    pat.push('"');
    pat.push('c');
    pat.push('p');
    pat.push('u');
    pat.push('"');
    proof {
        reveal_strlit("\"cpu\"");
    }
    assert(pat@ =~= "\"cpu\""@);
    let start = match find_pattern(&m, &pat) {
        None => return Vec::new(),
        Some(s) => s,
    };
    let b = match find_char(&m, '[', start) {
        None => return Vec::new(),
        Some(b) => b,
    };
    assert(b < n);
    let e = match find_char(&m, ']', b + 1) {
        Some(e) => e,
        None => n,
    };
    split_and_trim(&m, b + 1, e)
}

/// The fields of a host monitor message: CPU temperature, RAM load, SSD
/// temperature and download rate as text, and the core loads.
pub struct HostFields<'a> {
    pub cpu_temp: Option<&'a str>,
    pub ram: Option<&'a str>,
    pub ssd_temp: Option<&'a str>,
    pub net_down: Option<&'a str>,
    pub cpu: Vec<String>,
}

/// Reads the fields of a host monitor message.
pub fn host_fields<'a>(msg: &'a str) -> (res: HostFields<'a>)
    ensures
        opt_text(res.cpu_temp) == json_value_spec(msg@, "cpu_temp"@),
        opt_text(res.ram) == json_value_spec(msg@, "ram"@),
        opt_text(res.ssd_temp) == json_value_spec(msg@, "ssd_temp"@),
        opt_text(res.net_down) == json_value_spec(msg@, "net_down"@),
        res.cpu@.len() == cpu_items_spec(msg@).len(),
        forall|j: int| 0 <= j < res.cpu@.len() ==> #[trigger] res.cpu@[j]@ == cpu_items_spec(msg@)[j],
{
    HostFields {
        cpu_temp: json_extract(msg, "cpu_temp"),
        ram: json_extract(msg, "ram"),
        ssd_temp: json_extract(msg, "ssd_temp"),
        net_down: json_extract(msg, "net_down"),
        cpu: cpu_array_items(msg),
    }
}

/// The fields of a sensor message: `temperature` and `humidity` of a
/// climate sensor, or `Temp` and `id` of a temperature probe.
#[derive(Debug, Clone, Copy)]
pub struct SensorFields<'a> {
    pub temperature: Option<&'a str>,
    pub humidity: Option<&'a str>,
    pub probe_temp: Option<&'a str>,
    pub probe_id: Option<&'a str>,
}

/// Reads the fields of a sensor message.
pub fn sensor_fields<'a>(msg: &'a str) -> (res: SensorFields<'a>)
    ensures
        opt_text(res.temperature) == json_value_spec(msg@, "temperature"@),
        opt_text(res.humidity) == json_value_spec(msg@, "humidity"@),
        opt_text(res.probe_temp) == json_value_spec(msg@, "Temp"@),
        opt_text(res.probe_id) == json_value_spec(msg@, "id"@),
{
    SensorFields {
        temperature: json_extract(msg, "temperature"),
        humidity: json_extract(msg, "humidity"),
        probe_temp: json_extract(msg, "Temp"),
        probe_id: json_extract(msg, "id"),
    }
}

/// The label of a probe: its id up to the first `_`.
pub open spec fn sensor_label_spec(id: Seq<char>) -> Seq<char> {
    match first_char_from(id, '_', 0) {
        Some(k) => id.take(k),
        None => id,
    }
}

/// The label shown for a probe (see `sensor_label_spec`).
pub fn sensor_label(id: &str) -> (res: &str)
    ensures
        res@ == sensor_label_spec(id@),
{
    let cs = collect_chars(id);
    match find_char(&cs, '_', 0) {
        Some(k) => {
            let r = id.substring_char(0, k);
            assert(r@ =~= id@.take(k as int));
            r
        },
        None => id,
    }
}

} // verus!
