//! Text shown on the screens: the uptime, the clock and date, and labels
//! made safe for the ASCII display fonts.

use vstd::prelude::*;

use vstd::string::StringSliceAdditionalSpecFns;
use vstd::utf8::{encode_utf8, is_ascii_chars, is_ascii_chars_encode_utf8};

use crate::bounded::{str128_new, str128_push, str128_push_str, str32_new, str32_try_from, text128, text32};
use crate::state::AppState;
use crate::text::{
    collect_chars, decimal, decimal_padded, lemma_decimal_ascii, lemma_decimal_padded_ascii,
    lemma_ascii_char, lemma_encode_push, pow10, push_chars, push_decimal, push_decimal_padded,
};
use crate::time::LocalTime;

verus! {

/// `"{days}d {hours:02}h {mins:02}m"`, or `"{hours:02}h {mins:02}m"` when
/// less than a day has passed.
pub open spec fn uptime_text(total_secs: nat) -> Seq<char> {
    let days = total_secs / 86400;
    let hours = (total_secs % 86400) / 3600;
    let mins = (total_secs % 3600) / 60;
    let hm = decimal_padded(hours, 2) + "h "@ + decimal_padded(mins, 2) + "m"@;
    if days > 0 {
        decimal(days) + "d "@ + hm
    } else {
        hm
    }
}

proof fn lemma_uptime_fits(total_secs: u64)
    ensures
        is_ascii_chars(uptime_text(total_secs as nat)),
        uptime_text(total_secs as nat).len() <= 24,
{
    let t = total_secs as nat;
    let days = t / 86400;
    let hours = (t % 86400) / 3600;
    let mins = (t % 3600) / 60;
    assert(pow10(15) == 1_000_000_000_000_000) by {
        reveal_with_fuel(pow10, 16);
    }
    assert(pow10(2) == 100) by {
        reveal_with_fuel(pow10, 3);
    }
    lemma_decimal_ascii(days, 15);
    lemma_decimal_padded_ascii(hours, 2, 2);
    lemma_decimal_padded_ascii(mins, 2, 2);
    reveal_strlit("d ");
    reveal_strlit("h ");
    reveal_strlit("m");
    let hm = decimal_padded(hours, 2) + "h "@ + decimal_padded(mins, 2) + "m"@;
    assert(is_ascii_chars(hm)) by {
        assert forall|i: int| 0 <= i < hm.len() implies '\0' <= #[trigger] hm[i] <= '\u{7f}' by {
            let a = decimal_padded(hours, 2);
            let b = decimal_padded(mins, 2);
            if i < a.len() {
                assert(hm[i] == a[i]);
            } else if i < a.len() + 2 {
            } else if i < a.len() + 2 + b.len() {
                assert(hm[i] == b[i - a.len() - 2]);
            }
        }
    }
    if days > 0 {
        let full = decimal(days) + "d "@ + hm;
        assert forall|i: int| 0 <= i < full.len() implies '\0' <= #[trigger] full[i] <= '\u{7f}' by {
            let d = decimal(days);
            if i < d.len() {
                assert(full[i] == d[i]);
            } else if i >= d.len() + 2 {
                assert(full[i] == hm[i - d.len() - 2]);
            }
        }
    }
}

/// Formats a number of seconds as days, hours and minutes.
pub fn format_uptime(total_secs: u64) -> (res: heapless::String<32>)
    ensures
        text32(res) == uptime_text(total_secs as nat),
{
    let days = total_secs / 86400;
    let hours = (total_secs % 86400) / 3600;
    let mins = (total_secs % 3600) / 60;
    let mut s = String::new();
    if days > 0 {
        push_decimal(&mut s, days);
        push_chars(&mut s, "d ");
    }
    push_decimal_padded(&mut s, hours, 2);
    push_chars(&mut s, "h ");
    push_decimal_padded(&mut s, mins, 2);
    push_chars(&mut s, "m");
    proof {
        assert(s@ =~= uptime_text(total_secs as nat));
        lemma_uptime_fits(total_secs);
        is_ascii_chars_encode_utf8(s@);
    }
    match str32_try_from(s.as_str()) {
        Ok(t) => t,
        Err(_) => str32_new(),
    }
}

/// `"hh:mm:ss"` for a set clock, `"--:--:--"` otherwise.
pub open spec fn clock_text(t: Option<LocalTime>) -> Seq<char> {
    match t {
        Some(t) => decimal_padded(t.hour as nat, 2) + ":"@ + decimal_padded(t.minute as nat, 2)
            + ":"@ + decimal_padded(t.second as nat, 2),
        None => "--:--:--"@,
    }
}

/// `"dd.mm.yyyy"` for a set clock, `"--.--.----"` otherwise.
pub open spec fn date_text(t: Option<LocalTime>) -> Seq<char> {
    match t {
        Some(t) => decimal_padded(t.day as nat, 2) + "."@ + decimal_padded(t.month as nat, 2) + "."@
            + decimal_padded(t.year as nat, 4),
        None => "--.--.----"@,
    }
}

/// The clock text for a time of day.
pub fn clock_string(t: Option<LocalTime>) -> (res: String)
    ensures
        res@ == clock_text(t),
{
    match t {
        Some(t) => {
            let mut s = String::new();
            push_decimal_padded(&mut s, t.hour as u64, 2);
            push_chars(&mut s, ":");
            push_decimal_padded(&mut s, t.minute as u64, 2);
            push_chars(&mut s, ":");
            push_decimal_padded(&mut s, t.second as u64, 2);
            assert(s@ =~= clock_text(Some(t)));
            s
        },
        None => {
            let mut s = String::new();
            push_chars(&mut s, "--:--:--");
            assert(s@ =~= clock_text(None));
            s
        },
    }
}

/// The date text for a time of day.
pub fn date_string(t: Option<LocalTime>) -> (res: String)
    ensures
        res@ == date_text(t),
{
    match t {
        Some(t) => {
            let mut s = String::new();
            push_decimal_padded(&mut s, t.day as u64, 2);
            push_chars(&mut s, ".");
            push_decimal_padded(&mut s, t.month as u64, 2);
            push_chars(&mut s, ".");
            push_decimal_padded(&mut s, t.year as u64, 4);
            assert(s@ =~= date_text(Some(t)));
            s
        },
        None => {
            let mut s = String::new();
            push_chars(&mut s, "--.--.----");
            assert(s@ =~= date_text(None));
            s
        },
    }
}

proof fn lemma_clock_fits(t: Option<LocalTime>)
    ensures
        is_ascii_chars(clock_text(t)),
        clock_text(t).len() <= 32,
{
    reveal_strlit(":");
    reveal_strlit("--:--:--");
    match t {
        Some(t) => {
            assert(pow10(3) == 1000) by {
                reveal_with_fuel(pow10, 4);
            }
            lemma_decimal_padded_ascii(t.hour as nat, 2, 3);
            lemma_decimal_padded_ascii(t.minute as nat, 2, 3);
            lemma_decimal_padded_ascii(t.second as nat, 2, 3);
            let a = decimal_padded(t.hour as nat, 2);
            let b = decimal_padded(t.minute as nat, 2);
            let c = decimal_padded(t.second as nat, 2);
            let full = clock_text(Some(t));
            assert(full == a + ":"@ + b + ":"@ + c);
            assert forall|i: int| 0 <= i < full.len() implies '\0' <= #[trigger] full[i] <= '\u{7f}' by {
                if i < a.len() {
                    assert(full[i] == a[i]);
                } else if i == a.len() {
                } else if i < a.len() + 1 + b.len() {
                    assert(full[i] == b[i - a.len() - 1]);
                } else if i == a.len() + 1 + b.len() {
                } else {
                    assert(full[i] == c[i - a.len() - 2 - b.len()]);
                }
            }
        },
        None => {},
    }
}

/// The status-bar clock of the current state.
pub fn format_time(state: &AppState) -> (res: heapless::String<32>)
    ensures
        text32(res) == clock_text(state@.local_time),
{
    let data = state.read();
    let s = clock_string(data.local_time);
    proof {
        lemma_clock_fits(data.local_time);
        is_ascii_chars_encode_utf8(s@);
    }
    match str32_try_from(s.as_str()) {
        Ok(t) => t,
        Err(_) => str32_new(),
    }
}

/// Byte capacity of sanitised text.
pub const SANITIZED_CAP: usize = 128;

/// What a character becomes on the ASCII display: German umlauts and ß
/// are spelled out, the degree sign and other non-ASCII characters are
/// dropped, ASCII stays.
pub open spec fn replacement(c: char) -> Seq<char> {
    if c == '\u{00E4}' {
        "ae"@
    } else if c == '\u{00F6}' {
        "oe"@
    } else if c == '\u{00FC}' {
        "ue"@
    } else if c == '\u{00C4}' {
        "Ae"@
    } else if c == '\u{00D6}' {
        "Oe"@
    } else if c == '\u{00DC}' {
        "Ue"@
    } else if c == '\u{00DF}' {
        "ss"@
    } else if c <= '\u{7f}' {
        seq![c]
    } else {
        Seq::empty()
    }
}

/// The sanitised text of `cs`: the replacements in order, each appended
/// only if it still fits in `SANITIZED_CAP` bytes (all of it is ASCII).
pub open spec fn sanitize_spec(cs: Seq<char>) -> Seq<char>
    decreases cs.len(),
{
    if cs.len() == 0 {
        Seq::empty()
    } else {
        let acc = sanitize_spec(cs.drop_last());
        let piece = replacement(cs.last());
        if acc.len() + piece.len() <= SANITIZED_CAP {
            acc + piece
        } else {
            acc
        }
    }
}

fn replacement_str(c: char) -> (res: Option<&'static str>)
    ensures
        match res {
            Some(r) => r@ == replacement(c) && is_ascii_chars(r@),
            None => replacement(c) == seq![c] && c <= '\u{7f}',
        },
{
    proof {
        reveal_strlit("ae");
        reveal_strlit("oe");
        reveal_strlit("ue");
        reveal_strlit("Ae");
        reveal_strlit("Oe");
        reveal_strlit("Ue");
        reveal_strlit("ss");
    }
    if c == '\u{00E4}' {
        Some("ae")
    } else if c == '\u{00F6}' {
        Some("oe")
    } else if c == '\u{00FC}' {
        Some("ue")
    } else if c == '\u{00C4}' {
        Some("Ae")
    } else if c == '\u{00D6}' {
        Some("Oe")
    } else if c == '\u{00DC}' {
        Some("Ue")
    } else if c == '\u{00DF}' {
        Some("ss")
    } else if c <= '\u{7f}' {
        None
    } else {
        proof {
            reveal_strlit("");
        }
        Some("")
    }
}

proof fn lemma_replacement_len(c: char)
    ensures
        replacement(c).len() <= 2,
{
    reveal_strlit("ae");
    reveal_strlit("oe");
    reveal_strlit("ue");
    reveal_strlit("Ae");
    reveal_strlit("Oe");
    reveal_strlit("Ue");
    reveal_strlit("ss");
}

/// Rewrites text for the ASCII fonts (see `sanitize_spec`).
pub fn sanitize_text(input: &str) -> (res: heapless::String<128>)
    ensures
        text128(res) == sanitize_spec(input@),
{
    let cs = collect_chars(input);
    let mut out = str128_new();
    let mut i: usize = 0;
    while i < cs.len()
        invariant
            i <= cs@.len(),
            cs@ == input@,
            text128(out) == sanitize_spec(cs@.take(i as int)),
            is_ascii_chars(text128(out)),
            text128(out).len() <= SANITIZED_CAP,
        decreases cs@.len() - i,
    {
        let c = cs[i];
        proof {
            lemma_replacement_len(c);
            assert(cs@.take(i + 1).drop_last() =~= cs@.take(i as int));
            assert(cs@.take(i + 1).last() == c);
            is_ascii_chars_encode_utf8(text128(out));
        }
        let ghost before = text128(out);
        match replacement_str(c) {
            Some(r) => {
                proof {
                    is_ascii_chars_encode_utf8(r@);
                }
                let _ = str128_push_str(&mut out, r);
                proof {
                    lemma_ascii_append(before, r@);
                }
            },
            None => {
                proof {
                    lemma_ascii_char(c);
                    lemma_encode_push(before, c);
                    assert(encode_utf8(seq![c]).len() == 1);
                    assert(before.push(c) =~= before + seq![c]);
                }
                let _ = str128_push(&mut out, c);
                proof {
                    lemma_ascii_append(before, seq![c]);
                }
            },
        }
        i = i + 1;
    }
    assert(cs@.take(cs@.len() as int) =~= input@);
    out
}

proof fn lemma_ascii_append(a: Seq<char>, b: Seq<char>)
    requires
        is_ascii_chars(a),
        is_ascii_chars(b),
    ensures
        is_ascii_chars(a + b),
{
    assert forall|i: int| 0 <= i < (a + b).len() implies '\0' <= #[trigger] (a + b)[i] <= '\u{7f}' by {
        if i < a.len() {
            assert((a + b)[i] == a[i]);
        } else {
            assert((a + b)[i] == b[i - a.len()]);
        }
    }
}

} // verus!
