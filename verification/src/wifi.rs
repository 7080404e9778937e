//! WiFi credentials: the networks to try, and the masked form in which
//! credentials appear in logs.

use vstd::prelude::*;
use vstd::string::StringSliceAdditionalSpecFns;
use vstd::utf8::{encode_utf8, is_ascii_chars, is_ascii_chars_encode_utf8};

use crate::bounded::{networks, networks_push, networks_new, str128_as_str, str128_new, str128_push, text128};
use crate::text::{collect_chars, lemma_ascii_char, lemma_encode_push, utf8_width};

verus! {

/// One network to try: SSID and password.
#[derive(Clone, Copy)]
pub struct WifiCredential {
    pub ssid: &'static str,
    pub password: &'static str,
}

/// Most networks tried per round.
pub const MAX_CREDENTIALS: usize = 3;

/// The configured networks worth trying: those with a non-empty SSID, in
/// order, at most `MAX_CREDENTIALS`.
pub open spec fn usable_credentials(c: Seq<WifiCredential>) -> Seq<WifiCredential>
    decreases c.len(),
{
    if c.len() == 0 {
        Seq::empty()
    } else {
        let acc = usable_credentials(c.drop_last());
        if c.last().ssid@.len() != 0 && acc.len() < MAX_CREDENTIALS {
            acc.push(c.last())
        } else {
            acc
        }
    }
}

/// The slots that name a network (a non-empty SSID), in slot order.
pub open spec fn named_slots(c: Seq<WifiCredential>) -> Seq<WifiCredential> {
    c.filter(|w: WifiCredential| w.ssid@.len() != 0)
}

/// With at most three slots, the networks worth trying are exactly the
/// slots that name a network, in slot order: none is dropped for want of
/// room, and there are at most three of them.
pub proof fn law_usable_credentials_are_named_slots(slots: Seq<WifiCredential>)
    requires
        slots.len() <= MAX_CREDENTIALS,
    ensures
        usable_credentials(slots) == named_slots(slots),
        named_slots(slots).len() <= slots.len(),
    decreases slots.len(),
{
    reveal(Seq::filter);
    if slots.len() > 0 {
        law_usable_credentials_are_named_slots(slots.drop_last());
    }
}

/// The networks to try from the three configured slots (see
/// `usable_credentials`): every slot with a non-empty SSID, in slot
/// order.
pub fn get_wifi_credentials(slots: [WifiCredential; 3]) -> (res: heapless::Vec<WifiCredential, 3>)
    ensures
        networks(res) == usable_credentials(slots@),
        networks(res) == named_slots(slots@),
        networks(res).len() <= MAX_CREDENTIALS,
{
    proof {
        law_usable_credentials_are_named_slots(slots@);
    }
    let mut creds = networks_new();
    let mut i: usize = 0;
    while i < 3
        invariant
            i <= 3,
            networks(creds) == usable_credentials(slots@.take(i as int)),
        decreases 3 - i,
    {
        let c = slots[i];
        proof {
            assert(slots@.take(i + 1).drop_last() =~= slots@.take(i as int));
        }
        if !c.ssid.is_empty() {
            let _ = networks_push(&mut creds, c);
        }
        i = i + 1;
    }
    assert(slots@.take(3) =~= slots@);
    creds
}

/// Byte capacity of a masked credential.
pub const MASK_CAP: usize = 128;

/// What the `i`-th character of a credential of `len` bytes contributes:
/// short credentials (up to 5 bytes) keep the first character and star
/// the rest; longer ones keep the first three and last two positions, put
/// one star for the fourth, and drop the others.
pub open spec fn mask_piece(cs: Seq<char>, len: int, i: int) -> Option<char> {
    if len <= 5 {
        if i == 0 {
            Some(cs[i])
        } else {
            Some('*')
        }
    } else if i < 3 || i >= len - 2 {
        Some(cs[i])
    } else if i == 3 {
        Some('*')
    } else {
        None
    }
}

/// The masked text of the first `n` characters and its length in bytes;
/// each piece is appended only while it fits in `MASK_CAP` bytes.
pub open spec fn mask_prefix(cs: Seq<char>, len: int, n: int) -> (Seq<char>, int)
    decreases n,
{
    if n <= 0 {
        (Seq::empty(), 0)
    } else {
        let acc = mask_prefix(cs, len, n - 1);
        match mask_piece(cs, len, n - 1) {
            Some(p) => if acc.1 + utf8_width(p) <= MASK_CAP {
                (acc.0.push(p), acc.1 + utf8_width(p))
            } else {
                acc
            },
            None => acc,
        }
    }
}

/// The masked form of a credential: the masked characters, then, for a
/// credential longer than 5 bytes, stars until the result is as long in
/// bytes as the credential.
pub open spec fn mask_spec(s: &str) -> Seq<char> {
    let cs = s@;
    let len = s.spec_bytes().len() as int;
    let (out, nb) = mask_prefix(cs, len, cs.len() as int);
    if len <= 5 || nb >= len {
        out
    } else {
        out + Seq::new((len - nb) as nat, |i: int| '*')
    }
}

proof fn lemma_mask_prefix_bytes(cs: Seq<char>, len: int, n: int)
    ensures
        0 <= mask_prefix(cs, len, n).1 <= MASK_CAP,
    decreases n,
{
    if n > 0 {
        lemma_mask_prefix_bytes(cs, len, n - 1);
    }
}

/// Masks a credential for logging (see `mask_spec`).
pub fn mask_credential(s: &str) -> (res: heapless::String<128>)
    requires
        s.spec_bytes().len() <= MASK_CAP,
    ensures
        text128(res) == mask_spec(s),
{
    let len = s.as_bytes().len();
    let cs = collect_chars(s);
    let mut out = str128_new();
    let mut i: usize = 0;
    proof {
        lemma_mask_prefix_bytes(cs@, len as int, 0);
    }
    while i < cs.len()
        invariant
            i <= cs@.len(),
            cs@ == s@,
            len == s.spec_bytes().len(),
            (text128(out), encode_utf8(text128(out)).len() as int) == mask_prefix(cs@, len as int, i as int),
        decreases cs@.len() - i,
    {
        let c = cs[i];
        let piece: Option<char> = if len <= 5 {
            if i == 0 {
                Some(c)
            } else {
                Some('*')
            }
        } else if i < 3 || i >= len - 2 {
            Some(c)
        } else if i == 3 {
            Some('*')
        } else {
            None
        };
        if let Some(p) = piece {
            proof {
                lemma_encode_push(text128(out), p);
            }
            let _ = str128_push(&mut out, p);
        }
        i = i + 1;
    }
    if len > 5 {
        let ghost before = text128(out);
        let ghost nb0 = encode_utf8(text128(out)).len();
        proof {
            lemma_mask_prefix_bytes(cs@, len as int, cs@.len() as int);
        }
        assert(text128(out) =~= before + Seq::new(0, |k: int| '*'));
        while str128_as_str(&out).len() < len
            invariant
                len <= MASK_CAP,
                nb0 <= encode_utf8(text128(out)).len(),
                nb0 < len ==> encode_utf8(text128(out)).len() <= len,
                nb0 >= len ==> encode_utf8(text128(out)).len() == nb0,
                encode_utf8(text128(out)).len() <= MASK_CAP,
                text128(out) == before + Seq::new(
                    (encode_utf8(text128(out)).len() - nb0) as nat,
                    |k: int| '*',
                ),
            decreases len - encode_utf8(text128(out)).len(),
        {
            let ghost n0 = encode_utf8(text128(out)).len();
            proof {
                lemma_encode_push(text128(out), '*');
                lemma_ascii_char('*');
            }
            let _ = str128_push(&mut out, '*');
            assert(text128(out) =~= before + Seq::new((n0 + 1 - nb0) as nat, |k: int| '*'));
        }
        proof {
            if nb0 >= len {
                assert(text128(out) =~= before);
            }
        }
    }
    out
}

/// The masked text of the first `n` characters of an ASCII credential of
/// at least six characters: up to three characters, a star once the
/// fourth is reached, and the characters from the second-to-last on.
pub open spec fn ascii_mask_prefix(cs: Seq<char>, n: int) -> Seq<char> {
    let len = cs.len() as int;
    cs.take(if n < 3 {
        n
    } else {
        3
    }) + (if n >= 4 {
        seq!['*']
    } else {
        Seq::empty()
    }) + (if n > len - 2 {
        cs.subrange(len - 2, n)
    } else {
        Seq::empty()
    })
}

proof fn lemma_ascii_mask_prefix(cs: Seq<char>, n: int)
    requires
        is_ascii_chars(cs),
        6 <= cs.len() <= MASK_CAP,
        0 <= n <= cs.len(),
    ensures
        mask_prefix(cs, cs.len() as int, n) == (ascii_mask_prefix(cs, n), ascii_mask_prefix(
            cs,
            n,
        ).len() as int),
        ascii_mask_prefix(cs, n).len() <= 6,
    decreases n,
{
    let len = cs.len() as int;
    if n > 0 {
        lemma_ascii_mask_prefix(cs, n - 1);
        let k = n - 1;
        assert('\0' <= cs[k] <= '\u{7f}');
        assert(utf8_width(cs[k]) == 1);
        assert(utf8_width('*') == 1);
        if k < 3 {
            assert(ascii_mask_prefix(cs, n) =~= ascii_mask_prefix(cs, k).push(cs[k]));
        } else if k == 3 {
            assert(ascii_mask_prefix(cs, n) =~= ascii_mask_prefix(cs, k).push('*'));
        } else if k < len - 2 {
            assert(ascii_mask_prefix(cs, n) =~= ascii_mask_prefix(cs, k));
        } else {
            assert(ascii_mask_prefix(cs, n) =~= ascii_mask_prefix(cs, k).push(cs[k]));
        }
    } else {
        assert(ascii_mask_prefix(cs, 0) =~= Seq::<char>::empty());
    }
}

/// A credential of six to `MASK_CAP` ASCII characters is logged as its
/// first three characters, one star, its last two characters, and stars up
/// to its own length.
pub proof fn law_mask_long_ascii(s: &str)
    requires
        is_ascii_chars(s@),
        6 <= s@.len() <= MASK_CAP,
    ensures
        mask_spec(s) == s@.take(3) + seq!['*'] + s@.skip(s@.len() - 2) + Seq::new(
            (s@.len() - 6) as nat,
            |i: int| '*',
        ),
        mask_spec(s).len() == s@.len(),
{
    let cs = s@;
    let len = cs.len() as int;
    is_ascii_chars_encode_utf8(cs);
    assert(s.spec_bytes().len() == len);
    lemma_ascii_mask_prefix(cs, len);
    let p = ascii_mask_prefix(cs, len);
    assert(p =~= cs.take(3) + seq!['*'] + cs.skip(len - 2));
    if len == 6 {
        assert(mask_spec(s) =~= p + Seq::new(0, |i: int| '*'));
    }
}

} // verus!
