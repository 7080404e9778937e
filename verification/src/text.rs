//! UTF-8 checking of received bytes and small text helpers shared by the
//! MQTT, display and credential code.

use vstd::prelude::*;
use vstd::string::StringSliceAdditionalSpecFns;
use vstd::utf8::*;

verus! {

/// The length of the longest prefix of `s` that is valid UTF-8.
pub open spec fn valid_prefix_len(s: Seq<u8>) -> int {
    longest_valid_within(s, s.len() as int)
}

/// The largest `j <= k` such that the first `j` bytes of `s` are valid UTF-8.
pub open spec fn longest_valid_within(s: Seq<u8>, k: int) -> int
    decreases k,
{
    if k <= 0 {
        0
    } else if valid_utf8(s.take(k)) {
        k
    } else {
        longest_valid_within(s, k - 1)
    }
}

/// Named result of `core::str::Utf8Error::error_len` for a failed check of
/// `bytes`: the length of the invalid sequence met, or `None` when the
/// input ended in the middle of a character.
pub uninterp spec fn utf8_error_len(bytes: Seq<u8>) -> Option<usize>;

/// Calls `core::str::from_utf8`. Trusted: `Ok` exactly when the bytes are
/// valid UTF-8, and then the string holds those bytes; on `Err` the pair
/// is `valid_up_to()` (documented as the largest index whose prefix is
/// valid) and `error_len()` (named; documented to be `None` only when the
/// input ends 1 to 3 bytes after that index, and otherwise the length of
/// an invalid sequence starting there).
#[verifier::external_body]
pub(crate) fn str_from_utf8(bytes: &[u8]) -> (res: Result<&str, (usize, Option<usize>)>)
    ensures
        res is Ok <==> valid_utf8(bytes@),
        res matches Ok(s) ==> s.spec_bytes() == bytes@,
        res matches Err((v, e)) ==> {
            &&& v as int == valid_prefix_len(bytes@)
            &&& e == utf8_error_len(bytes@)
            &&& e matches Some(n) ==> 1 <= n && v + n <= bytes@.len()
            &&& e is None ==> 1 <= bytes@.len() - v <= 3
        },
{
    match core::str::from_utf8(bytes) {
        Ok(s) => Ok(s),
        Err(e) => Err((e.valid_up_to(), e.error_len())),
    }
}

pub proof fn lemma_longest_valid_within(s: Seq<u8>, k: int)
    requires
        k <= s.len(),
    ensures
        0 <= longest_valid_within(s, k) <= (if k < 0 { 0 } else { k }),
        valid_utf8(s.take(longest_valid_within(s, k))),
    decreases k,
{
    if k <= 0 {
        assert(s.take(0) =~= Seq::<u8>::empty());
    } else if !valid_utf8(s.take(k)) {
        lemma_longest_valid_within(s, k - 1);
    }
}


/// The characters of `s`, in order.
pub fn collect_chars(s: &str) -> (res: Vec<char>)
    ensures
        res@ == s@,
{
    let mut it = s.chars();
    let mut out: Vec<char> = Vec::new();
    loop
        invariant
            vstd::std_specs::iter::IteratorSpec::remaining(&it) == s@.skip(out@.len() as int),
            out@ == s@.take(out@.len() as int),
            out@.len() <= s@.len(),
        ensures
            out@ == s@,
        decreases s@.len() - out@.len(),
    {
        match it.next() {
            Some(c) => {
                out.push(c);
                assert(out@ =~= s@.take(out@.len() as int));
            },
            None => {
                assert(out@ =~= s@);
                break;
            },
        }
    }
    out
}

/// `char::is_whitespace`: the characters with the Unicode `White_Space`
/// property.
pub open spec fn is_ws(c: char) -> bool {
    let u = c as u32;
    (0x09 <= u <= 0x0D) || u == 0x20 || u == 0x85 || u == 0xA0 || u == 0x1680 || (0x2000 <= u
        <= 0x200A) || u == 0x2028 || u == 0x2029 || u == 0x202F || u == 0x205F || u == 0x3000
}

/// Whether `c` is whitespace in the sense of `char::is_whitespace`.
pub fn is_whitespace(c: char) -> (res: bool)
    ensures
        res == is_ws(c),
{
    let u = c as u32;
    (0x09 <= u && u <= 0x0D) || u == 0x20 || u == 0x85 || u == 0xA0 || u == 0x1680 || (0x2000
        <= u && u <= 0x200A) || u == 0x2028 || u == 0x2029 || u == 0x202F || u == 0x205F || u
        == 0x3000
}


/// Calls `String::push`. Trusted: appends one character.
#[verifier::external_body]
pub(crate) fn string_push(s: &mut String, c: char)
    ensures
        final(s)@ == old(s)@.push(c),
{
    s.push(c);
}

/// Appends the characters of `t` to `s`.
pub fn push_chars(s: &mut String, t: &str)
    ensures
        final(s)@ == old(s)@ + t@,
{
    let cs = collect_chars(t);
    let ghost start = s@;
    let mut i: usize = 0;
    while i < cs.len()
        invariant
            i <= cs@.len(),
            cs@ == t@,
            s@ == start + cs@.take(i as int),
        decreases cs@.len() - i,
    {
        string_push(s, cs[i]);
        i = i + 1;
        assert(s@ =~= start + cs@.take(i as int));
    }
    assert(cs@.take(cs@.len() as int) =~= t@);
}

/// The decimal digit character for `d < 10`.
pub open spec fn digit_spec(d: int) -> char {
    if d == 0 {
        '0'
    } else if d == 1 {
        '1'
    } else if d == 2 {
        '2'
    } else if d == 3 {
        '3'
    } else if d == 4 {
        '4'
    } else if d == 5 {
        '5'
    } else if d == 6 {
        '6'
    } else if d == 7 {
        '7'
    } else if d == 8 {
        '8'
    } else {
        '9'
    }
}

/// The decimal representation of `n`, without leading zeros.
pub open spec fn decimal(n: nat) -> Seq<char>
    decreases n,
{
    if n < 10 {
        seq![digit_spec(n as int)]
    } else {
        decimal(n / 10).push(digit_spec((n % 10) as int))
    }
}

/// The decimal representation of `n`, left-padded with zeros to `width`
/// characters (as `{:0width$}` formats it).
pub open spec fn decimal_padded(n: nat, width: nat) -> Seq<char> {
    let d = decimal(n);
    if d.len() >= width {
        d
    } else {
        Seq::new((width - d.len()) as nat, |i: int| '0') + d
    }
}

fn digit_char(d: u64) -> (res: char)
    requires
        d < 10,
    ensures
        res == digit_spec(d as int),
{
    if d == 0 {
        '0'
    } else if d == 1 {
        '1'
    } else if d == 2 {
        '2'
    } else if d == 3 {
        '3'
    } else if d == 4 {
        '4'
    } else if d == 5 {
        '5'
    } else if d == 6 {
        '6'
    } else if d == 7 {
        '7'
    } else if d == 8 {
        '8'
    } else {
        '9'
    }
}

/// Appends the decimal digits of `n` to `s`.
pub fn push_decimal(s: &mut String, n: u64)
    ensures
        final(s)@ == old(s)@ + decimal(n as nat),
    decreases n,
{
    if n < 10 {
        string_push(s, digit_char(n));
    } else {
        push_decimal(s, n / 10);
        string_push(s, digit_char(n % 10));
    }
}

proof fn lemma_decimal_len(n: nat)
    ensures
        decimal(n).len() >= 1,
        n < 10 ==> decimal(n).len() == 1,
        n >= 10 ==> decimal(n).len() >= 2,
        n >= 100 ==> decimal(n).len() >= 3,
        n >= 1000 ==> decimal(n).len() >= 4,
        n < 100 ==> decimal(n).len() <= 2,
        n < 1000 ==> decimal(n).len() <= 3,
        n < 10000 ==> decimal(n).len() <= 4,
    decreases n,
{
    if n >= 10 {
        lemma_decimal_len(n / 10);
    }
}

/// Appends `n` in decimal, zero-padded to `width` digits.
pub fn push_decimal_padded(s: &mut String, n: u64, width: u64)
    requires
        width <= 4,
    ensures
        final(s)@ == old(s)@ + decimal_padded(n as nat, width as nat),
{
    proof {
        lemma_decimal_len(n as nat);
    }
    let digits: u64 = if n < 10 {
        1
    } else if n < 100 {
        2
    } else if n < 1000 {
        3
    } else {
        4
    };
    let ghost start = s@;
    let ghost d = decimal(n as nat);
    assert(n < 10000 ==> digits == d.len());
    let mut k: u64 = digits;
    while k < width
        invariant
            digits <= k <= (if width > digits { width } else { digits }),
            width <= 4,
            s@ == start + Seq::new((k - digits) as nat, |i: int| '0'),
        decreases width - k,
    {
        string_push(s, '0');
        k = k + 1;
        assert(s@ =~= start + Seq::new((k - digits) as nat, |i: int| '0'));
    }
    let ghost zeros = s@;
    push_decimal(s, n);
    proof {
        if d.len() >= width {
            assert(zeros =~= start);
        } else {
            assert(k == width);
            assert(digits == d.len());
        }
    }
}

/// The pieces of `s` between occurrences of `sep`, as `str::split` gives
/// them (an empty text gives one empty piece).
pub open spec fn split_on(s: Seq<char>, sep: char) -> Seq<Seq<char>>
    decreases s.len(),
{
    if s.len() == 0 {
        seq![Seq::empty()]
    } else {
        let p = split_on(s.drop_last(), sep);
        if s.last() == sep {
            p.push(Seq::empty())
        } else {
            p.update(p.len() - 1, p.last().push(s.last()))
        }
    }
}

proof fn lemma_split_on_nonempty(s: Seq<char>, sep: char)
    ensures
        split_on(s, sep).len() >= 1,
    decreases s.len(),
{
    if s.len() > 0 {
        lemma_split_on_nonempty(s.drop_last(), sep);
    }
}

/// The pieces of `m[lo..hi]` between occurrences of `sep`.
pub fn split_pieces(m: &Vec<char>, lo: usize, hi: usize, sep: char) -> (res: Vec<Vec<char>>)
    requires
        lo <= hi <= m@.len(),
    ensures
        res@.len() == split_on(m@.subrange(lo as int, hi as int), sep).len(),
        forall|j: int|
            0 <= j < res@.len() ==> #[trigger] res@[j]@ == split_on(m@.subrange(lo as int, hi as int), sep)[j],
{
    let mut pieces: Vec<Vec<char>> = Vec::new();
    let mut cur: Vec<char> = Vec::new();
    let mut k = lo;
    assert(m@.subrange(lo as int, lo as int) =~= Seq::<char>::empty());
    while k < hi
        invariant
            lo <= k <= hi <= m@.len(),
            split_on(m@.subrange(lo as int, k as int), sep) == pieces@.map_values(|v: Vec<char>| v@).push(cur@),
        decreases hi - k,
    {
        let c = m[k];
        proof {
            assert(m@.subrange(lo as int, k + 1).drop_last() =~= m@.subrange(lo as int, k as int));
            lemma_split_on_nonempty(m@.subrange(lo as int, k as int), sep);
        }
        if c == sep {
            let done = cur;
            pieces.push(done);
            cur = Vec::new();
            assert(split_on(m@.subrange(lo as int, k + 1), sep) =~= pieces@.map_values(|v: Vec<char>| v@).push(cur@));
        } else {
            cur.push(c);
            assert(split_on(m@.subrange(lo as int, k + 1), sep) =~= pieces@.map_values(|v: Vec<char>| v@).push(cur@));
        }
        k = k + 1;
    }
    let last = cur;
    pieces.push(last);
    proof {
        let views = pieces@.map_values(|v: Vec<char>| v@);
        assert(split_on(m@.subrange(lo as int, hi as int), sep) =~= views);
        assert forall|j: int| 0 <= j < pieces@.len() implies #[trigger] pieces@[j]@ == split_on(m@.subrange(lo as int, hi as int), sep)[j] by {
            assert(views[j] == pieces@[j]@);
        }
    }
    pieces
}

/// The length of the UTF-8 encoding of a character.
pub open spec fn utf8_width(c: char) -> int {
    let u = c as u32;
    if u < 0x80 {
        1
    } else if u < 0x800 {
        2
    } else if u < 0x10000 {
        3
    } else {
        4
    }
}

/// Appending a character appends its encoding, which is `utf8_width`
/// bytes long.
pub proof fn lemma_encode_push(s: Seq<char>, c: char)
    ensures
        encode_utf8(s.push(c)) == encode_utf8(s) + encode_utf8(seq![c]),
        encode_utf8(seq![c]).len() == utf8_width(c),
    decreases s.len(),
{
    char_is_scalar(c);
    assert(seq![c].drop_first() =~= Seq::<char>::empty());
    assert(encode_utf8(Seq::<char>::empty()) =~= Seq::<u8>::empty());
    assert(encode_utf8(seq![c]) =~= encode_scalar(c as u32));
    assert(encode_scalar(c as u32).len() == utf8_width(c));
    if s.len() == 0 {
        assert(s.push(c) =~= seq![c]);
    } else {
        lemma_encode_push(s.drop_first(), c);
        assert(s.push(c).drop_first() =~= s.drop_first().push(c));
        assert(s.push(c)[0] == s[0]);
    }
}

/// Ten to the power `k`.
pub open spec fn pow10(k: nat) -> nat
    decreases k,
{
    if k == 0 {
        1
    } else {
        10 * pow10((k - 1) as nat)
    }
}

/// Decimal digits are ASCII, and a number below `10^k` has at most `k`
/// of them.
pub proof fn lemma_decimal_ascii(n: nat, k: nat)
    requires
        k >= 1,
        n < pow10(k),
    ensures
        is_ascii_chars(decimal(n)),
        decimal(n).len() <= k,
    decreases n,
{
    if n >= 10 {
        assert(k >= 2) by {
            if k == 1 {
                assert(pow10(1) == 10) by {
                    reveal_with_fuel(pow10, 2);
                }
            }
        }
        assert(n / 10 < pow10((k - 1) as nat));
        lemma_decimal_ascii(n / 10, (k - 1) as nat);
        let d = decimal(n / 10);
        assert forall|i: int| 0 <= i < decimal(n).len() implies '\0' <= #[trigger] decimal(n)[i] <= '\u{7f}' by {
            if i < d.len() {
                assert(decimal(n)[i] == d[i]);
            }
        }
    }
}

/// Zero-padded decimal digits are ASCII, `width` long when the number has
/// fewer digits.
pub proof fn lemma_decimal_padded_ascii(n: nat, width: nat, k: nat)
    requires
        k >= 1,
        n < pow10(k),
    ensures
        is_ascii_chars(decimal_padded(n, width)),
        decimal_padded(n, width).len() <= if width > k {
            width
        } else {
            k
        },
{
    lemma_decimal_ascii(n, k);
    let d = decimal(n);
    if d.len() < width {
        let z = Seq::new((width - d.len()) as nat, |i: int| '0');
        assert forall|i: int| 0 <= i < decimal_padded(n, width).len() implies '\0' <= #[trigger] decimal_padded(n, width)[i] <= '\u{7f}' by {
            if i >= z.len() {
                assert(decimal_padded(n, width)[i] == d[i - z.len()]);
            }
        }
    }
}

/// A character up to `'\u{7f}'` is one ASCII byte.
pub proof fn lemma_ascii_char(c: char)
    requires
        c <= '\u{7f}',
    ensures
        (c as u32) < 0x80,
        is_ascii_chars(seq![c]),
{
    assert('\0' <= c);
    assert(seq![c][0] == c);
}

} // verus!
