use vstd::prelude::*;

verus! {

/// The byte that separates a header's name from its value.
pub const COLON: u8 = 58;

/// The longest header name that is accepted.
pub const MAX_NAME_LEN: usize = 65535;

/// A token character: a letter, a digit, or one of ``! # $ % & ' * + - . ^ _ ` | ~``.
pub open spec fn is_tchar(b: u8) -> bool {
    ||| b == 33
    ||| 35 <= b <= 39
    ||| b == 42 || b == 43 || b == 45 || b == 46
    ||| 48 <= b <= 57
    ||| 65 <= b <= 90
    ||| 94 <= b <= 122
    ||| b == 124 || b == 126
}

/// A header name: a non-empty token of at most `MAX_NAME_LEN` bytes. It holds
/// no whitespace, no control byte and no colon.
pub open spec fn valid_name(s: Seq<u8>) -> bool {
    &&& 0 < s.len() <= MAX_NAME_LEN
    &&& forall|i: int| 0 <= i < s.len() ==> is_tchar(#[trigger] s[i])
}

/// A byte allowed in a header value: visible US-ASCII, space or tab.
pub open spec fn is_value_byte(b: u8) -> bool {
    b == 9 || 32 <= b <= 126
}

pub open spec fn valid_value(s: Seq<u8>) -> bool {
    forall|i: int| 0 <= i < s.len() ==> is_value_byte(#[trigger] s[i])
}

/// ASCII upper-case letters map to lower case; other bytes stay.
pub open spec fn lower_byte(b: u8) -> u8 {
    if 65 <= b <= 90 {
        (b + 32) as u8
    } else {
        b
    }
}

pub open spec fn lower(s: Seq<u8>) -> Seq<u8> {
    s.map_values(|b: u8| lower_byte(b))
}

/// The characters of a text made of ASCII bytes.
pub open spec fn ascii_chars(s: Seq<u8>) -> Seq<char> {
    s.map_values(|b: u8| b as char)
}

/// ASCII whitespace: space, tab, line feed, vertical tab, form feed, carriage return.
pub open spec fn is_ws(b: u8) -> bool {
    b == 32 || 9 <= b <= 13
}

/// Whether `a b c` encodes in UTF-8 a three-byte White_Space character:
/// U+1680, U+2000 to U+200A, U+2028, U+2029, U+202F, U+205F or U+3000.
pub open spec fn is_ws3(a: u8, b: u8, c: u8) -> bool {
    ||| a == 0xE1 && b == 0x9A && c == 0x80
    ||| a == 0xE2 && b == 0x80 && (0x80 <= c <= 0x8A || c == 0xA8 || c == 0xA9 || c == 0xAF)
    ||| a == 0xE2 && b == 0x81 && c == 0x9F
    ||| a == 0xE3 && b == 0x80 && c == 0x80
}

/// Whether `a b` encodes in UTF-8 a two-byte White_Space character: U+0085 or U+00A0.
pub open spec fn is_ws2(a: u8, b: u8) -> bool {
    a == 0xC2 && (b == 0x85 || b == 0xA0)
}

/// The length of the UTF-8 encoded White_Space character that `s` starts with, or 0.
pub open spec fn lead_ws_len(s: Seq<u8>) -> int {
    if s.len() >= 1 && is_ws(s[0]) {
        1
    } else if s.len() >= 2 && is_ws2(s[0], s[1]) {
        2
    } else if s.len() >= 3 && is_ws3(s[0], s[1], s[2]) {
        3
    } else {
        0
    }
}

/// The length of the UTF-8 encoded White_Space character that `s` ends with, or 0.
pub open spec fn trail_ws_len(s: Seq<u8>) -> int {
    let n = s.len() as int;
    if n >= 1 && is_ws(s[n - 1]) {
        1
    } else if n >= 2 && is_ws2(s[n - 2], s[n - 1]) {
        2
    } else if n >= 3 && is_ws3(s[n - 3], s[n - 2], s[n - 1]) {
        3
    } else {
        0
    }
}

pub open spec fn trim_start(s: Seq<u8>) -> Seq<u8>
    decreases s.len(),
{
    if lead_ws_len(s) > 0 {
        trim_start(s.skip(lead_ws_len(s)))
    } else {
        s
    }
}

pub open spec fn trim_end(s: Seq<u8>) -> Seq<u8>
    decreases s.len(),
{
    if trail_ws_len(s) > 0 {
        trim_end(s.take(s.len() - trail_ws_len(s)))
    } else {
        s
    }
}

/// The UTF-8 text `s` without its leading and trailing Unicode White_Space
/// characters, as `str::trim` leaves it.
pub open spec fn trim(s: Seq<u8>) -> Seq<u8> {
    trim_end(trim_start(s))
}

/// A header line split at its first colon: the name in lower case and the
/// trimmed value, or `None` where the line has no colon or a part is invalid.
pub open spec fn parse_line(s: Seq<u8>) -> Option<(Seq<u8>, Seq<u8>)> {
    match s.index_of_first(COLON) {
        None => None,
        Some(k) => {
            let name = s.take(k);
            let value = trim(s.skip(k + 1));
            if valid_name(name) && valid_value(value) {
                Some((lower(name), value))
            } else {
                None
            }
        },
    }
}

/// Where `s` holds the first colon, or `None`.
pub fn find_colon(s: &[u8]) -> (r: Option<usize>)
    ensures
        match r {
            Some(k) => k < s@.len() && s@.index_of_first(COLON) == Some(k as int),
            None => s@.index_of_first(COLON) is None,
        },
{
    proof {
        s@.index_of_first_ensures(COLON);
    }
    let mut i: usize = 0;
    while i < s.len()
        invariant
            i <= s@.len(),
            forall|j: int| 0 <= j < i ==> s@[j] != COLON,
        decreases s@.len() - i,
    {
        if s[i] == COLON {
            proof {
                s@.index_of_first_ensures(COLON);
                assert(s@.contains(COLON));
                let k = s@.index_of_first(COLON)->Some_0;
                assert(s@[i as int] == COLON);
                assert(!(k < i) && !(i < k));
            }
            return Some(i);
        }
        i = i + 1;
    }
    assert(!s@.contains(COLON));
    None
}

/// The length of the White_Space character that `s[a..hi]` starts with, or 0.
fn lead_ws_at(s: &[u8], a: usize, hi: usize) -> (r: usize)
    requires
        a <= hi <= s@.len(),
    ensures
        r as int == lead_ws_len(s@.subrange(a as int, hi as int)),
{
    let n = hi - a;
    if n >= 1 && (s[a] == 32 || (9 <= s[a] && s[a] <= 13)) {
        1
    } else if n >= 2 && s[a] == 0xC2 && (s[a + 1] == 0x85 || s[a + 1] == 0xA0) {
        2
    } else if n >= 3 && ws3(s[a], s[a + 1], s[a + 2]) {
        3
    } else {
        0
    }
}

/// The length of the White_Space character that `s[lo..b]` ends with, or 0.
fn trail_ws_at(s: &[u8], lo: usize, b: usize) -> (r: usize)
    requires
        lo <= b <= s@.len(),
    ensures
        r as int == trail_ws_len(s@.subrange(lo as int, b as int)),
{
    let n = b - lo;
    if n >= 1 && (s[b - 1] == 32 || (9 <= s[b - 1] && s[b - 1] <= 13)) {
        1
    } else if n >= 2 && s[b - 2] == 0xC2 && (s[b - 1] == 0x85 || s[b - 1] == 0xA0) {
        2
    } else if n >= 3 && ws3(s[b - 3], s[b - 2], s[b - 1]) {
        3
    } else {
        0
    }
}

fn ws3(a: u8, b: u8, c: u8) -> (r: bool)
    ensures
        r == is_ws3(a, b, c),
{
    (a == 0xE1 && b == 0x9A && c == 0x80) || (a == 0xE2 && b == 0x80 && ((0x80 <= c && c
        <= 0x8A) || c == 0xA8 || c == 0xA9 || c == 0xAF)) || (a == 0xE2 && b == 0x81 && c
        == 0x9F) || (a == 0xE3 && b == 0x80 && c == 0x80)
}

/// The bounds `(a, b)` of `s[lo..hi]` without its leading and trailing White_Space.
pub fn trim_bounds(s: &[u8], lo: usize, hi: usize) -> (r: (usize, usize))
    requires
        lo <= hi <= s@.len(),
    ensures
        lo <= r.0 <= r.1 <= hi,
        s@.subrange(r.0 as int, r.1 as int) == trim(s@.subrange(lo as int, hi as int)),
{
    let mut a: usize = lo;
    let mut n: usize = lead_ws_at(s, a, hi);
    while n > 0
        invariant
            lo <= a <= hi <= s@.len(),
            n as int == lead_ws_len(s@.subrange(a as int, hi as int)),
            trim_start(s@.subrange(lo as int, hi as int)) == trim_start(
                s@.subrange(a as int, hi as int),
            ),
        decreases hi - a,
    {
        proof {
            assert(s@.subrange(a as int, hi as int).skip(n as int) =~= s@.subrange(
                a + n,
                hi as int,
            ));
        }
        a = a + n;
        n = lead_ws_at(s, a, hi);
    }
    let mut b: usize = hi;
    let mut m: usize = trail_ws_at(s, a, b);
    while m > 0
        invariant
            lo <= a <= b <= hi <= s@.len(),
            m as int == trail_ws_len(s@.subrange(a as int, b as int)),
            trim_start(s@.subrange(lo as int, hi as int)) == s@.subrange(a as int, hi as int),
            trim_end(s@.subrange(a as int, hi as int)) == trim_end(
                s@.subrange(a as int, b as int),
            ),
        decreases b - a,
    {
        proof {
            let t = s@.subrange(a as int, b as int);
            assert(t.take(t.len() - m) =~= s@.subrange(a as int, b - m));
        }
        b = b - m;
        m = trail_ws_at(s, a, b);
    }
    (a, b)
}

/// Whether every byte of `s` is ASCII.
pub fn all_ascii(s: &[u8]) -> (r: bool)
    ensures
        r == forall|i: int| 0 <= i < s@.len() ==> #[trigger] s@[i] < 128,
{
    let mut i: usize = 0;
    while i < s.len()
        invariant
            i <= s@.len(),
            forall|j: int| 0 <= j < i ==> #[trigger] s@[j] < 128,
        decreases s@.len() - i,
    {
        if s[i] >= 128 {
            return false;
        }
        i = i + 1;
    }
    true
}

} // verus!
