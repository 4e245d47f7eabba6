//! GUID text and the UTF-16 strings of the power configuration interface.
use vstd::prelude::*;
use vstd::string::*;

use crate::text::{hex_digits, hex_digit_lower, push_char, push_hex, trim, trim_seq};

verus! {

/// A GUID in its four numeric fields.
#[derive(Debug, Clone, Copy, PartialEq, Eq)]
pub struct Guid {
    pub data1: u32,
    pub data2: u16,
    pub data3: u16,
    pub data4: [u8; 8],
}

/// The value of a hexadecimal digit, or -1.
pub open spec fn hex_value(c: char) -> int {
    let v = c as u32;
    if 48 <= v && v <= 57 {
        v - 48
    } else if 97 <= v && v <= 102 {
        v - 87
    } else if 65 <= v && v <= 70 {
        v - 55
    } else {
        -1
    }
}

pub open spec fn is_hex(c: char) -> bool {
    hex_value(c) >= 0
}

pub open spec fn all_hex(s: Seq<char>) -> bool {
    forall|i: int| 0 <= i < s.len() ==> #[trigger] is_hex(s[i])
}

/// The number that a run of hexadecimal digits denotes.
pub open spec fn hex_run_value(s: Seq<char>) -> nat
    decreases s.len(),
{
    if s.len() == 0 {
        0
    } else {
        hex_run_value(s.drop_last()) * 16 + hex_value(s.last()) as nat
    }
}

pub open spec fn pow16(n: nat) -> nat
    decreases n,
{
    if n == 0 { 1 } else { 16 * pow16((n - 1) as nat) }
}

/// Digits as `from_str_radix(.., 16)` accepts them: hexadecimal, with an
/// optional leading `+`.
pub open spec fn radix_ok(p: Seq<char>) -> bool {
    all_hex(p) || (p.len() >= 2 && p[0] == '+' && all_hex(p.drop_first()))
}

pub open spec fn radix_value(p: Seq<char>) -> nat {
    if p.len() > 0 && p[0] == '+' { hex_run_value(p.drop_first()) } else { hex_run_value(p) }
}

/// The byte that two hexadecimal digits at `2k` denote.
pub open spec fn byte_at(p: Seq<char>, k: int) -> u8 {
    (hex_value(p[2 * k]) * 16 + hex_value(p[2 * k + 1])) as u8
}

pub open spec fn leading_count(s: Seq<char>, c: char) -> nat
    decreases s.len(),
{
    if s.len() > 0 && s[0] == c { 1 + leading_count(s.drop_first(), c) } else { 0 }
}

pub open spec fn trailing_count(s: Seq<char>, c: char) -> nat
    decreases s.len(),
{
    if s.len() > 0 && s.last() == c { 1 + trailing_count(s.drop_last(), c) } else { 0 }
}

/// The text between the braces: `s` trimmed, without its leading `{`s and
/// then without its trailing `}`s.
pub open spec fn guid_body(s: Seq<char>) -> Seq<char> {
    let t = trim_seq(s);
    let u = t.subrange(leading_count(t, '{') as int, t.len() as int);
    u.subrange(0, u.len() - trailing_count(u, '}'))
}

pub open spec fn seg(b: Seq<char>, start: int, len: int) -> Seq<char> {
    b.subrange(start, start + len)
}

/// Whether `b` has the shape `8-4-4-4-12` with the parts that the parser
/// accepts.
pub open spec fn guid_shape_ok(b: Seq<char>) -> bool {
    &&& b.len() == 36
    &&& b[8] == '-' && b[13] == '-' && b[18] == '-' && b[23] == '-'
    &&& radix_ok(seg(b, 0, 8))
    &&& radix_ok(seg(b, 9, 4))
    &&& radix_ok(seg(b, 14, 4))
    &&& all_hex(seg(b, 19, 4))
    &&& all_hex(seg(b, 24, 12))
}

pub open spec fn guid_of_body(b: Seq<char>) -> Guid {
    let p3 = seg(b, 19, 4);
    let p4 = seg(b, 24, 12);
    Guid {
        data1: radix_value(seg(b, 0, 8)) as u32,
        data2: radix_value(seg(b, 9, 4)) as u16,
        data3: radix_value(seg(b, 14, 4)) as u16,
        data4: [
            byte_at(p3, 0),
            byte_at(p3, 1),
            byte_at(p4, 0),
            byte_at(p4, 1),
            byte_at(p4, 2),
            byte_at(p4, 3),
            byte_at(p4, 4),
            byte_at(p4, 5),
        ],
    }
}

/// The GUID that a text denotes, if any.
pub open spec fn parse_guid_spec(s: Seq<char>) -> Option<Guid> {
    let b = guid_body(s);
    if guid_shape_ok(b) { Some(guid_of_body(b)) } else { None }
}

/// The canonical lower-case text of a GUID.
pub open spec fn format_guid_spec(g: Guid) -> Seq<char> {
    hex_digits(g.data1 as nat, 8, false) + seq!['-'] + hex_digits(g.data2 as nat, 4, false) + seq!['-']
        + hex_digits(g.data3 as nat, 4, false) + seq!['-'] + hex_digits(g.data4[0] as nat, 2, false)
        + hex_digits(g.data4[1] as nat, 2, false) + seq!['-'] + hex_digits(g.data4[2] as nat, 2, false)
        + hex_digits(g.data4[3] as nat, 2, false) + hex_digits(g.data4[4] as nat, 2, false)
        + hex_digits(g.data4[5] as nat, 2, false) + hex_digits(g.data4[6] as nat, 2, false)
        + hex_digits(g.data4[7] as nat, 2, false)
}

proof fn lemma_leading_count(s: Seq<char>, c: char, i: int)
    requires
        0 <= i <= s.len(),
        forall|j: int| 0 <= j < i ==> #[trigger] s[j] == c,
        i == s.len() || s[i] != c,
    ensures
        leading_count(s, c) == i,
    decreases i,
{
    if i > 0 {
        let t = s.drop_first();
        assert forall|j: int| 0 <= j < i - 1 implies #[trigger] t[j] == c by {
            assert(t[j] == s[j + 1]);
        }
        if i - 1 < t.len() {
            assert(t[i - 1] == s[i]);
        }
        lemma_leading_count(t, c, i - 1);
    }
}

proof fn lemma_trailing_count(s: Seq<char>, c: char, k: int)
    requires
        0 <= k <= s.len(),
        forall|j: int| s.len() - k <= j < s.len() ==> #[trigger] s[j] == c,
        k == s.len() || s[s.len() - k - 1] != c,
    ensures
        trailing_count(s, c) == k,
    decreases k,
{
    if k > 0 {
        let t = s.drop_last();
        assert forall|j: int| t.len() - (k - 1) <= j < t.len() implies #[trigger] t[j] == c by {
            assert(t[j] == s[j]);
        }
        if k - 1 < t.len() {
            assert(t[t.len() - (k - 1) - 1] == s[s.len() - k - 1]);
        }
        lemma_trailing_count(t, c, k - 1);
    }
}

fn hex_digit_value(c: char) -> (r: Option<u8>)
    ensures
        match r {
            Some(d) => is_hex(c) && d == hex_value(c),
            None => !is_hex(c),
        },
{
    let v = c as u32;
    if 48 <= v && v <= 57 {
        Some((v - 48) as u8)
    } else if 97 <= v && v <= 102 {
        Some((v - 87) as u8)
    } else if 65 <= v && v <= 70 {
        Some((v - 55) as u8)
    } else {
        None
    }
}

proof fn lemma_hex_run_bound(s: Seq<char>)
    requires
        all_hex(s),
    ensures
        hex_run_value(s) < pow16(s.len()),
    decreases s.len(),
{
    if s.len() > 0 {
        assert(is_hex(s[s.len() - 1]));
        let t = s.drop_last();
        assert forall|i: int| 0 <= i < t.len() implies #[trigger] is_hex(t[i]) by {
            assert(t[i] == s[i]);
        }
        lemma_hex_run_bound(t);
    }
}

/// The value of the hexadecimal run `s@[start..start + len]`, if it is one.
fn parse_hex_run(s: &str, start: usize, len: usize) -> (r: Option<u64>)
    requires
        start + len <= s@.len(),
        start + len <= usize::MAX,
        len <= 12,
    ensures
        match r {
            Some(v) => all_hex(seg(s@, start as int, len as int)) && v == hex_run_value(
                seg(s@, start as int, len as int),
            ),
            None => !all_hex(seg(s@, start as int, len as int)),
        },
{
    let mut value: u64 = 0;
    let mut i: usize = 0;
    while i < len
        invariant
            start + len <= s@.len(),
            start + len <= usize::MAX,
            len <= 12,
            i <= len,
            all_hex(seg(s@, start as int, i as int)),
            value == hex_run_value(seg(s@, start as int, i as int)),
            value < pow16(i as nat),
        decreases len - i,
    {
        let d = match hex_digit_value(s.get_char(start + i)) {
            Some(d) => d,
            None => {
                assert(!is_hex(seg(s@, start as int, len as int)[i as int]));
                return None;
            },
        };
        let ghost prev = seg(s@, start as int, i as int);
        let ghost next = seg(s@, start as int, i + 1);
        assert(next.drop_last() =~= prev);
        assert(next.last() == s@[start + i]);
        proof {
            assert(pow16((i + 1) as nat) == 16 * pow16(i as nat));
            assert(pow16(i as nat) <= pow16(11)) by {
                lemma_pow16_mono(i as nat, 11);
            }
            lemma_pow16_values();
        }
        value = value * 16 + d as u64;
        i = i + 1;
        assert forall|j: int| 0 <= j < next.len() implies #[trigger] is_hex(next[j]) by {
            if j < prev.len() {
                assert(next[j] == prev[j]);
            }
        }
    }
    Some(value)
}

proof fn lemma_pow16_values()
    ensures
        pow16(2) == 0x100,
        pow16(3) == 0x1000,
        pow16(4) == 0x1_0000,
        pow16(7) == 0x1000_0000,
        pow16(8) == 0x1_0000_0000,
        pow16(11) == 0x1000_0000_0000,
        pow16(12) == 0x1_0000_0000_0000,
{
    reveal_with_fuel(pow16, 13);
}

proof fn lemma_pow16_mono(a: nat, b: nat)
    requires
        a <= b,
    ensures
        pow16(a) <= pow16(b),
    decreases b,
{
    if a < b {
        lemma_pow16_mono(a, (b - 1) as nat);
    }
}

proof fn lemma_radix_bound(p: Seq<char>)
    requires
        radix_ok(p),
    ensures
        radix_value(p) < pow16(p.len()),
{
    if p.len() > 0 && p[0] == '+' {
        assert(!is_hex(p[0]));
        assert(!all_hex(p));
        lemma_hex_run_bound(p.drop_first());
        lemma_pow16_mono((p.len() - 1) as nat, p.len());
    } else {
        lemma_hex_run_bound(p);
    }
}

fn parse_radix_part(s: &str, start: usize, len: usize) -> (r: Option<u64>)
    requires
        start + len <= s@.len(),
        start + len <= usize::MAX,
        2 <= len <= 12,
    ensures
        match r {
            Some(v) => radix_ok(seg(s@, start as int, len as int)) && v == radix_value(
                seg(s@, start as int, len as int),
            ),
            None => !radix_ok(seg(s@, start as int, len as int)),
        },
{
    let ghost p = seg(s@, start as int, len as int);
    if s.get_char(start) == '+' {
        assert(p.drop_first() =~= seg(s@, start + 1, len - 1));
        assert(!is_hex(p[0]));
        parse_hex_run(s, start + 1, len - 1)
    } else {
        parse_hex_run(s, start, len)
    }
}

/// Parses a GUID in the `8-4-4-4-12` hexadecimal form, after trimming
/// whitespace and the surrounding braces.
pub fn parse_guid(value: &str) -> (r: Option<Guid>)
    ensures
        r == parse_guid_spec(value@),
{
    let t = trim(value);
    let n = t.unicode_len();
    let mut lo: usize = 0;
    while lo < n
        invariant
            n == t@.len(),
            lo <= n,
            forall|j: int| 0 <= j < lo ==> #[trigger] t@[j] == '{',
        ensures
            lo <= n,
            forall|j: int| 0 <= j < lo ==> #[trigger] t@[j] == '{',
            lo == n || t@[lo as int] != '{',
        decreases n - lo,
    {
        if t.get_char(lo) != '{' {
            break;
        }
        lo = lo + 1;
    }
    let mut hi: usize = n;
    while hi > lo
        invariant
            n == t@.len(),
            lo <= hi <= n,
            forall|j: int| hi <= j < n ==> #[trigger] t@[j] == '}',
        ensures
            lo <= hi <= n,
            forall|j: int| hi <= j < n ==> #[trigger] t@[j] == '}',
            hi == lo || t@[hi - 1] != '}',
        decreases hi,
    {
        if t.get_char(hi - 1) != '}' {
            break;
        }
        hi = hi - 1;
    }
    let ghost b = t@.subrange(lo as int, hi as int);
    proof {
        lemma_leading_count(t@, '{', lo as int);
        let u = t@.subrange(lo as int, n as int);
        assert forall|j: int| u.len() - (n - hi) <= j < u.len() implies #[trigger] u[j] == '}' by {
            assert(u[j] == t@[lo + j]);
        }
        if n - hi < u.len() {
            assert(u[u.len() - (n - hi) - 1] == t@[hi - 1]);
        }
        lemma_trailing_count(u, '}', (n - hi) as int);
        assert(b =~= guid_body(value@));
    }
    if hi - lo != 36 {
        return None;
    }
    if t.get_char(lo + 8) != '-' || t.get_char(lo + 13) != '-' || t.get_char(lo + 18) != '-'
        || t.get_char(lo + 23) != '-' {
        return None;
    }
    assert(seg(b, 0, 8) =~= seg(t@, lo as int, 8));
    assert(seg(b, 9, 4) =~= seg(t@, lo + 9, 4));
    assert(seg(b, 14, 4) =~= seg(t@, lo + 14, 4));
    assert(seg(b, 19, 4) =~= seg(t@, lo + 19, 4));
    assert(seg(b, 24, 12) =~= seg(t@, lo + 24, 12));
    let data1 = match parse_radix_part(t, lo, 8) {
        Some(v) => v,
        None => return None,
    };
    let data2 = match parse_radix_part(t, lo + 9, 4) {
        Some(v) => v,
        None => return None,
    };
    let data3 = match parse_radix_part(t, lo + 14, 4) {
        Some(v) => v,
        None => return None,
    };
    let prefix = match parse_hex_run(t, lo + 19, 4) {
        Some(v) => v,
        None => return None,
    };
    let suffix = match parse_hex_run(t, lo + 24, 12) {
        Some(v) => v,
        None => return None,
    };
    let mut bytes: [u8; 8] = [0u8; 8];
    let mut k: usize = 0;
    while k < 8
        invariant
            n == t@.len(),
            lo + 36 <= n,
            b == t@.subrange(lo as int, hi as int),
            hi - lo == 36,
            all_hex(seg(b, 19, 4)),
            all_hex(seg(b, 24, 12)),
            k <= 8,
            forall|j: int| 0 <= j < k && j < 2 ==> #[trigger] bytes@[j] == byte_at(seg(b, 19, 4), j),
            forall|j: int| 2 <= j < k ==> #[trigger] bytes@[j] == byte_at(seg(b, 24, 12), j - 2),
        decreases 8 - k,
    {
        let at: usize = if k < 2 { lo + 19 + 2 * k } else { lo + 24 + 2 * (k - 2) };
        let hv = hex_digit_value(t.get_char(at));
        let lv = hex_digit_value(t.get_char(at + 1));
        proof {
            if k < 2 {
                assert(seg(b, 19, 4)[2 * k] == t@[at as int]);
                assert(seg(b, 19, 4)[2 * k + 1] == t@[at + 1]);
                assert(is_hex(seg(b, 19, 4)[2 * k]));
                assert(is_hex(seg(b, 19, 4)[2 * k + 1]));
            } else {
                assert(seg(b, 24, 12)[2 * (k - 2)] == t@[at as int]);
                assert(seg(b, 24, 12)[2 * (k - 2) + 1] == t@[at + 1]);
                assert(is_hex(seg(b, 24, 12)[2 * (k - 2)]));
                assert(is_hex(seg(b, 24, 12)[2 * (k - 2) + 1]));
            }
        }
        let h = hv.unwrap();
        let l = lv.unwrap();
        bytes[k] = h * 16 + l;
        k = k + 1;
    }
    proof {
        lemma_radix_bound(seg(b, 0, 8));
        lemma_radix_bound(seg(b, 9, 4));
        lemma_radix_bound(seg(b, 14, 4));
        lemma_pow16_values();
    }
    let g = Guid { data1: data1 as u32, data2: data2 as u16, data3: data3 as u16, data4: bytes };
    assert(g.data4 =~= guid_of_body(b).data4);
    Some(g)
}

/// Whether a text denotes a GUID.
pub fn is_valid_guid(value: &str) -> (r: bool)
    ensures
        r == parse_guid_spec(value@) is Some,
{
    parse_guid(value).is_some()
}

/// The UTF-16 code units of one character.
pub open spec fn utf16_of_char(c: char) -> Seq<u16> {
    let v = c as u32;
    if v < 0x10000 {
        seq![v as u16]
    } else {
        let w = (v - 0x10000) as int;
        seq![(0xD800 + w / 1024) as u16, (0xDC00 + w % 1024) as u16]
    }
}

/// The UTF-16 code units of a text.
pub open spec fn utf16_seq(s: Seq<char>) -> Seq<u16>
    decreases s.len(),
{
    if s.len() == 0 {
        Seq::empty()
    } else {
        utf16_of_char(s[0]) + utf16_seq(s.drop_first())
    }
}

/// Code units as little-endian bytes.
pub open spec fn le_bytes(u: Seq<u16>) -> Seq<u8> {
    Seq::new(2 * u.len(), |i: int| if i % 2 == 0 { (u[i / 2] % 256) as u8 } else { (u[i / 2] / 256) as u8 })
}

/// The bytes of a power-setting string: its UTF-16 code units and a
/// terminating zero unit, little-endian.
pub open spec fn power_string_bytes(s: Seq<char>) -> Seq<u8> {
    le_bytes(utf16_seq(s) + seq![0u16])
}

/// Little-endian code units of a byte buffer (an odd last byte is ignored).
pub open spec fn units_of(b: Seq<u8>) -> Seq<u16> {
    Seq::new(b.len() / 2, |i: int| (b[2 * i] + 256 * b[2 * i + 1]) as u16)
}

/// The number of code units before the first zero unit.
pub open spec fn until_nul(u: Seq<u16>) -> nat
    decreases u.len(),
{
    if u.len() == 0 || u[0] == 0 { 0 } else { 1 + until_nul(u.drop_first()) }
}

pub open spec fn is_high_surrogate(u: u16) -> bool {
    0xD800 <= u && u <= 0xDBFF
}

pub open spec fn is_low_surrogate(u: u16) -> bool {
    0xDC00 <= u && u <= 0xDFFF
}

/// UTF-16 decoding in which every unpaired surrogate becomes U+FFFD.
pub open spec fn utf16_lossy(u: Seq<u16>) -> Seq<char>
    decreases u.len(),
{
    if u.len() == 0 {
        Seq::empty()
    } else if u.len() >= 2 && is_high_surrogate(u[0]) && is_low_surrogate(u[1]) {
        seq![((0x10000 + (u[0] - 0xD800) * 1024 + (u[1] - 0xDC00)) as u32) as char] + utf16_lossy(u.skip(2))
    } else if 0xD800 <= u[0] && u[0] <= 0xDFFF {
        seq!['\u{FFFD}'] + utf16_lossy(u.skip(1))
    } else {
        seq![(u[0] as u32) as char] + utf16_lossy(u.skip(1))
    }
}

/// The text of a power-setting string buffer.
pub open spec fn power_string_text(b: Seq<u8>) -> Seq<char> {
    let u = units_of(b);
    utf16_lossy(u.take(until_nul(u) as int))
}

/// `char::from_u32`, which std documents as returning the character with
/// that code point, or `None` for a surrogate or a value above U+10FFFF.
#[verifier::external_body]
fn char_from_u32(v: u32) -> (r: Option<char>)
    ensures
        (r is Some) == (v <= 0xD7FF || (0xE000 <= v && v <= 0x10FFFF)),
        r is Some ==> r.unwrap() as u32 == v,
{
    char::from_u32(v)
}

proof fn lemma_utf16_push(s: Seq<char>, c: char)
    ensures
        utf16_seq(s.push(c)) == utf16_seq(s) + utf16_of_char(c),
    decreases s.len(),
{
    if s.len() == 0 {
        assert(s.push(c).drop_first() =~= Seq::<char>::empty());
        assert(s.push(c)[0] == c);
        assert(utf16_seq(s.push(c).drop_first()) == Seq::<u16>::empty());
        assert(utf16_seq(s.push(c)) =~= utf16_of_char(c));
    } else {
        assert(s.push(c).drop_first() =~= s.drop_first().push(c));
        lemma_utf16_push(s.drop_first(), c);
        assert(utf16_seq(s.push(c)) =~= utf16_seq(s) + utf16_of_char(c));
    }
}

/// Encodes a text as a power-setting string: UTF-16 code units and a
/// terminating zero, little-endian.
pub fn encode_power_string(value: &str) -> (r: Vec<u8>)
    ensures
        r@ == power_string_bytes(value@),
{
    let n = value.unicode_len();
    let mut units: Vec<u16> = Vec::new();
    let mut i: usize = 0;
    while i < n
        invariant
            n == value@.len(),
            i <= n,
            units@ == utf16_seq(value@.subrange(0, i as int)),
        decreases n - i,
    {
        let c = value.get_char(i);
        let v = c as u32;
        if v < 0x10000 {
            units.push(v as u16);
        } else {
            let w = v - 0x10000;
            units.push((0xD800 + w / 1024) as u16);
            units.push((0xDC00 + w % 1024) as u16);
        }
        proof {
            assert(value@.subrange(0, i + 1) =~= value@.subrange(0, i as int).push(c));
            lemma_utf16_push(value@.subrange(0, i as int), c);
        }
        i = i + 1;
    }
    assert(value@.subrange(0, n as int) =~= value@);
    units.push(0);
    let mut out: Vec<u8> = Vec::new();
    let mut k: usize = 0;
    while k < units.len()
        invariant
            k <= units@.len(),
            units@ == utf16_seq(value@) + seq![0u16],
            out@ =~= le_bytes(units@.subrange(0, k as int)),
        decreases units@.len() - k,
    {
        let u = units[k];
        out.push((u % 256) as u8);
        out.push((u / 256) as u8);
        k = k + 1;
        assert(out@ =~= le_bytes(units@.subrange(0, k as int)));
    }
    assert(units@.subrange(0, units@.len() as int) =~= units@);
    out
}

/// Decodes a power-setting string buffer: little-endian UTF-16 up to the
/// first zero unit, with unpaired surrogates replaced by U+FFFD.
pub fn decode_power_string(buffer: &[u8]) -> (r: String)
    ensures
        r@ == power_string_text(buffer@),
{
    let ghost all = units_of(buffer@);
    let mut units: Vec<u16> = Vec::new();
    let mut i: usize = 0;
    let len = buffer.len();
    let pairs = len / 2;
    while i < pairs
        invariant
            pairs == all.len(),
            pairs == buffer@.len() / 2,
            len == buffer@.len(),
            all == units_of(buffer@),
            i <= pairs,
            units@ == all.subrange(0, i as int),
            forall|j: int| 0 <= j < i ==> #[trigger] all[j] != 0,
        ensures
            i <= pairs,
            units@ == all.subrange(0, i as int),
            forall|j: int| 0 <= j < i ==> #[trigger] all[j] != 0,
            i == pairs || all[i as int] == 0,
        decreases pairs - i,
    {
        let u = (buffer[2 * i] as u16) + 256 * (buffer[2 * i + 1] as u16);
        assert(u == all[i as int]);
        if u == 0 {
            break;
        }
        units.push(u);
        i = i + 1;
    }
    proof {
        lemma_until_nul(all, i as int);
    }
    let ghost us = units@;
    let mut out = String::new();
    let m = units.len();
    assert(us.subrange(0, m as int) =~= us);
    let mut k: usize = 0;
    while k < m
        invariant
            m == us.len(),
            units@ == us,
            k <= m,
            out@ + utf16_lossy(us.subrange(k as int, m as int)) == utf16_lossy(us),
        decreases m - k,
    {
        let u = units[k];
        let ghost rest = us.subrange(k as int, m as int);
        if k + 1 < m && 0xD800 <= u && u <= 0xDBFF && 0xDC00 <= units[k + 1] && units[k + 1] <= 0xDFFF {
            let v = 0x10000 + ((u - 0xD800) as u32) * 1024 + ((units[k + 1] - 0xDC00) as u32);
            let c = char_from_u32(v).unwrap();
            push_char(&mut out, c);
            proof {
                vstd::utf8::char_u32_cast(c, v);
                assert(rest[0] == u && rest[1] == units[k + 1 as int]);
                assert(rest.skip(2) =~= us.subrange(k + 2, m as int));
                assert(utf16_lossy(rest) == seq![c] + utf16_lossy(rest.skip(2)));
                assert(out@ + utf16_lossy(us.subrange(k + 2, m as int)) =~= utf16_lossy(us));
            }
            k = k + 2;
        } else {
            let c = if 0xD800 <= u && u <= 0xDFFF {
                '\u{FFFD}'
            } else {
                char_from_u32(u as u32).unwrap()
            };
            push_char(&mut out, c);
            proof {
                assert(rest[0] == u);
                if !(0xD800 <= u && u <= 0xDFFF) {
                    vstd::utf8::char_u32_cast(c, u as u32);
                }
                assert(rest.skip(1) =~= us.subrange(k + 1, m as int));
                assert(utf16_lossy(rest) == seq![c] + utf16_lossy(rest.skip(1)));
                assert(out@ + utf16_lossy(us.subrange(k + 1, m as int)) =~= utf16_lossy(us));
            }
            k = k + 1;
        }
    }
    assert(us.subrange(m as int, m as int) =~= Seq::<u16>::empty());
    assert(out@ =~= out@ + Seq::<char>::empty());
    out
}

proof fn lemma_until_nul(u: Seq<u16>, i: int)
    requires
        0 <= i <= u.len(),
        forall|j: int| 0 <= j < i ==> #[trigger] u[j] != 0,
        i == u.len() || u[i] == 0,
    ensures
        until_nul(u) == i,
    decreases i,
{
    if i > 0 {
        let t = u.drop_first();
        assert forall|j: int| 0 <= j < i - 1 implies #[trigger] t[j] != 0 by {
            assert(t[j] == u[j + 1]);
        }
        if i - 1 < t.len() {
            assert(t[i - 1] == u[i]);
        }
        lemma_until_nul(t, i - 1);
    }
}

proof fn lemma_lossy_char(c: char, r: Seq<u16>)
    ensures
        utf16_lossy(utf16_of_char(c) + r) == seq![c] + utf16_lossy(r),
{
    vstd::utf8::char_is_scalar(c);
    let v = c as u32;
    let u = utf16_of_char(c) + r;
    if v < 0x10000 {
        assert(u[0] == v as u16);
        assert(u[0] as u32 == v);
        vstd::utf8::char_u32_cast(c, v);
        assert(u.skip(1) =~= r);
    } else {
        let w = (v - 0x10000) as int;
        assert(u[0] == (0xD800 + w / 1024) as u16);
        assert(u[1] == (0xDC00 + w % 1024) as u16);
        assert(0x10000 + (u[0] - 0xD800) * 1024 + (u[1] - 0xDC00) == v);
        vstd::utf8::char_u32_cast(c, v);
        assert(u.skip(2) =~= r);
    }
}

proof fn lemma_utf16_lossy_round_trip(s: Seq<char>)
    ensures
        utf16_lossy(utf16_seq(s)) == s,
        s.len() > 0 ==> utf16_seq(s).len() > 0,
        (forall|i: int| 0 <= i < s.len() ==> #[trigger] s[i] != '\0') ==> forall|j: int|
            0 <= j < utf16_seq(s).len() ==> #[trigger] utf16_seq(s)[j] != 0,
    decreases s.len(),
{
    if s.len() == 0 {
        assert(utf16_lossy(Seq::<u16>::empty()) =~= Seq::<char>::empty());
    } else {
        let t = s.drop_first();
        lemma_utf16_lossy_round_trip(t);
        lemma_lossy_char(s[0], utf16_seq(t));
        assert(s =~= seq![s[0]] + t);
        if forall|i: int| 0 <= i < s.len() ==> #[trigger] s[i] != '\0' {
            assert forall|i: int| 0 <= i < t.len() implies #[trigger] t[i] != '\0' by {
                assert(t[i] == s[i + 1]);
            }
            let h = utf16_of_char(s[0]);
            assert(s[0] != '\0');
            assert forall|j: int| 0 <= j < utf16_seq(s).len() implies #[trigger] utf16_seq(s)[j] != 0 by {
                if j < h.len() {
                    assert(utf16_seq(s)[j] == h[j]);
                } else {
                    assert(utf16_seq(s)[j] == utf16_seq(t)[j - h.len()]);
                }
            }
        }
    }
}

/// Law: a text without NUL characters survives encoding as a power-setting
/// string and decoding again.
pub proof fn law_power_string_round_trip(s: Seq<char>)
    requires
        forall|i: int| 0 <= i < s.len() ==> #[trigger] s[i] != '\0',
    ensures
        power_string_text(power_string_bytes(s)) == s,
{
    let u = utf16_seq(s) + seq![0u16];
    let b = le_bytes(u);
    assert(units_of(b) =~= u);
    lemma_utf16_lossy_round_trip(s);
    let n = utf16_seq(s).len();
    assert forall|j: int| 0 <= j < n implies #[trigger] u[j] != 0 by {
        assert(u[j] == utf16_seq(s)[j]);
    }
    lemma_until_nul(u, n as int);
    assert(u.take(n as int) =~= utf16_seq(s));
}

/// The canonical lower-case text of a GUID: `8-4-4-4-12` hexadecimal digits.
pub fn format_guid(guid: &Guid) -> (r: String)
    ensures
        r@ == format_guid_spec(*guid),
{
    let mut s = String::new();
    push_hex(&mut s, guid.data1 as u64, 8, false);
    push_char(&mut s, '-');
    push_hex(&mut s, guid.data2 as u64, 4, false);
    push_char(&mut s, '-');
    push_hex(&mut s, guid.data3 as u64, 4, false);
    push_char(&mut s, '-');
    push_hex(&mut s, guid.data4[0] as u64, 2, false);
    push_hex(&mut s, guid.data4[1] as u64, 2, false);
    push_char(&mut s, '-');
    assert(s@ =~= format_guid_prefix(*guid, 2));
    let mut k: usize = 2;
    while k < 8
        invariant
            2 <= k <= 8,
            s@ == format_guid_prefix(*guid, k as nat),
        decreases 8 - k,
    {
        push_hex(&mut s, guid.data4[k] as u64, 2, false);
        k = k + 1;
    }
    assert(format_guid_prefix(*guid, 8) =~= format_guid_spec(*guid)) by {
        reveal_with_fuel(format_guid_prefix, 7);
    }
    s
}

/// The formatted text up to the `k`-th byte of the last part.
pub open spec fn format_guid_prefix(g: Guid, k: nat) -> Seq<char>
    decreases k,
{
    if k <= 2 {
        hex_digits(g.data1 as nat, 8, false) + seq!['-'] + hex_digits(g.data2 as nat, 4, false)
            + seq!['-'] + hex_digits(g.data3 as nat, 4, false) + seq!['-'] + hex_digits(
            g.data4[0] as nat,
            2,
            false,
        ) + hex_digits(g.data4[1] as nat, 2, false) + seq!['-']
    } else {
        format_guid_prefix(g, (k - 1) as nat) + hex_digits(g.data4[k - 1] as nat, 2, false)
    }
}


proof fn lemma_hex_digit_lower(d: nat)
    requires
        d < 16,
    ensures
        is_hex(hex_digit_lower(d)),
        hex_value(hex_digit_lower(d)) == d,
        hex_digit_lower(d) != '+',
        !crate::text::is_whitespace_char(hex_digit_lower(d)),
{
    if d < 10 {
        assert((((48 + d) as u8) as char) as u32 == 48 + d);
    } else {
        assert((((87 + d) as u8) as char) as u32 == 87 + d);
    }
}

proof fn lemma_hex_digits(n: nat, w: nat)
    requires
        n < pow16(w),
    ensures
        hex_digits(n, w, false).len() == w,
        all_hex(hex_digits(n, w, false)),
        hex_run_value(hex_digits(n, w, false)) == n,
        forall|i: int| 0 <= i < w ==> #[trigger] hex_digits(n, w, false)[i] != '+',
        forall|i: int| 0 <= i < w ==> !crate::text::is_whitespace_char(#[trigger] hex_digits(n, w, false)[i]),
    decreases w,
{
    if w > 0 {
        lemma_hex_digits(n / 16, (w - 1) as nat);
        lemma_hex_digit_lower(n % 16);
        let h = hex_digits(n, w, false);
        let t = hex_digits(n / 16, (w - 1) as nat, false);
        assert(h == t.push(hex_digit_lower(n % 16)));
        assert(h.drop_last() =~= t);
        assert forall|i: int| 0 <= i < h.len() implies #[trigger] is_hex(h[i]) by {
            if i < t.len() {
                assert(h[i] == t[i]);
            }
        }
        assert forall|i: int| 0 <= i < w implies #[trigger] h[i] != '+' by {
            if i < t.len() {
                assert(h[i] == t[i]);
            }
        }
        assert forall|i: int| 0 <= i < w implies !crate::text::is_whitespace_char(#[trigger] h[i]) by {
            if i < t.len() {
                assert(h[i] == t[i]);
            }
        }
    } else {
        assert(n == 0);
    }
}

proof fn lemma_hex_pair(b: u8)
    ensures
        hex_digits(b as nat, 2, false).len() == 2,
        byte_at(hex_digits(b as nat, 2, false), 0) == b,
{
    lemma_pow16_values();
    lemma_hex_digits(b as nat, 2);
    let h = hex_digits(b as nat, 2, false);
    assert(h[0] == hex_digit_lower(((b as nat) / 16) % 16)) by {
        reveal_with_fuel(hex_digits, 3);
    }
    assert(h[1] == hex_digit_lower((b as nat) % 16)) by {
        reveal_with_fuel(hex_digits, 3);
    }
    lemma_hex_digit_lower(((b as nat) / 16) % 16);
    lemma_hex_digit_lower((b as nat) % 16);
}

proof fn lemma_body_of_hex_ends(f: Seq<char>)
    requires
        f.len() > 0,
        is_hex(f[0]),
        is_hex(f[f.len() - 1]),
    ensures
        guid_body(f) == f,
{
    assert(!crate::text::is_whitespace_char(f[0]));
    assert(!crate::text::is_whitespace_char(f[f.len() - 1]));
    crate::text::lemma_leading_ws(f, 0);
    crate::text::lemma_trailing_ws(f, 0);
    assert(trim_seq(f) =~= f);
    assert(f[0] != '{');
    lemma_leading_count(f, '{', 0);
    assert(f.subrange(0, f.len() as int) =~= f);
    assert(f[f.len() - 1] != '}');
    lemma_trailing_count(f, '}', 0);
    assert(guid_body(f) =~= f);
}

/// The layout of the formatted text: which digits stand where.
proof fn lemma_format_layout(g: Guid)
    ensures
        ({
            let f = format_guid_spec(g);
            &&& f.len() == 36
            &&& f[8] == '-' && f[13] == '-' && f[18] == '-' && f[23] == '-'
            &&& seg(f, 0, 8) == hex_digits(g.data1 as nat, 8, false)
            &&& seg(f, 9, 4) == hex_digits(g.data2 as nat, 4, false)
            &&& seg(f, 14, 4) == hex_digits(g.data3 as nat, 4, false)
            &&& seg(f, 19, 4) == hex_digits(g.data4[0] as nat, 2, false) + hex_digits(g.data4[1] as nat, 2, false)
            &&& seg(f, 24, 12) == hex_digits(g.data4[2] as nat, 2, false) + hex_digits(g.data4[3] as nat, 2, false)
                + hex_digits(g.data4[4] as nat, 2, false) + hex_digits(g.data4[5] as nat, 2, false)
                + hex_digits(g.data4[6] as nat, 2, false) + hex_digits(g.data4[7] as nat, 2, false)
        }),
{
    lemma_pow16_values();
    lemma_hex_digits(g.data1 as nat, 8);
    lemma_hex_digits(g.data2 as nat, 4);
    lemma_hex_digits(g.data3 as nat, 4);
    lemma_hex_pair(g.data4[0]);
    lemma_hex_pair(g.data4[1]);
    lemma_hex_pair(g.data4[2]);
    lemma_hex_pair(g.data4[3]);
    lemma_hex_pair(g.data4[4]);
    lemma_hex_pair(g.data4[5]);
    lemma_hex_pair(g.data4[6]);
    lemma_hex_pair(g.data4[7]);
    let f = format_guid_spec(g);
    let tail = hex_digits(g.data4[2] as nat, 2, false) + hex_digits(g.data4[3] as nat, 2, false)
        + hex_digits(g.data4[4] as nat, 2, false) + hex_digits(g.data4[5] as nat, 2, false)
        + hex_digits(g.data4[6] as nat, 2, false) + hex_digits(g.data4[7] as nat, 2, false);
    let head = hex_digits(g.data1 as nat, 8, false) + seq!['-'] + hex_digits(g.data2 as nat, 4, false)
        + seq!['-'] + hex_digits(g.data3 as nat, 4, false) + seq!['-'] + hex_digits(g.data4[0] as nat, 2, false)
        + hex_digits(g.data4[1] as nat, 2, false) + seq!['-'];
    assert(f =~= head + tail);
    assert(head.len() == 24);
    assert(seg(f, 24, 12) =~= tail);
    assert(seg(f, 0, 8) =~= hex_digits(g.data1 as nat, 8, false));
    assert(seg(f, 9, 4) =~= hex_digits(g.data2 as nat, 4, false));
    assert(seg(f, 14, 4) =~= hex_digits(g.data3 as nat, 4, false));
    assert(seg(f, 19, 4) =~= hex_digits(g.data4[0] as nat, 2, false) + hex_digits(g.data4[1] as nat, 2, false));
}

proof fn lemma_pairs_hex(q: Seq<char>, parts: Seq<Seq<char>>)
    requires
        forall|k: int| 0 <= k < parts.len() ==> (#[trigger] parts[k]).len() == 2 && all_hex(parts[k]),
        q == parts.fold_left(Seq::<char>::empty(), |acc: Seq<char>, p: Seq<char>| acc + p),
    ensures
        q.len() == 2 * parts.len(),
        all_hex(q),
        forall|k: int| 0 <= k < parts.len() ==> byte_at(q, k) == byte_at(#[trigger] parts[k], 0),
    decreases parts.len(),
{
    if parts.len() == 0 {
        assert(q =~= Seq::<char>::empty());
    } else {
        let init = parts.drop_last();
        let qi = init.fold_left(Seq::<char>::empty(), |acc: Seq<char>, p: Seq<char>| acc + p);
        assert(q == qi + parts.last());
        lemma_pairs_hex(qi, init);
        assert forall|i: int| 0 <= i < q.len() implies #[trigger] is_hex(q[i]) by {
            if i < qi.len() {
                assert(q[i] == qi[i]);
            } else {
                assert(q[i] == parts.last()[i - qi.len()]);
            }
        }
        assert forall|k: int| 0 <= k < parts.len() implies byte_at(q, k) == byte_at(#[trigger] parts[k], 0) by {
            if k < init.len() {
                assert(parts[k] == init[k]);
                assert(q[2 * k] == qi[2 * k]);
                assert(q[2 * k + 1] == qi[2 * k + 1]);
            } else {
                assert(q[2 * k] == parts.last()[0]);
                assert(q[2 * k + 1] == parts.last()[1]);
            }
        }
    }
}

/// Law: formatting a GUID and parsing the text gives the GUID back.
#[verifier::spinoff_prover]
#[verifier::rlimit(50)]
pub proof fn law_guid_text_round_trip(g: Guid)
    ensures
        parse_guid_spec(format_guid_spec(g)) == Some(g),
{
    lemma_pow16_values();
    lemma_format_layout(g);
    let f = format_guid_spec(g);
    let h1 = hex_digits(g.data1 as nat, 8, false);
    let h2 = hex_digits(g.data2 as nat, 4, false);
    let h3 = hex_digits(g.data3 as nat, 4, false);
    lemma_hex_digits(g.data1 as nat, 8);
    lemma_hex_digits(g.data2 as nat, 4);
    lemma_hex_digits(g.data3 as nat, 4);
    let p0 = hex_digits(g.data4[0] as nat, 2, false);
    let p1 = hex_digits(g.data4[1] as nat, 2, false);
    let p2 = hex_digits(g.data4[2] as nat, 2, false);
    let p3 = hex_digits(g.data4[3] as nat, 2, false);
    let p4 = hex_digits(g.data4[4] as nat, 2, false);
    let p5 = hex_digits(g.data4[5] as nat, 2, false);
    let p6 = hex_digits(g.data4[6] as nat, 2, false);
    let p7 = hex_digits(g.data4[7] as nat, 2, false);
    lemma_hex_pair(g.data4[0]);
    lemma_hex_pair(g.data4[1]);
    lemma_hex_pair(g.data4[2]);
    lemma_hex_pair(g.data4[3]);
    lemma_hex_pair(g.data4[4]);
    lemma_hex_pair(g.data4[5]);
    lemma_hex_pair(g.data4[6]);
    lemma_hex_pair(g.data4[7]);
    lemma_hex_digits(g.data4[0] as nat, 2);
    lemma_hex_digits(g.data4[1] as nat, 2);
    lemma_hex_digits(g.data4[2] as nat, 2);
    lemma_hex_digits(g.data4[3] as nat, 2);
    lemma_hex_digits(g.data4[4] as nat, 2);
    lemma_hex_digits(g.data4[5] as nat, 2);
    lemma_hex_digits(g.data4[6] as nat, 2);
    lemma_hex_digits(g.data4[7] as nat, 2);
    let front = seq![p0, p1];
    let back = seq![p2, p3, p4, p5, p6, p7];
    assert(front.fold_left(Seq::<char>::empty(), |acc: Seq<char>, p: Seq<char>| acc + p) =~= p0 + p1) by {
        reveal_with_fuel(Seq::fold_left, 3);
        assert(front.drop_last() =~= seq![p0]);
        assert(seq![p0].drop_last() =~= Seq::<Seq<char>>::empty());
    }
    assert(back.fold_left(Seq::<char>::empty(), |acc: Seq<char>, p: Seq<char>| acc + p) =~= p2 + p3
        + p4 + p5 + p6 + p7) by {
        reveal_with_fuel(Seq::fold_left, 7);
        assert(back.drop_last() =~= seq![p2, p3, p4, p5, p6]);
        assert(seq![p2, p3, p4, p5, p6].drop_last() =~= seq![p2, p3, p4, p5]);
        assert(seq![p2, p3, p4, p5].drop_last() =~= seq![p2, p3, p4]);
        assert(seq![p2, p3, p4].drop_last() =~= seq![p2, p3]);
        assert(seq![p2, p3].drop_last() =~= seq![p2]);
        assert(seq![p2].drop_last() =~= Seq::<Seq<char>>::empty());
    }
    lemma_pairs_hex(seg(f, 19, 4), front);
    lemma_pairs_hex(seg(f, 24, 12), back);
    assert(f[0] == h1[0]);
    assert(f[35] == seg(f, 24, 12)[11]);
    lemma_body_of_hex_ends(f);
    assert(guid_shape_ok(f));
    assert(guid_of_body(f).data4 =~= g.data4);
}

} // verus!
