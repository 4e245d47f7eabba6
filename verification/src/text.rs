//! Character-level text helpers with exact specifications: Unicode whitespace
//! trimming (as `str::trim`), ASCII case folding (as `to_ascii_lowercase` and
//! `eq_ignore_ascii_case`), and decimal / hexadecimal rendering of integers.
use vstd::prelude::*;
use vstd::string::*;

verus! {

/// The Unicode `White_Space` property, which `char::is_whitespace` and
/// `str::trim` use.
pub open spec fn is_whitespace_char(c: char) -> bool {
    let v = c as u32;
    ||| (0x09 <= v && v <= 0x0D)
    ||| v == 0x20
    ||| v == 0x85
    ||| v == 0xA0
    ||| v == 0x1680
    ||| (0x2000 <= v && v <= 0x200A)
    ||| v == 0x2028
    ||| v == 0x2029
    ||| v == 0x202F
    ||| v == 0x205F
    ||| v == 0x3000
}

/// `char::to_ascii_lowercase`: only `A`..=`Z` change.
pub open spec fn ascii_lower(c: char) -> char {
    if 65 <= (c as u32) && (c as u32) <= 90 {
        ((c as u32) + 32) as char
    } else {
        c
    }
}

/// `str::to_ascii_lowercase` on the character sequence.
pub open spec fn lower_seq(s: Seq<char>) -> Seq<char> {
    Seq::new(s.len(), |i: int| ascii_lower(s[i]))
}

/// Number of whitespace characters at the start of `s`.
pub open spec fn leading_ws(s: Seq<char>) -> nat
    decreases s.len(),
{
    if s.len() == 0 {
        0
    } else if is_whitespace_char(s[0]) {
        1 + leading_ws(s.drop_first())
    } else {
        0
    }
}

/// Number of whitespace characters at the end of `s`.
pub open spec fn trailing_ws(s: Seq<char>) -> nat
    decreases s.len(),
{
    if s.len() == 0 {
        0
    } else if is_whitespace_char(s.last()) {
        1 + trailing_ws(s.drop_last())
    } else {
        0
    }
}

/// `str::trim`: `s` without its leading and trailing whitespace.
pub open spec fn trim_seq(s: Seq<char>) -> Seq<char> {
    if leading_ws(s) >= s.len() {
        Seq::empty()
    } else {
        s.subrange(leading_ws(s) as int, s.len() - trailing_ws(s))
    }
}

/// Two names are the same process name when they agree after trimming and
/// ASCII case folding.
pub open spec fn same_name_seq(left: Seq<char>, right: Seq<char>) -> bool {
    lower_seq(trim_seq(left)) == lower_seq(trim_seq(right))
}

pub proof fn lemma_leading_ws(s: Seq<char>, i: int)
    requires
        0 <= i <= s.len(),
        forall|j: int| 0 <= j < i ==> is_whitespace_char(#[trigger] s[j]),
        i == s.len() || !is_whitespace_char(s[i]),
    ensures
        leading_ws(s) == i,
    decreases i,
{
    if i > 0 {
        assert(is_whitespace_char(s[0]));
        let t = s.drop_first();
        assert forall|j: int| 0 <= j < i - 1 implies is_whitespace_char(#[trigger] t[j]) by {
            assert(t[j] == s[j + 1]);
        }
        if i - 1 < t.len() {
            assert(t[i - 1] == s[i]);
        }
        lemma_leading_ws(t, i - 1);
    }
}

pub proof fn lemma_trailing_ws(s: Seq<char>, k: int)
    requires
        0 <= k <= s.len(),
        forall|j: int| s.len() - k <= j < s.len() ==> is_whitespace_char(#[trigger] s[j]),
        k == s.len() || !is_whitespace_char(s[s.len() - k - 1]),
    ensures
        trailing_ws(s) == k,
    decreases k,
{
    if k > 0 {
        assert(is_whitespace_char(s[s.len() - 1]));
        let t = s.drop_last();
        assert forall|j: int| t.len() - (k - 1) <= j < t.len() implies is_whitespace_char(
            #[trigger] t[j],
        ) by {
            assert(t[j] == s[j]);
        }
        if k - 1 < t.len() {
            assert(t[t.len() - (k - 1) - 1] == s[s.len() - k - 1]);
        }
        lemma_trailing_ws(t, k - 1);
    }
}

/// `char::is_whitespace`.
pub fn is_whitespace(c: char) -> (r: bool)
    ensures
        r == is_whitespace_char(c),
{
    let v = c as u32;
    (0x09 <= v && v <= 0x0D) || v == 0x20 || v == 0x85 || v == 0xA0 || v == 0x1680 || (0x2000
        <= v && v <= 0x200A) || v == 0x2028 || v == 0x2029 || v == 0x202F || v == 0x205F || v
        == 0x3000
}

/// `char::to_ascii_lowercase`.
pub fn to_lower_char(c: char) -> (r: char)
    ensures
        r == ascii_lower(c),
{
    let v = c as u32;
    if 65 <= v && v <= 90 {
        let b = (v + 32) as u8;
        b as char
    } else {
        c
    }
}

/// Appends one character to a string.
///
/// Calls `String::push`, which std documents as appending the character to
/// the end of the string.
#[verifier::external_body]
pub(crate) fn push_char(s: &mut String, c: char)
    ensures
        final(s)@ == old(s)@.push(c),
{
    s.push(c);
}

/// `str::trim`.
pub fn trim(s: &str) -> (r: &str)
    ensures
        r@ == trim_seq(s@),
{
    let n = s.unicode_len();
    let mut start: usize = 0;
    while start < n
        invariant
            n == s@.len(),
            start <= n,
            forall|j: int| 0 <= j < start ==> is_whitespace_char(#[trigger] s@[j]),
        ensures
            start <= n,
            forall|j: int| 0 <= j < start ==> is_whitespace_char(#[trigger] s@[j]),
            start == n || !is_whitespace_char(s@[start as int]),
        decreases n - start,
    {
        if !is_whitespace(s.get_char(start)) {
            break;
        }
        start = start + 1;
    }
    proof {
        lemma_leading_ws(s@, start as int);
    }
    if start == n {
        return s.substring_char(n, n);
    }
    let mut end: usize = n;
    while end > start + 1
        invariant
            n == s@.len(),
            start < end <= n,
            !is_whitespace_char(s@[start as int]),
            forall|j: int| end <= j < n ==> is_whitespace_char(#[trigger] s@[j]),
        ensures
            start < end <= n,
            forall|j: int| end <= j < n ==> is_whitespace_char(#[trigger] s@[j]),
            !is_whitespace_char(s@[end - 1]),
        decreases end,
    {
        if !is_whitespace(s.get_char(end - 1)) {
            break;
        }
        end = end - 1;
    }
    proof {
        lemma_trailing_ws(s@, (n - end) as int);
    }
    s.substring_char(start, end)
}

/// `str::to_ascii_lowercase`.
pub fn to_ascii_lowercase(s: &str) -> (r: String)
    ensures
        r@ == lower_seq(s@),
{
    let n = s.unicode_len();
    let mut out = String::new();
    let mut i: usize = 0;
    while i < n
        invariant
            n == s@.len(),
            i <= n,
            out@ == lower_seq(s@.subrange(0, i as int)),
        decreases n - i,
    {
        let c = to_lower_char(s.get_char(i));
        push_char(&mut out, c);
        i = i + 1;
        assert(out@ =~= lower_seq(s@.subrange(0, i as int)));
    }
    assert(s@.subrange(0, n as int) =~= s@);
    out
}

/// `str::eq_ignore_ascii_case`.
pub fn eq_ignore_ascii_case(a: &str, b: &str) -> (r: bool)
    ensures
        r == (lower_seq(a@) == lower_seq(b@)),
{
    let n = a.unicode_len();
    let m = b.unicode_len();
    if n != m {
        proof {
            assert(lower_seq(a@).len() != lower_seq(b@).len());
        }
        return false;
    }
    let mut i: usize = 0;
    while i < n
        invariant
            n == a@.len(),
            n == b@.len(),
            i <= n,
            forall|j: int| 0 <= j < i ==> ascii_lower(#[trigger] a@[j]) == ascii_lower(b@[j]),
        decreases n - i,
    {
        if to_lower_char(a.get_char(i)) != to_lower_char(b.get_char(i)) {
            proof {
                assert(lower_seq(a@)[i as int] != lower_seq(b@)[i as int]);
            }
            return false;
        }
        i = i + 1;
    }
    assert(lower_seq(a@) =~= lower_seq(b@));
    true
}

/// `str::strip_prefix` with a string pattern: the rest of `s` after
/// `prefix`, when `s` starts with it.
pub fn strip_prefix<'a>(s: &'a str, prefix: &str) -> (r: Option<&'a str>)
    ensures
        match r {
            Some(rest) => s@.len() >= prefix@.len() && s@.subrange(0, prefix@.len() as int)
                == prefix@ && rest@ == s@.subrange(prefix@.len() as int, s@.len() as int),
            None => !(s@.len() >= prefix@.len() && s@.subrange(0, prefix@.len() as int)
                == prefix@),
        },
{
    let n = s.unicode_len();
    let m = prefix.unicode_len();
    if m > n {
        return None;
    }
    let mut i: usize = 0;
    while i < m
        invariant
            n == s@.len(),
            m == prefix@.len(),
            m <= n,
            i <= m,
            forall|j: int| 0 <= j < i ==> #[trigger] s@[j] == prefix@[j],
        decreases m - i,
    {
        if s.get_char(i) != prefix.get_char(i) {
            assert(s@.subrange(0, m as int)[i as int] != prefix@[i as int]);
            return None;
        }
        i = i + 1;
    }
    assert(s@.subrange(0, m as int) =~= prefix@);
    Some(s.substring_char(m, n))
}

/// Lexicographic order on character sequences by code point, which is the
/// byte order of their UTF-8 encodings (the order of `String`).
pub open spec fn lex_lt(a: Seq<char>, b: Seq<char>) -> bool
    decreases a.len(),
{
    if a.len() == 0 {
        b.len() > 0
    } else if b.len() == 0 {
        false
    } else if a[0] != b[0] {
        (a[0] as u32) < (b[0] as u32)
    } else {
        lex_lt(a.drop_first(), b.drop_first())
    }
}

pub proof fn lemma_lex_irreflexive(a: Seq<char>)
    ensures
        !lex_lt(a, a),
    decreases a.len(),
{
    if a.len() > 0 {
        lemma_lex_irreflexive(a.drop_first());
    }
}

pub proof fn lemma_lex_transitive(a: Seq<char>, b: Seq<char>, c: Seq<char>)
    requires
        lex_lt(a, b),
        lex_lt(b, c),
    ensures
        lex_lt(a, c),
    decreases a.len(),
{
    if a.len() > 0 && b.len() > 0 && c.len() > 0 {
        if a[0] == b[0] && b[0] == c[0] {
            lemma_lex_transitive(a.drop_first(), b.drop_first(), c.drop_first());
        }
    }
}

pub proof fn lemma_lex_total(a: Seq<char>, b: Seq<char>)
    ensures
        a == b || lex_lt(a, b) || lex_lt(b, a),
    decreases a.len(),
{
    if a.len() > 0 && b.len() > 0 {
        if a[0] == b[0] {
            lemma_lex_total(a.drop_first(), b.drop_first());
            if a.drop_first() == b.drop_first() {
                assert(a =~= seq![a[0]] + a.drop_first());
                assert(b =~= seq![b[0]] + b.drop_first());
            }
        } else {
            vstd::utf8::char_u32_cast(a[0], a[0] as u32);
            vstd::utf8::char_u32_cast(b[0], b[0] as u32);
            assert((a[0] as u32) != (b[0] as u32));
        }
    } else if a.len() == 0 && b.len() == 0 {
        assert(a =~= b);
    }
}

pub proof fn lemma_lex_asymmetric(a: Seq<char>, b: Seq<char>)
    requires
        lex_lt(a, b),
    ensures
        !lex_lt(b, a),
{
    if lex_lt(b, a) {
        lemma_lex_transitive(a, b, a);
        lemma_lex_irreflexive(a);
    }
}

proof fn lemma_lex_skip(a: Seq<char>, b: Seq<char>, i: int)
    requires
        0 <= i <= a.len(),
        i <= b.len(),
        a.subrange(0, i) == b.subrange(0, i),
    ensures
        lex_lt(a, b) == lex_lt(a.subrange(i, a.len() as int), b.subrange(i, b.len() as int)),
    decreases i,
{
    if i > 0 {
        assert(a[0] == a.subrange(0, i)[0]);
        assert(b[0] == b.subrange(0, i)[0]);
        let a1 = a.drop_first();
        let b1 = b.drop_first();
        assert(a1.subrange(0, i - 1) =~= a.subrange(0, i).drop_first());
        assert(b1.subrange(0, i - 1) =~= b.subrange(0, i).drop_first());
        lemma_lex_skip(a1, b1, i - 1);
        assert(a1.subrange(i - 1, a1.len() as int) =~= a.subrange(i, a.len() as int));
        assert(b1.subrange(i - 1, b1.len() as int) =~= b.subrange(i, b.len() as int));
    } else {
        assert(a.subrange(0, a.len() as int) =~= a);
        assert(b.subrange(0, b.len() as int) =~= b);
    }
}

/// `a < b` for strings.
pub fn str_lt(a: &str, b: &str) -> (r: bool)
    ensures
        r == lex_lt(a@, b@),
{
    let n = a.unicode_len();
    let m = b.unicode_len();
    let mut i: usize = 0;
    while i < n && i < m
        invariant
            n == a@.len(),
            m == b@.len(),
            i <= n,
            i <= m,
            a@.subrange(0, i as int) == b@.subrange(0, i as int),
        decreases n - i,
    {
        let x = a.get_char(i);
        let y = b.get_char(i);
        if x != y {
            proof {
                lemma_lex_skip(a@, b@, i as int);
                let ar = a@.subrange(i as int, n as int);
                let br = b@.subrange(i as int, m as int);
                assert(ar[0] == x && br[0] == y);
            }
            return (x as u32) < (y as u32);
        }
        assert(a@.subrange(0, i + 1) =~= a@.subrange(0, i as int).push(x));
        assert(b@.subrange(0, i + 1) =~= b@.subrange(0, i as int).push(y));
        i = i + 1;
    }
    proof {
        lemma_lex_skip(a@, b@, i as int);
    }
    i == n && i < m
}

/// A sequence of strings in strictly increasing order.
pub open spec fn strictly_sorted(keys: Seq<Seq<char>>) -> bool {
    forall|i: int, j: int| 0 <= i < j < keys.len() ==> lex_lt(#[trigger] keys[i], #[trigger] keys[j])
}

pub open spec fn string_views(v: Seq<String>) -> Seq<Seq<char>> {
    Seq::new(v.len(), |i: int| v[i]@)
}

/// Inserting a key at its sorted position keeps a sequence strictly sorted.
pub proof fn lemma_insert_sorted(s: Seq<Seq<char>>, pos: int, k: Seq<char>)
    requires
        strictly_sorted(s),
        0 <= pos <= s.len(),
        forall|j: int| 0 <= j < pos ==> lex_lt(#[trigger] s[j], k),
        forall|j: int| pos <= j < s.len() ==> lex_lt(k, #[trigger] s[j]),
    ensures
        strictly_sorted(s.insert(pos, k)),
{
    let t = s.insert(pos, k);
    assert forall|a: int, b: int| 0 <= a < b < t.len() implies lex_lt(#[trigger] t[a], #[trigger] t[b]) by {
        if b < pos {
            assert(t[a] == s[a] && t[b] == s[b]);
        } else if b == pos {
            assert(t[a] == s[a] && t[b] == k);
        } else if a < pos {
            assert(t[a] == s[a] && t[b] == s[b - 1]);
        } else if a == pos {
            assert(t[a] == k && t[b] == s[b - 1]);
        } else {
            assert(t[a] == s[a - 1] && t[b] == s[b - 1]);
        }
    }
}

/// Where `k` stands in the sorted `keys`: the index of the first key that is
/// not less than `k`, and whether that key is `k`.
pub fn sorted_position(keys: &Vec<String>, k: &str) -> (r: (usize, bool))
    requires
        strictly_sorted(string_views(keys@)),
    ensures
        r.0 <= keys@.len(),
        forall|j: int| 0 <= j < r.0 ==> lex_lt(#[trigger] keys@[j]@, k@),
        r.1 ==> r.0 < keys@.len() && keys@[r.0 as int]@ == k@,
        !r.1 ==> forall|j: int| r.0 <= j < keys@.len() ==> lex_lt(k@, #[trigger] keys@[j]@),
        !r.1 ==> forall|j: int| 0 <= j < keys@.len() ==> #[trigger] keys@[j]@ != k@,
{
    let mut i: usize = 0;
    while i < keys.len()
        invariant
            strictly_sorted(string_views(keys@)),
            i <= keys@.len(),
            forall|j: int| 0 <= j < i ==> lex_lt(#[trigger] keys@[j]@, k@),
        decreases keys@.len() - i,
    {
        if !str_lt(keys[i].as_str(), k) {
            proof {
                lemma_lex_total(keys@[i as int]@, k@);
            }
            if str_eq(keys[i].as_str(), k) {
                return (i, true);
            }
            proof {
                assert forall|j: int| i <= j < keys@.len() implies lex_lt(k@, #[trigger] keys@[j]@) by {
                    if j > i {
                        assert(string_views(keys@)[i as int] == keys@[i as int]@);
                        assert(string_views(keys@)[j] == keys@[j]@);
                        lemma_lex_transitive(k@, keys@[i as int]@, keys@[j]@);
                    }
                }
                assert forall|j: int| 0 <= j < keys@.len() implies #[trigger] keys@[j]@ != k@ by {
                    if j < i {
                        lemma_lex_irreflexive(k@);
                    } else {
                        lemma_lex_irreflexive(k@);
                    }
                }
            }
            return (i, false);
        }
        i = i + 1;
    }
    proof {
        assert forall|j: int| 0 <= j < keys@.len() implies #[trigger] keys@[j]@ != k@ by {
            lemma_lex_irreflexive(k@);
        }
    }
    (i, false)
}

/// Adds `k` to a set of strings kept as a strictly sorted vector.
pub fn insert_sorted_unique(set: &mut Vec<String>, k: &str) -> (added: bool)
    requires
        strictly_sorted(string_views(old(set)@)),
    ensures
        strictly_sorted(string_views(final(set)@)),
        string_views(final(set)@).to_set() == string_views(old(set)@).to_set().insert(k@),
        added == !string_views(old(set)@).to_set().contains(k@),
{
    let ghost before = string_views(set@);
    let (pos, found) = sorted_position(set, k);
    if !found {
        proof {
            assert forall|j: int| 0 <= j < pos implies lex_lt(#[trigger] before[j], k@) by {
                assert(before[j] == set@[j]@);
            }
            assert forall|j: int| pos <= j < before.len() implies lex_lt(k@, #[trigger] before[j]) by {
                assert(before[j] == set@[j]@);
            }
            lemma_insert_sorted(before, pos as int, k@);
        }
        set.insert(pos, k.to_owned());
        assert(string_views(set@) =~= before.insert(pos as int, k@));
        assert forall|x: Seq<char>| #[trigger] string_views(set@).contains(x) <==> before.contains(x) || x == k@ by {
            let after = before.insert(pos as int, k@);
            if after.contains(x) {
                let i = choose|i: int| 0 <= i < after.len() && after[i] == x;
                if i < pos {
                    assert(before[i] == x);
                } else if i > pos {
                    assert(before[i - 1] == x);
                }
            }
            if before.contains(x) {
                let i = choose|i: int| 0 <= i < before.len() && before[i] == x;
                if i < pos {
                    assert(after[i] == x);
                } else {
                    assert(after[i + 1] == x);
                }
            }
            if x == k@ {
                assert(after[pos as int] == x);
            }
        }
        assert(string_views(set@).to_set() =~= before.to_set().insert(k@));
        assert forall|j: int| 0 <= j < before.len() implies before[j] != k@ by {
            assert(before[j] == old(set)@[j]@);
        }
        true
    } else {
        assert(before[pos as int] == k@);
        assert(before.to_set() =~= before.to_set().insert(k@));
        false
    }
}

/// Takes `k` out of a set of strings kept as a strictly sorted vector;
/// whether it was there.
pub fn remove_sorted(set: &mut Vec<String>, k: &str) -> (removed: bool)
    requires
        strictly_sorted(string_views(old(set)@)),
    ensures
        strictly_sorted(string_views(final(set)@)),
        string_views(final(set)@).to_set() == string_views(old(set)@).to_set().remove(k@),
        removed == string_views(old(set)@).to_set().contains(k@),
{
    let ghost before = string_views(set@);
    let (pos, found) = sorted_position(set, k);
    if found {
        let _ = set.remove(pos);
        let ghost after = string_views(set@);
        proof {
            assert(after =~= before.remove(pos as int));
            assert forall|a: int, b: int| 0 <= a < b < after.len() implies lex_lt(#[trigger] after[a], #[trigger] after[b]) by {
                if b < pos {
                    assert(after[a] == before[a] && after[b] == before[b]);
                } else if a < pos {
                    assert(after[a] == before[a] && after[b] == before[b + 1]);
                } else {
                    assert(after[a] == before[a + 1] && after[b] == before[b + 1]);
                }
            }
            assert forall|j: int| 0 <= j < before.len() && j != pos implies before[j] != k@ by {
                if j < pos {
                    assert(before[j] == old(set)@[j]@);
                    assert(lex_lt(before[j], k@));
                    lemma_lex_irreflexive(k@);
                } else {
                    assert(lex_lt(before[pos as int], before[j]));
                    lemma_lex_irreflexive(k@);
                }
            }
            assert forall|x: Seq<char>| #[trigger] after.to_set().contains(x) <==> before.to_set().remove(k@).contains(x) by {
                if after.contains(x) {
                    let i = choose|i: int| 0 <= i < after.len() && after[i] == x;
                    if i < pos {
                        assert(before[i] == x);
                    } else {
                        assert(before[i + 1] == x);
                    }
                }
                if before.contains(x) && x != k@ {
                    let i = choose|i: int| 0 <= i < before.len() && before[i] == x;
                    if i < pos {
                        assert(after[i] == x);
                    } else {
                        assert(i != pos);
                        assert(after[i - 1] == x);
                    }
                }
            }
            assert(after.to_set() =~= before.to_set().remove(k@));
            assert(before[pos as int] == k@);
        }
        true
    } else {
        proof {
            assert forall|j: int| 0 <= j < before.len() implies before[j] != k@ by {
                assert(before[j] == set@[j]@);
            }
            assert(before.to_set() =~= before.to_set().remove(k@));
        }
        false
    }
}

/// Character-sequence equality of two strings.
pub fn str_eq(a: &str, b: &str) -> (r: bool)
    ensures
        r == (a@ == b@),
{
    let n = a.unicode_len();
    let m = b.unicode_len();
    if n != m {
        return false;
    }
    let mut i: usize = 0;
    while i < n
        invariant
            n == a@.len(),
            n == b@.len(),
            i <= n,
            forall|j: int| 0 <= j < i ==> #[trigger] a@[j] == b@[j],
        decreases n - i,
    {
        if a.get_char(i) != b.get_char(i) {
            return false;
        }
        i = i + 1;
    }
    assert(a@ =~= b@);
    true
}

/// Whether `c` occurs in `s` (`str::contains` with a `char` pattern).
pub fn contains_char(s: &str, c: char) -> (r: bool)
    ensures
        r == s@.contains(c),
{
    let n = s.unicode_len();
    let mut i: usize = 0;
    while i < n
        invariant
            n == s@.len(),
            i <= n,
            forall|j: int| 0 <= j < i ==> #[trigger] s@[j] != c,
        decreases n - i,
    {
        if s.get_char(i) == c {
            assert(s@[i as int] == c);
            return true;
        }
        i = i + 1;
    }
    false
}

/// Trimmed, ASCII-case-insensitive name equality.
pub fn same_name(left: &str, right: &str) -> (r: bool)
    ensures
        r == same_name_seq(left@, right@),
{
    eq_ignore_ascii_case(trim(left), trim(right))
}

/// The decimal digit character for `d < 10`.
pub open spec fn digit_char(d: nat) -> char {
    ((48 + d) as u8) as char
}

/// The decimal rendering of `n` (as `format!("{n}")`).
pub open spec fn decimal(n: nat) -> Seq<char>
    decreases n,
{
    if n < 10 {
        seq![digit_char(n)]
    } else {
        decimal(n / 10).push(digit_char(n % 10))
    }
}

/// Appends the decimal rendering of `n`.
pub fn push_decimal(s: &mut String, n: u64)
    ensures
        final(s)@ == old(s)@ + decimal(n as nat),
    decreases n,
{
    if n >= 10 {
        push_decimal(s, n / 10);
    }
    let d = (48 + n % 10) as u8;
    push_char(s, d as char);
    assert(final(s)@ =~= old(s)@ + decimal(n as nat)) by {
        if n >= 10 {
            assert(decimal(n as nat) == decimal((n / 10) as nat).push(digit_char((n % 10) as nat)));
        }
    }
}

/// The decimal rendering of `n`.
pub fn decimal_string(n: u64) -> (r: String)
    ensures
        r@ == decimal(n as nat),
{
    let mut s = String::new();
    push_decimal(&mut s, n);
    assert(s@ =~= decimal(n as nat));
    s
}

/// The upper-case hexadecimal digit character for `d < 16`.
pub open spec fn hex_digit_upper(d: nat) -> char {
    if d < 10 {
        ((48 + d) as u8) as char
    } else {
        ((55 + d) as u8) as char
    }
}

/// The lower-case hexadecimal digit character for `d < 16`.
pub open spec fn hex_digit_lower(d: nat) -> char {
    if d < 10 {
        ((48 + d) as u8) as char
    } else {
        ((87 + d) as u8) as char
    }
}

/// The `width` low hexadecimal digits of `n`, most significant first, zero
/// padded (as `{:0width$X}` / `{:0width$x}` when `n < 16^width`).
pub open spec fn hex_digits(n: nat, width: nat, upper: bool) -> Seq<char>
    decreases width,
{
    if width == 0 {
        Seq::empty()
    } else {
        hex_digits(n / 16, (width - 1) as nat, upper).push(
            if upper {
                hex_digit_upper(n % 16)
            } else {
                hex_digit_lower(n % 16)
            },
        )
    }
}

/// Appends the `width` low hexadecimal digits of `n`.
pub fn push_hex(s: &mut String, n: u64, width: u32, upper: bool)
    ensures
        final(s)@ == old(s)@ + hex_digits(n as nat, width as nat, upper),
    decreases width,
{
    if width > 0 {
        push_hex(s, n / 16, width - 1, upper);
        let d = n % 16;
        let c = if d < 10 {
            (48 + d) as u8
        } else if upper {
            (55 + d) as u8
        } else {
            (87 + d) as u8
        };
        push_char(s, c as char);
    }
    assert(final(s)@ =~= old(s)@ + hex_digits(n as nat, width as nat, upper));
}

} // verus!
