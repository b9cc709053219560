//! Text helpers over Unicode scalar values: conversion between strings and
//! character sequences, whitespace trimming, ASCII case folding, decimal
//! numbers.

use vstd::prelude::*;
use vstd::string::*;

verus! {

/// The characters of `s`, in order.
pub fn chars_of(s: &str) -> (chars: Vec<char>)
    ensures
        chars@ == s@,
{
    let n = s.unicode_len();
    let mut out: Vec<char> = Vec::new();
    let mut i: usize = 0;
    while i < n
        invariant
            n == s@.len(),
            0 <= i <= n,
            out@ == s@.subrange(0, i as int),
        decreases n - i,
    {
        out.push(s.get_char(i));
        i += 1;
        assert(out@ =~= s@.subrange(0, i as int));
    }
    assert(out@ =~= s@);
    out
}

/// `String::push`: appends one character.
#[verifier::external_body]
pub(crate) fn push_char(s: &mut String, c: char)
    ensures
        final(s)@ == old(s)@.push(c),
{
    s.push(c);
}

/// Appends the characters `chars[from..to]` to `out`.
pub fn push_range(out: &mut String, chars: &[char], from: usize, to: usize)
    requires
        from <= to <= chars@.len(),
    ensures
        final(out)@ == old(out)@ + chars@.subrange(from as int, to as int),
{
    let mut i = from;
    while i < to
        invariant
            from <= i <= to <= chars@.len(),
            out@ == old(out)@ + chars@.subrange(from as int, i as int),
        decreases to - i,
    {
        push_char(out, chars[i]);
        i += 1;
        assert(out@ =~= old(out)@ + chars@.subrange(from as int, i as int));
    }
}

/// The string made of `chars`.
pub fn string_of(chars: &[char]) -> (s: String)
    ensures
        s@ == chars@,
{
    let mut out = String::new();
    push_range(&mut out, chars, 0, chars.len());
    assert(out@ =~= chars@);
    out
}

/// A string with the characters of `s`.
pub fn owned(s: &str) -> (r: String)
    ensures
        r@ == s@,
{
    s.to_owned()
}

/// The Unicode `White_Space` property (what `char::is_whitespace` tests).
pub open spec fn spec_is_whitespace(c: char) -> bool {
    let u = c as u32;
    ||| (0x9 <= u <= 0xd)
    ||| u == 0x20
    ||| u == 0x85
    ||| u == 0xa0
    ||| u == 0x1680
    ||| (0x2000 <= u <= 0x200a)
    ||| u == 0x2028
    ||| u == 0x2029
    ||| u == 0x202f
    ||| u == 0x205f
    ||| u == 0x3000
}

pub fn is_whitespace(c: char) -> (ws: bool)
    ensures
        ws == spec_is_whitespace(c),
{
    let u = c as u32;
    (0x9 <= u && u <= 0xd) || u == 0x20 || u == 0x85 || u == 0xa0 || u == 0x1680 || (0x2000 <= u
        && u <= 0x200a) || u == 0x2028 || u == 0x2029 || u == 0x202f || u == 0x205f || u == 0x3000
}

/// Number of leading whitespace characters.
pub open spec fn leading_ws(s: Seq<char>) -> nat
    decreases s.len(),
{
    if s.len() > 0 && spec_is_whitespace(s[0]) {
        1 + leading_ws(s.drop_first())
    } else {
        0
    }
}

/// Number of trailing whitespace characters.
pub open spec fn trailing_ws(s: Seq<char>) -> nat
    decreases s.len(),
{
    if s.len() > 0 && spec_is_whitespace(s.last()) {
        1 + trailing_ws(s.drop_last())
    } else {
        0
    }
}

/// `s` without leading and trailing whitespace (`str::trim`).
pub open spec fn spec_trim(s: Seq<char>) -> Seq<char> {
    let t = s.subrange(leading_ws(s) as int, s.len() as int);
    t.subrange(0, t.len() - trailing_ws(t))
}

proof fn lemma_leading_ws(s: Seq<char>)
    ensures
        leading_ws(s) <= s.len(),
        forall|k: int| 0 <= k < leading_ws(s) ==> spec_is_whitespace(#[trigger] s[k]),
        leading_ws(s) < s.len() ==> !spec_is_whitespace(s[leading_ws(s) as int]),
    decreases s.len(),
{
    if s.len() > 0 && spec_is_whitespace(s[0]) {
        lemma_leading_ws(s.drop_first());
        assert forall|k: int| 0 <= k < leading_ws(s) implies spec_is_whitespace(#[trigger] s[k]) by {
            if k > 0 {
                assert(s[k] == s.drop_first()[k - 1]);
            }
        }
    }
}

proof fn lemma_trailing_ws(s: Seq<char>)
    ensures
        trailing_ws(s) <= s.len(),
        forall|k: int|
            s.len() - trailing_ws(s) <= k < s.len() ==> spec_is_whitespace(#[trigger] s[k]),
        trailing_ws(s) < s.len() ==> !spec_is_whitespace(s[s.len() - trailing_ws(s) - 1]),
    decreases s.len(),
{
    if s.len() > 0 && spec_is_whitespace(s.last()) {
        lemma_trailing_ws(s.drop_last());
        assert forall|k: int| s.len() - trailing_ws(s) <= k < s.len() implies spec_is_whitespace(
            #[trigger] s[k],
        ) by {
            if k < s.len() - 1 {
                assert(s[k] == s.drop_last()[k]);
            }
        }
    }
}

/// Leading whitespace is what the scan from the front skips.
proof fn lemma_leading_ws_unique(s: Seq<char>, a: int)
    requires
        0 <= a <= s.len(),
        forall|k: int| 0 <= k < a ==> spec_is_whitespace(#[trigger] s[k]),
        a < s.len() ==> !spec_is_whitespace(s[a]),
    ensures
        leading_ws(s) == a,
    decreases s.len(),
{
    if a > 0 {
        assert(spec_is_whitespace(s[0]));
        lemma_leading_ws_unique(s.drop_first(), a - 1);
    } else if s.len() > 0 {
    }
}

proof fn lemma_trailing_ws_unique(s: Seq<char>, b: int)
    requires
        0 <= b <= s.len(),
        forall|k: int| b <= k < s.len() ==> spec_is_whitespace(#[trigger] s[k]),
        b > 0 ==> !spec_is_whitespace(s[b - 1]),
    ensures
        trailing_ws(s) == s.len() - b,
    decreases s.len(),
{
    if b < s.len() {
        assert(spec_is_whitespace(s[s.len() - 1]));
        assert forall|k: int| b <= k < s.drop_last().len() implies spec_is_whitespace(
            #[trigger] s.drop_last()[k],
        ) by {
            assert(s.drop_last()[k] == s[k]);
        }
        if b > 0 {
            assert(s.drop_last()[b - 1] == s[b - 1]);
        }
        lemma_trailing_ws_unique(s.drop_last(), b);
    }
}

/// Bounds `(a, b)` of the text that `str::trim` keeps.
pub fn trim_bounds(s: &[char]) -> (r: (usize, usize))
    ensures
        r.0 <= r.1 <= s@.len(),
        s@.subrange(r.0 as int, r.1 as int) == spec_trim(s@),
{
    let n = s.len();
    let mut a: usize = 0;
    while a < n && is_whitespace(s[a])
        invariant
            n == s@.len(),
            0 <= a <= n,
            forall|k: int| 0 <= k < a ==> spec_is_whitespace(#[trigger] s@[k]),
        decreases n - a,
    {
        a += 1;
    }
    let mut b: usize = n;
    while b > a && is_whitespace(s[b - 1])
        invariant
            n == s@.len(),
            0 <= a <= b <= n,
            forall|k: int| b <= k < n ==> spec_is_whitespace(#[trigger] s@[k]),
        decreases b - a,
    {
        b -= 1;
    }
    proof {
        lemma_leading_ws_unique(s@, a as int);
        let t = s@.subrange(a as int, n as int);
        assert forall|k: int| b - a <= k < t.len() implies spec_is_whitespace(#[trigger] t[k]) by {
            assert(t[k] == s@[a + k]);
        }
        if b > a {
            assert(t[b - a - 1] == s@[b - 1]);
        }
        lemma_trailing_ws_unique(t, b - a);
        assert(t.subrange(0, t.len() - trailing_ws(t)) =~= s@.subrange(a as int, b as int));
    }
    (a, b)
}

/// The characters of `s` without leading and trailing whitespace.
pub fn trim_chars(s: &[char]) -> (t: Vec<char>)
    ensures
        t@ == spec_trim(s@),
{
    let (a, b) = trim_bounds(s);
    let mut out: Vec<char> = Vec::new();
    let mut i = a;
    while i < b
        invariant
            a <= i <= b <= s@.len(),
            out@ == s@.subrange(a as int, i as int),
        decreases b - i,
    {
        out.push(s[i]);
        i += 1;
        assert(out@ =~= s@.subrange(a as int, i as int));
    }
    out
}

/// `str::trim` on an owned string.
pub fn trim_string(s: &str) -> (t: String)
    ensures
        t@ == spec_trim(s@),
{
    let chars = chars_of(s);
    let (a, b) = trim_bounds(chars.as_slice());
    let mut out = String::new();
    push_range(&mut out, chars.as_slice(), a, b);
    assert(out@ =~= spec_trim(s@));
    out
}

pub open spec fn spec_ascii_lower(c: char) -> char {
    if 'A' <= c <= 'Z' {
        ((c as u32) + 32) as char
    } else {
        c
    }
}

/// `char::to_ascii_lowercase`.
pub fn ascii_lower(c: char) -> (l: char)
    ensures
        l == spec_ascii_lower(c),
{
    if 'A' <= c && c <= 'Z' {
        let u = (c as u32) + 32;
        assert(0x61 <= u <= 0x7a);
        u as u8 as char
    } else {
        c
    }
}

/// `str::to_ascii_lowercase` over characters.
pub fn ascii_lower_chars(s: &[char]) -> (l: Vec<char>)
    ensures
        l@ == s@.map_values(|c: char| spec_ascii_lower(c)),
{
    let mut out: Vec<char> = Vec::new();
    let mut i: usize = 0;
    while i < s.len()
        invariant
            0 <= i <= s@.len(),
            out@ == s@.subrange(0, i as int).map_values(|c: char| spec_ascii_lower(c)),
        decreases s@.len() - i,
    {
        out.push(ascii_lower(s[i]));
        i += 1;
        assert(out@ =~= s@.subrange(0, i as int).map_values(|c: char| spec_ascii_lower(c)));
    }
    assert(s@.subrange(0, s@.len() as int) =~= s@);
    out
}

/// Whether the characters are equal as sequences.
pub fn chars_eq(a: &[char], b: &[char]) -> (eq: bool)
    ensures
        eq == (a@ == b@),
{
    if a.len() != b.len() {
        return false;
    }
    let mut i: usize = 0;
    while i < a.len()
        invariant
            a@.len() == b@.len(),
            0 <= i <= a@.len(),
            forall|k: int| 0 <= k < i ==> a@[k] == b@[k],
        decreases a@.len() - i,
    {
        if a[i] != b[i] {
            return false;
        }
        i += 1;
    }
    assert(a@ =~= b@);
    true
}

/// Whether `s` equals the literal `lit`.
pub fn eq_str(s: &[char], lit: &str) -> (eq: bool)
    ensures
        eq == (s@ == lit@),
{
    let l = chars_of(lit);
    chars_eq(s, l.as_slice())
}

/// Whether `s` contains the character `c`.
pub fn contains_char(s: &[char], c: char) -> (found: bool)
    ensures
        found == s@.contains(c),
{
    let mut i: usize = 0;
    while i < s.len()
        invariant
            0 <= i <= s@.len(),
            forall|k: int| 0 <= k < i ==> s@[k] != c,
        decreases s@.len() - i,
    {
        if s[i] == c {
            assert(s@[i as int] == c);
            return true;
        }
        i += 1;
    }
    false
}

/// Whether `s` starts with `p`.
pub open spec fn spec_starts_with(s: Seq<char>, p: Seq<char>) -> bool {
    p.len() <= s.len() && s.subrange(0, p.len() as int) == p
}

pub open spec fn spec_ends_with(s: Seq<char>, p: Seq<char>) -> bool {
    p.len() <= s.len() && s.subrange(s.len() - p.len(), s.len() as int) == p
}

pub fn starts_with(s: &[char], p: &[char]) -> (yes: bool)
    ensures
        yes == spec_starts_with(s@, p@),
{
    if p.len() > s.len() {
        return false;
    }
    let mut i: usize = 0;
    while i < p.len()
        invariant
            p@.len() <= s@.len(),
            0 <= i <= p@.len(),
            forall|k: int| 0 <= k < i ==> s@[k] == p@[k],
        decreases p@.len() - i,
    {
        if s[i] != p[i] {
            assert(s@.subrange(0, p@.len() as int)[i as int] != p@[i as int]);
            return false;
        }
        i += 1;
    }
    assert(s@.subrange(0, p@.len() as int) =~= p@);
    true
}

/// Whether `s` ends with `p`.
pub fn ends_with(s: &[char], p: &[char]) -> (yes: bool)
    ensures
        yes == spec_ends_with(s@, p@),
{
    if p.len() > s.len() {
        return false;
    }
    let sl = s.len();
    let off = sl - p.len();
    let mut i: usize = 0;
    while i < p.len()
        invariant
            sl == s@.len(),
            p@.len() <= s@.len(),
            off == s@.len() - p@.len(),
            off + p@.len() == s@.len(),
            0 <= i <= p@.len(),
            forall|k: int| 0 <= k < i ==> s@[off + k] == p@[k],
        decreases p@.len() - i,
    {
        if s[off + i] != p[i] {
            assert(s@.subrange(off as int, s@.len() as int)[i as int] != p@[i as int]);
            return false;
        }
        i += 1;
    }
    assert(s@.subrange(off as int, s@.len() as int) =~= p@);
    true
}

/// Whether `s` starts with the literal `lit`.
pub fn starts_with_str(s: &[char], lit: &str) -> (yes: bool)
    ensures
        yes == spec_starts_with(s@, lit@),
{
    let l = chars_of(lit);
    starts_with(s, l.as_slice())
}

/// Whether `s` ends with the literal `lit`.
pub fn ends_with_str(s: &[char], lit: &str) -> (yes: bool)
    ensures
        yes == spec_ends_with(s@, lit@),
{
    let l = chars_of(lit);
    ends_with(s, l.as_slice())
}

/// Whether `p` occurs in `s` as a contiguous run.
pub open spec fn spec_contains_seq(s: Seq<char>, p: Seq<char>) -> bool {
    exists|i: int| 0 <= i && i + p.len() <= s.len() && #[trigger] s.subrange(i, i + p.len()) == p
}

/// Whether `s` holds the literal `lit` as a contiguous run.
pub fn contains_str(s: &[char], lit: &str) -> (found: bool)
    ensures
        found == spec_contains_seq(s@, lit@),
{
    let p = chars_of(lit);
    if p.len() > s.len() {
        return false;
    }
    if p.len() == 0 {
        assert(s@.subrange(0, 0 + p@.len() as int) =~= p@);
        assert(spec_contains_seq(s@, lit@));
        return true;
    }
    let last = s.len() - p.len();
    let mut i: usize = 0;
    while i <= last
        invariant
            p@ == lit@,
            p@.len() > 0,
            s@.len() <= usize::MAX,
            last + p@.len() == s@.len(),
            0 <= i <= last + 1,
            forall|k: int| 0 <= k < i ==> #[trigger] s@.subrange(k, k + p@.len()) != p@,
        decreases last + 1 - i,
    {
        let mut j: usize = 0;
        let mut same = true;
        while j < p.len()
            invariant
                p@ == lit@,
                s@.len() <= usize::MAX,
                last + p@.len() == s@.len(),
                0 <= i <= last,
                0 <= j <= p@.len(),
                same == forall|m: int| 0 <= m < j ==> s@[i + m] == p@[m],
            decreases p@.len() - j,
        {
            if s[i + j] != p[j] {
                same = false;
            }
            j += 1;
        }
        if same {
            assert(s@.subrange(i as int, i + p@.len()) =~= p@);
            return true;
        }
        assert(s@.subrange(i as int, i + p@.len()) != p@) by {
            let m = choose|m: int| 0 <= m < p@.len() && s@[i + m] != p@[m];
            assert(s@.subrange(i as int, i + p@.len())[m] == s@[i + m]);
        }
        i += 1;
    }
    false
}

/// Value of a decimal digit.
pub open spec fn dec_digit(c: char) -> Option<nat> {
    if '0' <= c <= '9' {
        Some(((c as u32) - 48) as nat)
    } else {
        None
    }
}

pub open spec fn all_dec(d: Seq<char>) -> bool {
    forall|i: int| 0 <= i < d.len() ==> (#[trigger] dec_digit(d[i])) is Some
}

/// Value of a string of decimal digits.
pub open spec fn dec_value(d: Seq<char>) -> nat
    decreases d.len(),
{
    if d.len() == 0 {
        0
    } else {
        dec_value(d.drop_last()) * 10 + match dec_digit(d.last()) {
            Some(v) => v,
            None => 0,
        }
    }
}

/// `u16::from_str`: an optional `+` followed by at least one decimal digit,
/// with a value below 65536.
pub open spec fn parse_u16_spec(s: Seq<char>) -> Option<u16> {
    let d = if s.len() > 1 && s[0] == '+' {
        s.drop_first()
    } else {
        s
    };
    if d.len() > 0 && all_dec(d) && dec_value(d) <= u16::MAX {
        Some(dec_value(d) as u16)
    } else {
        None
    }
}

proof fn lemma_dec_value_prefix(d: Seq<char>, k: int)
    requires
        0 <= k <= d.len(),
    ensures
        dec_value(d.subrange(0, k)) <= dec_value(d),
    decreases d.len(),
{
    if k == d.len() {
        assert(d.subrange(0, k) =~= d);
    } else {
        assert(d.drop_last().subrange(0, k) =~= d.subrange(0, k));
        lemma_dec_value_prefix(d.drop_last(), k);
    }
}

/// `u16::from_str` as an option (`parse_u16_spec`).
pub fn parse_u16(s: &[char]) -> (v: Option<u16>)
    ensures
        v == parse_u16_spec(s@),
{
    let start: usize = if s.len() > 1 && s[0] == '+' {
        1
    } else {
        0
    };
    let ghost d = s@.subrange(start as int, s@.len() as int);
    assert(d =~= (if s@.len() > 1 && s@[0] == '+' {
        s@.drop_first()
    } else {
        s@
    }));
    if start == s.len() {
        return None;
    }
    let mut v: u32 = 0;
    let mut i: usize = start;
    while i < s.len()
        invariant
            start <= i <= s@.len(),
            start < s@.len(),
            d == s@.subrange(start as int, s@.len() as int),
            d == (if s@.len() > 1 && s@[0] == '+' {
                s@.drop_first()
            } else {
                s@
            }),
            all_dec(d.subrange(0, i - start)),
            v == dec_value(d.subrange(0, i - start)),
            v <= u16::MAX,
        decreases s@.len() - i,
    {
        let ghost k = i - start;
        assert(d.subrange(0, k + 1).drop_last() =~= d.subrange(0, k));
        assert(d[k] == s@[i as int]);
        let c = s[i];
        if !('0' <= c && c <= '9') {
            assert(dec_digit(d[k]) is None);
            return None;
        }
        let x = (c as u32) - 48;
        let nv = v * 10 + x;
        if nv > 0xffff {
            proof {
                lemma_dec_value_prefix(d, k + 1);
            }
            return None;
        }
        v = nv;
        i += 1;
        assert forall|j: int| 0 <= j < k + 1 implies (#[trigger] dec_digit(d.subrange(0, k + 1)[j]))
            is Some by {
            if j < k {
                assert(d.subrange(0, k + 1)[j] == d.subrange(0, k)[j]);
            }
        }
    }
    assert(d.subrange(0, d.len() as int) =~= d);
    Some(v as u16)
}

/// UTF-16 code units of a character (`char::len_utf16`).
pub open spec fn utf16_len(c: char) -> nat {
    if (c as u32) < 0x10000 {
        1
    } else {
        2
    }
}

/// UTF-16 code units of the first `n` characters.
pub open spec fn utf16_prefix(s: Seq<char>, n: int) -> nat
    decreases n,
{
    if n <= 0 || s.len() == 0 {
        0
    } else if n > s.len() {
        utf16_prefix(s, s.len() as int)
    } else {
        utf16_prefix(s, n - 1) + utf16_len(s[n - 1])
    }
}

proof fn lemma_utf16_prefix_bound(s: Seq<char>, n: int)
    requires
        0 <= n <= s.len(),
    ensures
        n <= utf16_prefix(s, n) <= 2 * n,
    decreases n,
{
    if n > 0 {
        lemma_utf16_prefix_bound(s, n - 1);
    }
}

fn len_utf16(c: char) -> (n: usize)
    ensures
        n == utf16_len(c),
{
    if (c as u32) < 0x10000 {
        1
    } else {
        2
    }
}

/// UTF-16 offset of character index `char_idx` (the whole text when the
/// index is past the end).
pub fn char_to_utf16(text: &str, char_idx: usize) -> (u: usize)
    requires
        text@.len() <= usize::MAX / 2,
    ensures
        u == utf16_prefix(text@, if char_idx <= text@.len() {
            char_idx as int
        } else {
            text@.len() as int
        }),
{
    let chars = chars_of(text);
    let end = if char_idx <= chars.len() {
        char_idx
    } else {
        chars.len()
    };
    let mut u: usize = 0;
    let mut i: usize = 0;
    while i < end
        invariant
            chars@ == text@,
            chars@.len() <= usize::MAX / 2,
            end <= chars@.len(),
            0 <= i <= end,
            u == utf16_prefix(chars@, i as int),
        decreases end - i,
    {
        proof {
            lemma_utf16_prefix_bound(chars@, i + 1);
        }
        u = u + len_utf16(chars[i]);
        i += 1;
    }
    u
}

/// `i` is the character index of UTF-16 offset `u` in `s`: the first
/// character starting at or after `u`, or the character count.
pub open spec fn is_char_index_of(s: Seq<char>, u: int, i: int) -> bool {
    &&& 0 <= i <= s.len()
    &&& i < s.len() ==> utf16_prefix(s, i) >= u
    &&& forall|k: int| 0 <= k < i ==> #[trigger] utf16_prefix(s, k) < u
}

/// The character index of UTF-16 offset `u` in `s` (`is_char_index_of`).
pub open spec fn char_index_of(s: Seq<char>, u: int) -> int {
    choose|i: int| is_char_index_of(s, u, i)
}

/// There is at most one character index of an offset.
pub proof fn lemma_char_index_unique(s: Seq<char>, u: int, i: int)
    requires
        is_char_index_of(s, u, i),
    ensures
        char_index_of(s, u) == i,
{
    let j = char_index_of(s, u);
    assert(is_char_index_of(s, u, j));
    if j < i {
        assert(utf16_prefix(s, j) < u);
    } else if i < j {
        assert(utf16_prefix(s, i) < u);
    }
}

/// Character index of UTF-16 offset `utf16_idx`: the first character
/// boundary at or after it, or the character count.
pub fn utf16_to_char(text: &str, utf16_idx: usize) -> (i: usize)
    requires
        text@.len() <= usize::MAX / 2,
    ensures
        i <= text@.len(),
        i < text@.len() ==> utf16_prefix(text@, i as int) >= utf16_idx,
        forall|k: int| 0 <= k < i ==> #[trigger] utf16_prefix(text@, k) < utf16_idx,
{
    let chars = chars_of(text);
    let mut u: usize = 0;
    let mut i: usize = 0;
    while i < chars.len()
        invariant
            chars@ == text@,
            chars@.len() <= usize::MAX / 2,
            0 <= i <= chars@.len(),
            u == utf16_prefix(chars@, i as int),
            forall|k: int| 0 <= k < i ==> #[trigger] utf16_prefix(chars@, k) < utf16_idx,
        decreases chars@.len() - i,
    {
        if u >= utf16_idx {
            return i;
        }
        proof {
            lemma_utf16_prefix_bound(chars@, i + 1);
        }
        u = u + len_utf16(chars[i]);
        i += 1;
    }
    i
}

/// Later characters start at later UTF-16 offsets.
proof fn lemma_utf16_prefix_strict(s: Seq<char>, a: int, b: int)
    requires
        0 <= a < b <= s.len(),
    ensures
        utf16_prefix(s, a) < utf16_prefix(s, b),
    decreases b - a,
{
    if a + 1 < b {
        lemma_utf16_prefix_strict(s, a, b - 1);
    }
}

/// UTF-16 offset `u` is where some character starts (or the end).
pub open spec fn is_utf16_boundary(s: Seq<char>, u: int) -> bool {
    exists|i: int| 0 <= i <= s.len() && #[trigger] utf16_prefix(s, i) == u
}

/// The text of the UTF-16 range `[start, end)` (both clipped to the text),
/// as `String::from_utf16` gives it: `None` when the range cuts a
/// character in two.
pub open spec fn utf16_slice(s: Seq<char>, start: int, end: int) -> Option<Seq<char>> {
    let total = utf16_prefix(s, s.len() as int) as int;
    let a = if start < total { start } else { total };
    let b = if end < total { end } else { total };
    if a == b {
        Some(Seq::empty())
    } else if is_utf16_boundary(s, a) && is_utf16_boundary(s, b) {
        let i = choose|i: int| 0 <= i <= s.len() && #[trigger] utf16_prefix(s, i) == a;
        let j = choose|j: int| 0 <= j <= s.len() && #[trigger] utf16_prefix(s, j) == b;
        Some(s.subrange(i, j))
    } else {
        None
    }
}

/// The text between two UTF-16 offsets of `text` (a text-input client's
/// range), and the range clipped to the text.
pub fn utf16_range_text(text: &str, start: usize, end: usize) -> (r: (Option<String>, usize, usize))
    requires
        text@.len() <= usize::MAX / 2,
        ({
            let total = utf16_prefix(text@, text@.len() as int);
            (if start < total { start as int } else { total as int }) <= (if end < total {
                end as int
            } else {
                total as int
            })
        }),
    ensures
        ({
            let total = utf16_prefix(text@, text@.len() as int);
            &&& r.1 == (if start < total { start as int } else { total as int })
            &&& r.2 == (if end < total { end as int } else { total as int })
            &&& match r.0 {
                Some(x) => utf16_slice(text@, start as int, end as int) == Some(x@),
                None => utf16_slice(text@, start as int, end as int) is None,
            }
        }),
{
    let chars = chars_of(text);
    let n = chars.len();
    let total = char_to_utf16(text, n);
    let a = if start < total {
        start
    } else {
        total
    };
    let b = if end < total {
        end
    } else {
        total
    };
    if a == b {
        proof {
            reveal_strlit("");
        }
        return (Some(String::new()), a, b);
    }
    let i = utf16_to_char(text, a);
    let j = utf16_to_char(text, b);
    let ui = char_to_utf16(text, i);
    let uj = char_to_utf16(text, j);
    proof {
        lemma_utf16_prefix_bound(text@, n as int);
        // An offset is a boundary exactly when the first character at or
        // after it starts there.
        assert forall|k: int| 0 <= k <= text@.len() && #[trigger] utf16_prefix(text@, k) == a as int implies k
            == i by {
            if k < i {
            } else if k > i {
                lemma_utf16_prefix_strict(text@, i as int, k);
                if i < n {
                } else {
                    assert(false);
                }
            }
        }
        assert forall|k: int| 0 <= k <= text@.len() && #[trigger] utf16_prefix(text@, k) == b as int implies k
            == j by {
            if k < j {
            } else if k > j {
                lemma_utf16_prefix_strict(text@, j as int, k);
                if j < n {
                } else {
                    assert(false);
                }
            }
        }
        if ui == a {
            assert(is_utf16_boundary(text@, a as int));
        }
        if uj == b {
            assert(is_utf16_boundary(text@, b as int));
        }
    }
    if ui != a || uj != b {
        return (None, a, b);
    }
    proof {
        if i > j {
            lemma_utf16_prefix_strict(text@, j as int, i as int);
        }
    }
    let mut out = String::new();
    push_range(&mut out, chars.as_slice(), i, j);
    assert(out@ =~= text@.subrange(i as int, j as int));
    (Some(out), a, b)
}

/// Decimal digits of `n` (no sign, no leading zeros; `0` is `"0"`).
pub open spec fn decimal(n: nat) -> Seq<char>
    decreases n,
{
    if n < 10 {
        seq![digit_char(n)]
    } else {
        decimal(n / 10).push(digit_char(n % 10))
    }
}

pub open spec fn digit_char(d: nat) -> char {
    (('0' as u32) + d) as char
}

proof fn lemma_decimal_nonempty(n: nat)
    ensures
        decimal(n).len() >= 1,
        forall|k: int| 0 <= k < decimal(n).len() ==> '0' <= #[trigger] decimal(n)[k] <= '9',
    decreases n,
{
    if n >= 10 {
        lemma_decimal_nonempty(n / 10);
        assert forall|k: int| 0 <= k < decimal(n).len() implies '0' <= #[trigger] decimal(n)[k]
            <= '9' by {
            if k < decimal(n / 10).len() {
                assert(decimal(n)[k] == decimal(n / 10)[k]);
            }
        }
    }
}

/// Different numbers have different decimal forms.
pub proof fn lemma_decimal_injective(a: nat, b: nat)
    requires
        decimal(a) == decimal(b),
    ensures
        a == b,
    decreases a + b,
{
    lemma_decimal_nonempty(a);
    lemma_decimal_nonempty(b);
    if a < 10 && b < 10 {
        assert(decimal(a)[0] == decimal(b)[0]);
        assert(decimal(a)[0] == digit_char(a));
        assert(decimal(b)[0] == digit_char(b));
        assert(digit_char(a) as u32 == 48 + a);
        assert(digit_char(b) as u32 == 48 + b);
    } else if a < 10 {
        lemma_decimal_nonempty(b / 10);
        assert(decimal(b).len() >= 2);
    } else if b < 10 {
        lemma_decimal_nonempty(a / 10);
        assert(decimal(a).len() >= 2);
    } else {
        assert(decimal(a).last() == decimal(b).last());
        assert(decimal(a).last() == digit_char(a % 10));
        assert(decimal(b).last() == digit_char(b % 10));
        assert(digit_char(a % 10) as u32 == 48 + a % 10);
        assert(digit_char(b % 10) as u32 == 48 + b % 10);
        assert(a % 10 == b % 10);
        assert(decimal(a).drop_last() =~= decimal(a / 10));
        assert(decimal(b).drop_last() =~= decimal(b / 10));
        lemma_decimal_injective(a / 10, b / 10);
        assert(a == (a / 10) * 10 + a % 10);
        assert(b == (b / 10) * 10 + b % 10);
    }
}

/// Appends the decimal digits of `n` to `out`.
pub fn push_decimal(out: &mut String, n: u128)
    ensures
        final(out)@ == old(out)@ + decimal(n as nat),
    decreases n,
{
    if n >= 10 {
        push_decimal(out, n / 10);
    }
    let d = (n % 10) as u32;
    let c = (0x30u32 + d) as u8 as char;
    assert(c == digit_char((n % 10) as nat));
    push_char(out, c);
    assert(final(out)@ =~= old(out)@ + decimal(n as nat));
}

} // verus!
