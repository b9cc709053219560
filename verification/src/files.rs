//! Files browser helpers: case-insensitive name filter with highlight
//! ranges, sorting of directory entries, names typed into prompts, and
//! path labels.

use vstd::prelude::*;

use crate::text;
use crate::text::{spec_ascii_lower, spec_trim};

verus! {

/// Full Unicode lowercase mapping of a character (`char::to_lowercase`):
/// one to three characters.
pub uninterp spec fn char_lowercase(c: char) -> Seq<char>;

/// `char::to_lowercase`, collected. The mapping comes from the Unicode
/// tables of the standard library; the contract only names it.
#[verifier::external_body]
fn lowercase_of(c: char) -> (l: Vec<char>)
    ensures
        l@ == char_lowercase(c),
{
    c.to_lowercase().collect()
}

/// Two characters are equal ignoring case: ASCII case, or the same Unicode
/// lowercase form.
pub open spec fn spec_chars_eq_ci(a: char, b: char) -> bool {
    spec_ascii_lower(a) == spec_ascii_lower(b) || char_lowercase(a) == char_lowercase(b)
}

pub fn chars_eq_ci(a: char, b: char) -> (eq: bool)
    ensures
        eq == spec_chars_eq_ci(a, b),
{
    if text::ascii_lower(a) == text::ascii_lower(b) {
        return true;
    }
    let la = lowercase_of(a);
    let lb = lowercase_of(b);
    text::chars_eq(la.as_slice(), lb.as_slice())
}

/// `query` occurs (ignoring case) in `name` at position `i`.
pub open spec fn matches_at(name: Seq<char>, query: Seq<char>, i: int) -> bool {
    &&& 0 <= i
    &&& i + query.len() <= name.len()
    &&& forall|k: int| 0 <= k < query.len() ==> spec_chars_eq_ci(#[trigger] name[i + k], query[k])
}

/// Non-overlapping matches of `query` in `name` from position `i`, scanning
/// left to right and resuming after each match.
pub open spec fn scan_matches(name: Seq<char>, query: Seq<char>, i: int) -> Seq<(int, int)>
    decreases name.len() - i,
{
    if query.len() == 0 || i < 0 || i + query.len() > name.len() {
        Seq::empty()
    } else if matches_at(name, query, i) {
        seq![(i, i + query.len())] + scan_matches(name, query, i + query.len())
    } else {
        scan_matches(name, query, i + 1)
    }
}

/// Non-overlapping case-insensitive ranges `[start, end)` of `query` in
/// `name`, as Unicode scalar positions.
pub fn match_ranges(name: &str, query: &str) -> (ranges: Vec<(usize, usize)>)
    ensures
        ranges@.len() == scan_matches(name@, query@, 0).len(),
        forall|k: int|
            0 <= k < ranges@.len() ==> (#[trigger] ranges@[k]).0 == scan_matches(
                name@,
                query@,
                0,
            )[k].0 && ranges@[k].1 == scan_matches(name@, query@, 0)[k].1,
{
    let name_chars = text::chars_of(name);
    let query_chars = text::chars_of(query);
    let qlen = query_chars.len();
    let n = name_chars.len();
    let mut out: Vec<(usize, usize)> = Vec::new();
    if qlen == 0 || n < qlen {
        return out;
    }
    let ghost full = scan_matches(name@, query@, 0);
    let mut i: usize = 0;
    while i <= n - qlen
        invariant
            name_chars@ == name@,
            query_chars@ == query@,
            qlen == query@.len(),
            n == name@.len(),
            qlen > 0,
            qlen <= n,
            i <= n,
            full == scan_matches(name@, query@, 0),
            full == out@.map_values(|r: (usize, usize)| (r.0 as int, r.1 as int)) + scan_matches(
                name@,
                query@,
                i as int,
            ),
        decreases n - i,
    {
        let mut k: usize = 0;
        let mut matched = true;
        while k < qlen
            invariant
                name_chars@ == name@,
                query_chars@ == query@,
                qlen == query@.len(),
                i + qlen <= n,
                n == name@.len(),
                0 <= k <= qlen,
                matched ==> forall|m: int| 0 <= m < k ==> spec_chars_eq_ci(#[trigger] name@[i + m], query@[m]),
                !matched ==> !matches_at(name@, query@, i as int),
            decreases qlen - k,
        {
            if !chars_eq_ci(name_chars[i + k], query_chars[k]) {
                matched = false;
            }
            k += 1;
        }
        let ghost before = out@;
        if matched {
            out.push((i, i + qlen));
            proof {
                assert(out@.map_values(|r: (usize, usize)| (r.0 as int, r.1 as int)) =~= before.map_values(
                    |r: (usize, usize)| (r.0 as int, r.1 as int),
                ) + seq![(i as int, i + qlen as int)]);
            }
            i = i + qlen;
        } else {
            i = i + 1;
        }
    }
    proof {
        let mapped = out@.map_values(|r: (usize, usize)| (r.0 as int, r.1 as int));
        assert(scan_matches(name@, query@, i as int) =~= Seq::<(int, int)>::empty());
        assert(full =~= mapped);
        assert forall|k: int| 0 <= k < out@.len() implies (#[trigger] out@[k]).0 == full[k].0
            && out@[k].1 == full[k].1 by {
            assert(mapped[k] == (out@[k].0 as int, out@[k].1 as int));
        }
    }
    out
}

/// Every range found is a match of the query, and the ranges are ordered
/// and do not overlap.
pub proof fn law_match_ranges_sound(name: Seq<char>, query: Seq<char>, i: int)
    ensures
        forall|k: int|
            0 <= k < scan_matches(name, query, i).len() ==> {
                let r = #[trigger] scan_matches(name, query, i)[k];
                &&& matches_at(name, query, r.0)
                &&& r.1 == r.0 + query.len()
                &&& i <= r.0
            },
        forall|k: int|
            0 <= k < scan_matches(name, query, i).len() - 1 ==> (#[trigger] scan_matches(
                name,
                query,
                i,
            )[k]).1 <= scan_matches(name, query, i)[k + 1].0,
    decreases name.len() - i,
{
    if query.len() == 0 || i < 0 || i + query.len() > name.len() {
    } else if matches_at(name, query, i) {
        law_match_ranges_sound(name, query, i + query.len());
        let rest = scan_matches(name, query, i + query.len());
        let all = seq![(i, i + query.len())] + rest;
        assert(scan_matches(name, query, i) == all);
        assert forall|k: int| 0 <= k < all.len() implies {
            let r = #[trigger] all[k];
            &&& matches_at(name, query, r.0)
            &&& r.1 == r.0 + query.len()
            &&& i <= r.0
        } by {
            if k > 0 {
                assert(all[k] == rest[k - 1]);
            }
        }
        assert forall|k: int| 0 <= k < all.len() - 1 implies (#[trigger] all[k]).1 <= all[k + 1].0 by {
            if k > 0 {
                assert(all[k] == rest[k - 1]);
                assert(all[k + 1] == rest[k]);
            } else {
                assert(all[1] == rest[0]);
                let r0 = scan_matches(name, query, i + query.len())[0];
                assert(i + query.len() <= r0.0);
            }
        }
    } else {
        law_match_ranges_sound(name, query, i + 1);
        assert(scan_matches(name, query, i) == scan_matches(name, query, i + 1));
    }
}

/// The name filter: an empty (after trimming) query matches everything;
/// otherwise the name must contain the trimmed query ignoring case.
pub open spec fn spec_name_matches(name: Seq<char>, query: Seq<char>) -> bool {
    spec_trim(query).len() == 0 || scan_matches(name, spec_trim(query), 0).len() > 0
}

pub fn name_matches(name: &str, query: &str) -> (m: bool)
    ensures
        m == spec_name_matches(name@, query@),
{
    let q = text::trim_string(query);
    if q.as_str().unicode_len() == 0 {
        return true;
    }
    let r = match_ranges(name, q.as_str());
    r.len() > 0
}

/// A piece of a name as the Files list draws it: its text and whether it
/// is a match of the filter.
pub open spec fn seg_views(segs: Seq<(String, bool)>) -> Seq<(Seq<char>, bool)> {
    segs.map_values(|p: (String, bool)| (p.0@, p.1))
}

/// The pieces of `name` from position `i` cut at the match ranges `rs`:
/// unmatched text before each range, the range itself, and the rest.
pub open spec fn pieces(name: Seq<char>, rs: Seq<(int, int)>, i: int) -> Seq<(Seq<char>, bool)>
    decreases rs.len(),
{
    if rs.len() == 0 {
        if i < name.len() {
            seq![(name.subrange(i, name.len() as int), false)]
        } else {
            Seq::empty()
        }
    } else {
        let s = rs[0].0;
        let e = rs[0].1;
        let before = if i < s {
            seq![(name.subrange(i, s), false)]
        } else {
            Seq::empty()
        };
        before + seq![(name.subrange(s, e), true)] + pieces(name, rs.drop_first(), e)
    }
}

/// How a name is drawn under the filter `query`: all plain when the
/// trimmed query is empty or does not occur, else cut at its matches.
pub open spec fn spec_highlight(name: Seq<char>, query: Seq<char>) -> Seq<(Seq<char>, bool)> {
    let q = spec_trim(query);
    let rs = scan_matches(name, q, 0);
    if q.len() == 0 || rs.len() == 0 {
        seq![(name, false)]
    } else {
        pieces(name, rs, 0)
    }
}

/// The texts of the pieces, one after the other.
pub open spec fn joined(segs: Seq<(Seq<char>, bool)>) -> Seq<char>
    decreases segs.len(),
{
    if segs.len() == 0 {
        Seq::empty()
    } else {
        segs[0].0 + joined(segs.drop_first())
    }
}

proof fn lemma_joined_append(a: Seq<(Seq<char>, bool)>, b: Seq<(Seq<char>, bool)>)
    ensures
        joined(a + b) == joined(a) + joined(b),
    decreases a.len(),
{
    if a.len() == 0 {
        assert(a + b =~= b);
        assert(joined(a) + joined(b) =~= joined(b));
    } else {
        lemma_joined_append(a.drop_first(), b);
        assert((a + b).drop_first() =~= a.drop_first() + b);
        assert(joined(a) + joined(b) =~= a[0].0 + (joined(a.drop_first()) + joined(b)));
    }
}

proof fn lemma_joined_one(x: Seq<char>, b: bool)
    ensures
        joined(seq![(x, b)]) == x,
{
    let one = seq![(x, b)];
    assert(one.drop_first() =~= Seq::<(Seq<char>, bool)>::empty());
    assert(joined(one.drop_first()) == Seq::<char>::empty());
    assert(x + Seq::<char>::empty() =~= x);
}

/// Cutting at ordered, non-overlapping ranges inside the name keeps the
/// text of the name from `i` on.
proof fn lemma_pieces_join(name: Seq<char>, rs: Seq<(int, int)>, i: int)
    requires
        0 <= i <= name.len(),
        forall|k: int| 0 <= k < rs.len() ==> (#[trigger] rs[k]).0 <= rs[k].1 <= name.len(),
        forall|k: int| 0 <= k < rs.len() - 1 ==> (#[trigger] rs[k]).1 <= rs[k + 1].0,
        rs.len() > 0 ==> i <= rs[0].0,
    ensures
        joined(pieces(name, rs, i)) == name.subrange(i, name.len() as int),
    decreases rs.len(),
{
    if rs.len() == 0 {
        if i < name.len() {
            lemma_joined_one(name.subrange(i, name.len() as int), false);
        } else {
            assert(name.subrange(i, name.len() as int) =~= Seq::<char>::empty());
        }
    } else {
        let s = rs[0].0;
        let e = rs[0].1;
        let rest = rs.drop_first();
        assert forall|k: int| 0 <= k < rest.len() implies (#[trigger] rest[k]).0 <= rest[k].1 <= name.len() by {
            assert(rest[k] == rs[k + 1]);
        }
        assert forall|k: int| 0 <= k < rest.len() - 1 implies (#[trigger] rest[k]).1 <= rest[k + 1].0 by {
            assert(rest[k] == rs[k + 1]);
            assert(rest[k + 1] == rs[k + 2]);
        }
        if rest.len() > 0 {
            assert(rest[0] == rs[1]);
        }
        lemma_pieces_join(name, rest, e);
        let before: Seq<(Seq<char>, bool)> = if i < s {
            seq![(name.subrange(i, s), false)]
        } else {
            Seq::empty()
        };
        let hit = seq![(name.subrange(s, e), true)];
        lemma_joined_append(before + hit, pieces(name, rest, e));
        lemma_joined_append(before, hit);
        lemma_joined_one(name.subrange(s, e), true);
        if i < s {
            lemma_joined_one(name.subrange(i, s), false);
        } else {
            assert(joined(before) =~= name.subrange(i, s));
        }
        assert(name.subrange(i, s) + name.subrange(s, e) + name.subrange(e, name.len() as int)
            =~= name.subrange(i, name.len() as int));
    }
}

/// Highlighting never changes a name: its pieces, put back together, are
/// the name.
pub proof fn law_highlight_keeps_name(name: Seq<char>, query: Seq<char>)
    ensures
        joined(spec_highlight(name, query)) == name,
{
    let q = spec_trim(query);
    let rs = scan_matches(name, q, 0);
    if q.len() == 0 || rs.len() == 0 {
        lemma_joined_one(name, false);
    } else {
        law_match_ranges_sound(name, q, 0);
        assert forall|k: int| 0 <= k < rs.len() implies (#[trigger] rs[k]).0 <= rs[k].1 <= name.len() by {
            assert(matches_at(name, q, rs[k].0));
        }
        assert(matches_at(name, q, rs[0].0));
        lemma_pieces_join(name, rs, 0);
        assert(name.subrange(0, name.len() as int) =~= name);
    }
}

/// The characters `chars[from..to]` as a string.
fn string_of_range(chars: &[char], from: usize, to: usize) -> (s: String)
    requires
        from <= to <= chars@.len(),
    ensures
        s@ == chars@.subrange(from as int, to as int),
{
    let mut s = String::new();
    text::push_range(&mut s, chars, from, to);
    assert(s@ =~= chars@.subrange(from as int, to as int));
    s
}

/// The pieces of `chars` cut at the ranges `ranges` (which are `rs`).
fn cut_pieces(chars: &Vec<char>, ranges: &Vec<(usize, usize)>, Ghost(rs): Ghost<Seq<(int, int)>>) -> (segs: Vec<(String, bool)>)
    requires
        ranges@.len() == rs.len(),
        forall|j: int|
            0 <= j < ranges@.len() ==> (#[trigger] ranges@[j]).0 == rs[j].0 && ranges@[j].1 == rs[j].1,
        forall|j: int| 0 <= j < rs.len() ==> (#[trigger] rs[j]).0 <= rs[j].1 <= chars@.len() && 0 <= rs[j].0,
        forall|j: int| 0 <= j < rs.len() - 1 ==> (#[trigger] rs[j]).1 <= rs[j + 1].0,
    ensures
        seg_views(segs@) == pieces(chars@, rs, 0),
{
    let n = chars.len();
    let mut out: Vec<(String, bool)> = Vec::new();
    let mut i: usize = 0;
    let mut k: usize = 0;
    proof {
        assert(rs.skip(0) =~= rs);
        assert(seg_views(out@) =~= Seq::<(Seq<char>, bool)>::empty());
        assert(seg_views(out@) + pieces(chars@, rs, 0) =~= pieces(chars@, rs, 0));
    }
    while k < ranges.len()
        invariant
            n == chars@.len(),
            ranges@.len() == rs.len(),
            forall|j: int|
                0 <= j < ranges@.len() ==> (#[trigger] ranges@[j]).0 == rs[j].0 && ranges@[j].1 == rs[j].1,
            forall|j: int| 0 <= j < rs.len() ==> (#[trigger] rs[j]).0 <= rs[j].1 <= chars@.len() && 0 <= rs[j].0,
            forall|j: int| 0 <= j < rs.len() - 1 ==> (#[trigger] rs[j]).1 <= rs[j + 1].0,
            0 <= k <= ranges@.len(),
            i <= n,
            k == 0 ==> i == 0,
            k > 0 ==> i == rs[k - 1].1,
            seg_views(out@) + pieces(chars@, rs.skip(k as int), i as int) == pieces(chars@, rs, 0),
        decreases ranges@.len() - k,
    {
        let (s, e) = ranges[k];
        let ghost before = out@;
        proof {
            assert(rs[k as int] == (s as int, e as int));
            if k > 0 {
                assert(rs[k - 1].1 <= rs[k as int].0);
            }
            let tail = rs.skip(k as int);
            assert(tail[0] == rs[k as int]);
            assert(tail.drop_first() =~= rs.skip(k + 1));
        }
        if i < s {
            out.push((string_of_range(chars.as_slice(), i, s), false));
        }
        out.push((string_of_range(chars.as_slice(), s, e), true));
        proof {
            let pre: Seq<(Seq<char>, bool)> = if (i as int) < (s as int) {
                seq![(chars@.subrange(i as int, s as int), false)]
            } else {
                Seq::empty()
            };
            assert(seg_views(out@) =~= seg_views(before) + pre + seq![(chars@.subrange(s as int, e as int), true)]);
            let tail = rs.skip(k as int);
            assert(pieces(chars@, tail, i as int) == pre + seq![(chars@.subrange(s as int, e as int), true)]
                + pieces(chars@, rs.skip(k + 1), e as int));
            assert(seg_views(out@) + pieces(chars@, rs.skip(k + 1), e as int) =~= seg_views(before)
                + pieces(chars@, tail, i as int));
        }
        i = e;
        k += 1;
    }
    proof {
        assert(rs.skip(k as int) =~= Seq::<(int, int)>::empty());
    }
    if i < n {
        let ghost before = out@;
        out.push((string_of_range(chars.as_slice(), i, n), false));
        assert(seg_views(out@) =~= seg_views(before) + seq![(chars@.subrange(i as int, n as int), false)]);
    } else {
        assert(seg_views(out@) + Seq::<(Seq<char>, bool)>::empty() =~= seg_views(out@));
    }
    out
}

/// The pieces a Files entry name is drawn in under the filter `query`
/// (`spec_highlight`).
pub fn highlight_segments(name: &str, query: &str) -> (segs: Vec<(String, bool)>)
    ensures
        seg_views(segs@) == spec_highlight(name@, query@),
{
    let q = text::trim_string(query);
    let ghost qv = spec_trim(query@);
    let ghost rs = scan_matches(name@, qv, 0);
    let ranges = if q.as_str().unicode_len() == 0 {
        Vec::new()
    } else {
        match_ranges(name, q.as_str())
    };
    if ranges.len() == 0 {
        let mut out: Vec<(String, bool)> = Vec::new();
        out.push((text::owned(name), false));
        assert(seg_views(out@) =~= seq![(name@, false)]);
        return out;
    }
    let chars = text::chars_of(name);
    proof {
        law_match_ranges_sound(name@, qv, 0);
        assert forall|k: int| 0 <= k < rs.len() implies (#[trigger] rs[k]).0 <= rs[k].1 <= name@.len() && 0
            <= rs[k].0 by {
            assert(matches_at(name@, qv, rs[k].0));
        }
    }
    cut_pieces(&chars, &ranges, Ghost(rs))
}

/// Label kept for the status bar: the path itself when it has at most
/// `max_chars` characters, else its first `max_chars - 1` characters and an
/// ellipsis (just the ellipsis when `max_chars <= 1`).
pub open spec fn spec_truncate_path_end(path: Seq<char>, max_chars: int) -> Seq<char> {
    if path.len() <= max_chars {
        path
    } else if max_chars <= 1 {
        seq!['…']
    } else {
        path.subrange(0, max_chars - 1).push('…')
    }
}

pub fn truncate_path_end(path: &str, max_chars: usize) -> (label: String)
    ensures
        label@ == spec_truncate_path_end(path@, max_chars as int),
{
    let chars = text::chars_of(path);
    if chars.len() <= max_chars {
        return text::owned(path);
    }
    let mut out = String::new();
    if max_chars <= 1 {
        text::push_range(&mut out, ['…'].as_slice(), 0, 1);
        assert(out@ =~= seq!['…']);
        return out;
    }
    text::push_range(&mut out, chars.as_slice(), 0, max_chars - 1);
    text::push_range(&mut out, ['…'].as_slice(), 0, 1);
    assert(out@ =~= path@.subrange(0, max_chars - 1).push('…'));
    out
}

/// A container's working directory is shown only when Unix-like: not a
/// drive path (`C:…`) and not a UNC path (`\\…`).
pub open spec fn spec_docker_cwd_plausible(path: Seq<char>) -> bool {
    let drive = path.len() >= 2 && (path[0] as u32) < 0x80 && path[1] == ':';
    let unc = path.len() >= 2 && path[0] == '\\' && path[1] == '\\';
    !drive && !unc
}

pub fn docker_cwd_plausible(path: &str) -> (ok: bool)
    ensures
        ok == spec_docker_cwd_plausible(path@),
{
    let c = text::chars_of(path);
    if c.len() >= 2 && (c[0] as u32) < 0x80 && c[1] == ':' {
        return false;
    }
    if c.len() >= 2 && c[0] == '\\' && c[1] == '\\' {
        return false;
    }
    true
}

/// A name typed for a new folder or a rename: trimmed, non-empty, and
/// without `/` or `\`. `None` when invalid.
pub open spec fn spec_valid_entry_name(raw: Seq<char>) -> Option<Seq<char>> {
    let t = spec_trim(raw);
    if t.len() == 0 || t.contains('/') || t.contains('\\') {
        None
    } else {
        Some(t)
    }
}

pub fn valid_entry_name(raw: &str) -> (name: Option<String>)
    ensures
        match name {
            Some(n) => spec_valid_entry_name(raw@) == Some(n@),
            None => spec_valid_entry_name(raw@) is None,
        },
{
    let c = text::chars_of(raw);
    let t = text::trim_chars(c.as_slice());
    if t.len() == 0 || text::contains_char(t.as_slice(), '/') || text::contains_char(
        t.as_slice(),
        '\\',
    ) {
        return None;
    }
    Some(text::string_of(t.as_slice()))
}

/// `s` without leading and trailing `"` characters.
pub open spec fn strip_quotes(s: Seq<char>) -> Seq<char>
    decreases s.len(),
{
    if s.len() > 0 && s[0] == '"' {
        strip_quotes(s.drop_first())
    } else if s.len() > 0 && s.last() == '"' {
        strip_quotes(s.drop_last())
    } else {
        s
    }
}

fn strip_quotes_chars(s: Vec<char>) -> (t: Vec<char>)
    ensures
        t@ == strip_quotes(s@),
    decreases s@.len(),
{
    if s.len() > 0 && s[0] == '"' {
        let mut rest = s;
        rest.remove(0);
        assert(rest@ =~= s@.drop_first());
        strip_quotes_chars(rest)
    } else if s.len() > 0 && s[s.len() - 1] == '"' {
        let mut rest = s;
        rest.pop();
        assert(rest@ =~= s@.drop_last());
        strip_quotes_chars(rest)
    } else {
        s
    }
}

/// A remote path typed in the address bar: trimmed, surrounding quotes
/// removed, trimmed again. `None` when nothing is left.
pub open spec fn spec_clean_remote_path(raw: Seq<char>) -> Option<Seq<char>> {
    let t = spec_trim(strip_quotes(spec_trim(raw)));
    if t.len() == 0 {
        None
    } else {
        Some(t)
    }
}

pub fn clean_remote_path(raw: &str) -> (path: Option<String>)
    ensures
        match path {
            Some(p) => spec_clean_remote_path(raw@) == Some(p@),
            None => spec_clean_remote_path(raw@) is None,
        },
{
    let c = text::chars_of(raw);
    let t1 = text::trim_chars(c.as_slice());
    let t2 = strip_quotes_chars(t1);
    let t3 = text::trim_chars(t2.as_slice());
    if t3.len() == 0 {
        None
    } else {
        Some(text::string_of(t3.as_slice()))
    }
}

} // verus!
