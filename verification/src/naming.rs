//! Fresh names for new groups and profiles: `"Group 1"`, `"Shell 2"`, or a
//! container label with the first free number appended.

use vstd::prelude::*;

use crate::text;

verus! {

/// `"{prefix} {n}"`.
pub open spec fn numbered(prefix: Seq<char>, n: nat) -> Seq<char> {
    prefix + seq![' '] + text::decimal(n)
}

/// `name` is `"{prefix} {n}"` for the smallest `n >= start` whose name is
/// not taken.
pub open spec fn first_free_name(name: Seq<char>, prefix: Seq<char>, taken: Seq<Seq<char>>, start: nat) -> bool {
    exists|n: nat|
        start <= n && name == numbered(prefix, n) && !taken.contains(name) && forall|k: nat|
            start <= k < n ==> taken.contains(#[trigger] numbered(prefix, k))
}

/// The names, as text.
pub open spec fn names(existing: Seq<String>) -> Seq<Seq<char>> {
    existing.map_values(|s: String| s@)
}

proof fn lemma_numbered_injective(prefix: Seq<char>, a: nat, b: nat)
    requires
        numbered(prefix, a) == numbered(prefix, b),
    ensures
        a == b,
{
    let l = prefix.len() + 1;
    assert(numbered(prefix, a).subrange(l as int, numbered(prefix, a).len() as int) =~= text::decimal(a));
    assert(numbered(prefix, b).subrange(l as int, numbered(prefix, b).len() as int) =~= text::decimal(b));
    text::lemma_decimal_injective(a, b);
}

/// If the names numbered `lo..hi` are all taken, there are at least that
/// many names.
proof fn lemma_taken_bound(existing: Seq<Seq<char>>, prefix: Seq<char>, lo: nat, hi: nat)
    requires
        lo <= hi,
        forall|k: nat| lo <= k < hi ==> existing.contains(#[trigger] numbered(prefix, k)),
    ensures
        hi - lo <= existing.len(),
{
    let dom = vstd::set_lib::set_int_range(lo as int, hi as int);
    vstd::set_lib::lemma_int_range(lo as int, hi as int);
    let f = |k: int| numbered(prefix, k as nat);
    let img = dom.map(f);
    assert(vstd::relations::injective_on(f, dom)) by {
        assert forall|x1: int, x2: int|
            dom.contains(x1) && dom.contains(x2) && #[trigger] f(x1) == #[trigger] f(x2) implies x1
            == x2 by {
            lemma_numbered_injective(prefix, x1 as nat, x2 as nat);
        }
    }
    vstd::set_lib::lemma_map_size(dom, img, f);
    assert(img.subset_of(existing.to_set())) by {
        assert forall|s: Seq<char>| img.contains(s) implies existing.to_set().contains(s) by {
            let k = choose|k: int| dom.contains(k) && f(k) == s;
            assert(existing.contains(numbered(prefix, k as nat)));
        }
    }
    existing.lemma_cardinality_of_set();
    vstd::seq_lib::seq_to_set_is_finite(existing);
    vstd::set_lib::lemma_len_subset(img, existing.to_set());
}

/// Whether `name` is among `existing`.
pub fn is_taken(existing: &[String], name: &str) -> (taken: bool)
    ensures
        taken == names(existing@).contains(name@),
{
    let mut i: usize = 0;
    while i < existing.len()
        invariant
            0 <= i <= existing@.len(),
            forall|k: int| 0 <= k < i ==> (#[trigger] existing@[k])@ != name@,
        decreases existing@.len() - i,
    {
        let e = text::chars_of(existing[i].as_str());
        if text::eq_str(e.as_slice(), name) {
            assert(names(existing@)[i as int] == name@);
            return true;
        }
        i += 1;
    }
    assert forall|k: int| 0 <= k < names(existing@).len() implies names(existing@)[k] != name@ by {
        assert(names(existing@)[k] == existing@[k]@);
    }
    false
}

/// `"{prefix} {n}"` as a string.
fn numbered_string(prefix: &str, n: u128) -> (s: String)
    ensures
        s@ == numbered(prefix@, n as nat),
{
    let mut out = text::owned(prefix);
    text::push_char(&mut out, ' ');
    text::push_decimal(&mut out, n);
    assert(out@ =~= numbered(prefix@, n as nat));
    out
}

/// The first free name `"{prefix} {n}"` counting from `start`.
fn first_free(prefix: &str, existing: &[String], start: u128) -> (name: String)
    requires
        1 <= start <= 2,
    ensures
        exists|n: nat|
            start <= n && name@ == numbered(prefix@, n) && !names(existing@).contains(name@)
                && forall|k: nat|
                start <= k < n ==> names(existing@).contains(#[trigger] numbered(prefix@, k)),
{
    let mut n: u128 = start;
    let len = existing.len();
    loop
        invariant
            1 <= start <= n,
            start <= 2,
            existing@.len() == len,
            n <= existing@.len() + start,
            forall|k: nat| start <= k < n ==> names(existing@).contains(#[trigger] numbered(prefix@, k)),
        decreases existing@.len() + start - n,
    {
        let candidate = numbered_string(prefix, n);
        if !is_taken(existing, candidate.as_str()) {
            return candidate;
        }
        proof {
            assert(names(existing@).contains(numbered(prefix@, n as nat)));
            lemma_taken_bound(names(existing@), prefix@, start as nat, (n + 1) as nat);
            assert(names(existing@).len() == existing@.len());
            assert(n + 1 - start <= len);
        }
        n += 1;
    }
}

/// A name for a new group or profile: `"{prefix} {n}"` with the smallest
/// `n >= 1` that no existing name takes.
pub fn unique_name(prefix: &str, existing: &[String]) -> (name: String)
    ensures
        first_free_name(name@, prefix@, names(existing@), 1),
{
    first_free(prefix, existing, 1)
}

/// `name` is `base` when `base` is free, else `"{base} {n}"` with the
/// smallest free `n >= 2`.
pub open spec fn is_unique_profile_name(name: Seq<char>, base: Seq<char>, existing: Seq<String>) -> bool {
    &&& !names(existing).contains(base) ==> name == base
    &&& names(existing).contains(base) ==> exists|n: nat|
        2 <= n && name == numbered(base, n) && !names(existing).contains(name) && forall|k: nat|
            2 <= k < n ==> names(existing).contains(#[trigger] numbered(base, k))
}

/// At most one name is the unique profile name of a base.
pub proof fn lemma_unique_profile_name_determined(base: Seq<char>, existing: Seq<String>)
    ensures
        forall|a: Seq<char>, b: Seq<char>|
            is_unique_profile_name(a, base, existing) && is_unique_profile_name(b, base, existing) ==> a
                == b,
{
    assert forall|a: Seq<char>, b: Seq<char>|
        is_unique_profile_name(a, base, existing) && is_unique_profile_name(b, base, existing) implies a
        == b by {
        if names(existing).contains(base) {
            let na = choose|n: nat|
                2 <= n && a == numbered(base, n) && !names(existing).contains(a) && forall|k: nat|
                    2 <= k < n ==> names(existing).contains(#[trigger] numbered(base, k));
            let nb = choose|n: nat|
                2 <= n && b == numbered(base, n) && !names(existing).contains(b) && forall|k: nat|
                    2 <= k < n ==> names(existing).contains(#[trigger] numbered(base, k));
            if na < nb {
                assert(names(existing).contains(numbered(base, na)));
            } else if nb < na {
                assert(names(existing).contains(numbered(base, nb)));
            }
        }
    }
}

/// `base` when it is free, else `"{base} {n}"` with the smallest free
/// `n >= 2`.
pub fn unique_profile_name(base: &str, existing: &[String]) -> (name: String)
    ensures
        is_unique_profile_name(name@, base@, existing@),
{
    if !is_taken(existing, base) {
        return text::owned(base);
    }
    first_free(base, existing, 2)
}

/// The base of a Docker profile's name: the typed name (trimmed), or the
/// container label when none is typed.
pub open spec fn save_base(typed: Seq<char>, container_label: Seq<char>) -> Seq<char> {
    if text::spec_trim(typed).len() == 0 {
        container_label
    } else {
        text::spec_trim(typed)
    }
}

/// The name a Docker profile is saved under: `save_base` made unique.
pub fn resolve_save_name(typed: &str, container_label: &str, existing: &[String]) -> (name: String)
    ensures
        is_unique_profile_name(name@, save_base(typed@, container_label@), existing@),
{
    let t = text::trim_string(typed);
    if t.as_str().unicode_len() == 0 {
        unique_profile_name(container_label, existing)
    } else {
        unique_profile_name(t.as_str(), existing)
    }
}

/// `"{base} ({n})"`.
pub open spec fn parenthesized(base: Seq<char>, n: nat) -> Seq<char> {
    base + seq![' ', '('] + text::decimal(n) + seq![')']
}

proof fn lemma_parenthesized_injective(base: Seq<char>, a: nat, b: nat)
    requires
        parenthesized(base, a) == parenthesized(base, b),
    ensures
        a == b,
{
    let l = base.len() + 2;
    let pa = parenthesized(base, a);
    let pb = parenthesized(base, b);
    assert(pa.subrange(l as int, pa.len() - 1) =~= text::decimal(a));
    assert(pb.subrange(l as int, pb.len() - 1) =~= text::decimal(b));
    text::lemma_decimal_injective(a, b);
}

proof fn lemma_parenthesized_bound(existing: Seq<Seq<char>>, base: Seq<char>, lo: nat, hi: nat)
    requires
        lo <= hi,
        forall|k: nat| lo <= k < hi ==> existing.contains(#[trigger] parenthesized(base, k)),
    ensures
        hi - lo <= existing.len(),
{
    let dom = vstd::set_lib::set_int_range(lo as int, hi as int);
    vstd::set_lib::lemma_int_range(lo as int, hi as int);
    let f = |k: int| parenthesized(base, k as nat);
    let img = dom.map(f);
    assert(vstd::relations::injective_on(f, dom)) by {
        assert forall|x1: int, x2: int|
            dom.contains(x1) && dom.contains(x2) && #[trigger] f(x1) == #[trigger] f(x2) implies x1
            == x2 by {
            lemma_parenthesized_injective(base, x1 as nat, x2 as nat);
        }
    }
    vstd::set_lib::lemma_map_size(dom, img, f);
    assert(img.subset_of(existing.to_set())) by {
        assert forall|s: Seq<char>| img.contains(s) implies existing.to_set().contains(s) by {
            let k = choose|k: int| dom.contains(k) && f(k) == s;
            assert(existing.contains(parenthesized(base, k as nat)));
        }
    }
    existing.lemma_cardinality_of_set();
    vstd::seq_lib::seq_to_set_is_finite(existing);
    vstd::set_lib::lemma_len_subset(img, existing.to_set());
}

/// `name` is `label` when that is free, else `"{label} ({n})"` with the
/// smallest free `n >= 2`.
pub open spec fn is_copy_name(name: Seq<char>, label: Seq<char>, existing: Seq<String>) -> bool {
    copy_name_among(name, label, names(existing))
}

/// `name` is `label` when no name in `taken` equals it, else
/// `"{label} ({n})"` with the smallest free `n >= 2`.
pub open spec fn copy_name_among(name: Seq<char>, label: Seq<char>, taken: Seq<Seq<char>>) -> bool {
    &&& !taken.contains(label) ==> name == label
    &&& taken.contains(label) ==> exists|n: nat|
        2 <= n && name == parenthesized(label, n) && !taken.contains(name) && forall|k: nat|
            2 <= k < n ==> taken.contains(#[trigger] parenthesized(label, k))
}

/// The name a tab is saved under as a profile: its label, or the label
/// with the first free number in parentheses.
pub fn unique_copy_name(label: &str, existing: &[String]) -> (name: String)
    ensures
        is_copy_name(name@, label@, existing@),
{
    if !is_taken(existing, label) {
        return text::owned(label);
    }
    let mut n: u128 = 2;
    let len = existing.len();
    loop
        invariant
            2 <= n,
            n <= existing@.len() + 2,
            existing@.len() == len,
            names(existing@).contains(label@),
            forall|k: nat| 2 <= k < n ==> names(existing@).contains(#[trigger] parenthesized(label@, k)),
        decreases existing@.len() + 2 - n,
    {
        let mut candidate = text::owned(label);
        text::push_char(&mut candidate, ' ');
        text::push_char(&mut candidate, '(');
        text::push_decimal(&mut candidate, n);
        text::push_char(&mut candidate, ')');
        assert(candidate@ =~= parenthesized(label@, n as nat));
        if !is_taken(existing, candidate.as_str()) {
            return candidate;
        }
        proof {
            lemma_parenthesized_bound(names(existing@), label@, 2, (n + 1) as nat);
            assert(names(existing@).len() == existing@.len());
        }
        n += 1;
    }
}

} // verus!
