//! Directory listings of the Files browser: entries, sort columns, the
//! details-list order (folders first by default, case-insensitive names as
//! tie-breaker) and the filtered, sorted view.

use vstd::prelude::*;

use crate::files;
use crate::text;

verus! {

#[derive(Debug)]
pub struct RemoteEntry {
    pub name: String,
    pub path: String,
    pub is_dir: bool,
    pub size: u64,
    pub mtime: Option<u64>,
}

impl Clone for RemoteEntry {
    fn clone(&self) -> (c: Self)
        ensures
            c == *self,
    {
        RemoteEntry {
            name: self.name.clone(),
            path: self.path.clone(),
            is_dir: self.is_dir,
            size: self.size,
            mtime: self.mtime,
        }
    }
}

#[derive(Clone, Copy, Debug, PartialEq, Eq, Structural)]
pub enum SortField {
    Name,
    /// Folder vs file.
    Kind,
    Size,
    Mtime,
    Ext,
}

impl SortField {
    pub fn label(self) -> (l: &'static str)
        ensures
            l@ == match self {
                SortField::Name => "Name"@,
                SortField::Kind => "Type"@,
                SortField::Size => "Size"@,
                SortField::Mtime => "Modified"@,
                SortField::Ext => "Ext"@,
            },
    {
        match self {
            SortField::Name => "Name",
            SortField::Kind => "Type",
            SortField::Size => "Size",
            SortField::Mtime => "Modified",
            SortField::Ext => "Ext",
        }
    }
}

/// Column and direction of the details list.
#[derive(Clone, Copy, Debug, PartialEq, Eq, Structural)]
pub struct SortState {
    pub field: SortField,
    pub asc: bool,
}

impl SortState {
    /// Name column, ascending.
    pub fn new() -> (s: Self)
        ensures
            s == (SortState { field: SortField::Name, asc: true }),
    {
        SortState { field: SortField::Name, asc: true }
    }

    /// Clicking a column header: the same column flips direction, another
    /// column sorts ascending.
    pub fn toggle_sort(&mut self, field: SortField)
        ensures
            *final(self) == if old(self).field == field {
                SortState { field, asc: !old(self).asc }
            } else {
                SortState { field, asc: true }
            },
    {
        if self.field == field {
            self.asc = !self.asc;
        } else {
            self.field = field;
            self.asc = true;
        }
    }
}

/// `"Folder"` or `"File"`.
pub fn entry_kind_label(entry: &RemoteEntry) -> (l: &'static str)
    ensures
        l@ == if entry.is_dir {
            "Folder"@
        } else {
            "File"@
        },
{
    if entry.is_dir {
        "Folder"
    } else {
        "File"
    }
}

/// Unicode lowercase of a string (`str::to_lowercase`).
pub uninterp spec fn str_lowercase(s: Seq<char>) -> Seq<char>;

/// `str::to_lowercase`; the mapping comes from the standard library's
/// Unicode tables and the contract only names it.
#[verifier::external_body]
pub(crate) fn lowercase_string(s: &str) -> (l: String)
    ensures
        l@ == str_lowercase(s@),
{
    s.to_lowercase()
}

/// A bare file name: not empty, not `.` or `..`, and without `/`, `\` or
/// `:`, so that it is its own last path component on every platform.
pub open spec fn bare_name(n: Seq<char>) -> bool {
    &&& n.len() > 0
    &&& n != "."@
    &&& n != ".."@
    &&& !n.contains('/')
    &&& !n.contains('\\')
    &&& !n.contains(':')
}

/// Position of the last `.` in `n`, or -1.
pub open spec fn last_dot(n: Seq<char>) -> int
    decreases n.len(),
{
    if n.len() == 0 {
        -1
    } else if n.last() == '.' {
        n.len() - 1
    } else {
        last_dot(n.drop_last())
    }
}

/// The extension of a bare file name as `Path::extension` documents it:
/// none without an embedded `.`, none for a name that begins with `.` and
/// holds no other, else what follows the final `.`.
pub open spec fn name_extension(n: Seq<char>) -> Option<Seq<char>> {
    let i = last_dot(n);
    if i > 0 {
        Some(n.subrange(i + 1, n.len() as int))
    } else {
        None
    }
}

/// `Path::extension` of a name, as text: the part after the final `.` of
/// the last path component, which holds no `.`. For a bare name that is
/// stated exactly (`name_extension`); for a name with separators, which
/// characters separate components depends on the platform, and no clause
/// says more.
#[verifier::external_body]
pub(crate) fn path_extension(name: &str) -> (ext: Option<String>)
    ensures
        ext matches Some(e) ==> !e@.contains('.'),
        bare_name(name@) ==> match ext {
            Some(e) => name_extension(name@) == Some(e@),
            None => name_extension(name@) is None,
        },
{
    std::path::Path::new(name).extension().map(|e| e.to_string_lossy().into_owned())
}

/// `"." + ascii-lowercase(ext)`, or empty without an extension.
pub open spec fn spec_dot_extension(ext: Option<Seq<char>>) -> Seq<char> {
    match ext {
        Some(e) => seq!['.'] + e.map_values(|c: char| text::spec_ascii_lower(c)),
        None => Seq::empty(),
    }
}

pub fn dot_extension(ext: Option<&str>) -> (d: Vec<char>)
    ensures
        d@ == spec_dot_extension(
            match ext {
                Some(e) => Some(e@),
                None => None,
            },
        ),
{
    match ext {
        Some(e) => {
            let c = text::chars_of(e);
            let l = text::ascii_lower_chars(c.as_slice());
            let mut out: Vec<char> = Vec::new();
            out.push('.');
            let mut i: usize = 0;
            while i < l.len()
                invariant
                    0 <= i <= l@.len(),
                    out@ == seq!['.'] + l@.subrange(0, i as int),
                decreases l@.len() - i,
            {
                out.push(l[i]);
                i += 1;
                assert(out@ =~= seq!['.'] + l@.subrange(0, i as int));
            }
            assert(l@.subrange(0, l@.len() as int) =~= l@);
            out
        },
        None => Vec::new(),
    }
}

/// Extension of an entry name for the Ext column: `".rs"`, or empty.
pub fn entry_extension(name: &str) -> (ext: String)
    ensures
        ext@.len() == 0 || (ext@[0] == '.' && !ext@.drop_first().contains('.')),
        bare_name(name@) ==> ext@ == spec_dot_extension(name_extension(name@)),
{
    let e = path_extension(name);
    let d = match &e {
        Some(s) => dot_extension(Some(s.as_str())),
        None => dot_extension(None),
    };
    proof {
        if let Some(s) = e {
            assert(d@.drop_first() =~= s@.map_values(|c: char| text::spec_ascii_lower(c)));
            if d@.drop_first().contains('.') {
                let k = choose|k: int| 0 <= k < d@.drop_first().len() && d@.drop_first()[k] == '.';
                assert(text::spec_ascii_lower(s@[k]) == '.');
                assert(s@[k] == '.');
            }
        }
    }
    text::string_of(d.as_slice())
}

/// What an entry is ordered by: folder flag, lowercase name, size,
/// modification time (0 when unknown) and dotted lowercase extension.
pub struct SortKey {
    pub is_dir: bool,
    pub name_lower: Vec<char>,
    pub size: u64,
    pub mtime: u64,
    pub ext: Vec<char>,
}

pub struct SortKeyView {
    pub is_dir: bool,
    pub name_lower: Seq<char>,
    pub size: u64,
    pub mtime: u64,
    pub ext: Seq<char>,
}

impl View for SortKey {
    type V = SortKeyView;

    open spec fn view(&self) -> SortKeyView {
        SortKeyView {
            is_dir: self.is_dir,
            name_lower: self.name_lower@,
            size: self.size,
            mtime: self.mtime,
            ext: self.ext@,
        }
    }
}

/// The key of an entry whose extension column reads `ext`.
pub open spec fn key_view(e: RemoteEntry, ext: Seq<char>) -> SortKeyView {
    SortKeyView {
        is_dir: e.is_dir,
        name_lower: str_lowercase(e.name@),
        size: e.size,
        mtime: match e.mtime {
            Some(t) => t,
            None => 0,
        },
        ext,
    }
}

/// Result of comparing two entries.
#[derive(Clone, Copy, Debug, PartialEq, Eq, Structural)]
pub enum Order {
    Less,
    Equal,
    Greater,
}

pub open spec fn reverse(o: Order) -> Order {
    match o {
        Order::Less => Order::Greater,
        Order::Equal => Order::Equal,
        Order::Greater => Order::Less,
    }
}

/// `o`, or `next` when `o` is `Equal` (as `Ordering::then`).
pub open spec fn then(o: Order, next: Order) -> Order {
    match o {
        Order::Equal => next,
        _ => o,
    }
}

pub open spec fn num_order(a: int, b: int) -> Order {
    if a < b {
        Order::Less
    } else if a == b {
        Order::Equal
    } else {
        Order::Greater
    }
}

/// Lexicographic order of character sequences (by code point, which is
/// also the byte order of their UTF-8 form).
pub open spec fn lex_order(a: Seq<char>, b: Seq<char>) -> Order
    decreases a.len(),
{
    if a.len() == 0 && b.len() == 0 {
        Order::Equal
    } else if a.len() == 0 {
        Order::Less
    } else if b.len() == 0 {
        Order::Greater
    } else if a[0] < b[0] {
        Order::Less
    } else if a[0] > b[0] {
        Order::Greater
    } else {
        lex_order(a.drop_first(), b.drop_first())
    }
}

pub open spec fn directed(o: Order, asc: bool) -> Order {
    if asc {
        o
    } else {
        reverse(o)
    }
}

/// Folders before files.
pub open spec fn dirs_first(a: bool, b: bool) -> Order {
    if a && !b {
        Order::Less
    } else if !a && b {
        Order::Greater
    } else {
        Order::Equal
    }
}

/// The details-list order of two entries for a column and direction.
#[verifier::opaque]
pub open spec fn key_order(a: SortKeyView, b: SortKeyView, field: SortField, asc: bool) -> Order {
    let by_name = lex_order(a.name_lower, b.name_lower);
    match field {
        SortField::Name => then(dirs_first(a.is_dir, b.is_dir), directed(by_name, asc)),
        SortField::Kind => then(directed(dirs_first(a.is_dir, b.is_dir), asc), by_name),
        SortField::Size => then(directed(num_order(a.size as int, b.size as int), asc), by_name),
        SortField::Mtime => then(directed(num_order(a.mtime as int, b.mtime as int), asc), by_name),
        SortField::Ext => then(
            dirs_first(a.is_dir, b.is_dir),
            then(directed(lex_order(a.ext, b.ext), asc), by_name),
        ),
    }
}

pub proof fn lemma_lex_antisymmetric(a: Seq<char>, b: Seq<char>)
    ensures
        lex_order(a, b) == reverse(lex_order(b, a)),
    decreases a.len(),
{
    if a.len() > 0 && b.len() > 0 && a[0] == b[0] {
        lemma_lex_antisymmetric(a.drop_first(), b.drop_first());
    }
}

/// Swapping the two entries reverses their order.
pub proof fn law_key_order_antisymmetric(a: SortKeyView, b: SortKeyView, field: SortField, asc: bool)
    ensures
        key_order(a, b, field, asc) == reverse(key_order(b, a, field, asc)),
{
    reveal(key_order);
    lemma_lex_antisymmetric(a.name_lower, b.name_lower);
    lemma_lex_antisymmetric(a.ext, b.ext);
}

/// Two sequences are `Equal` in the lexicographic order exactly when they
/// are the same.
pub proof fn lemma_lex_equal(a: Seq<char>, b: Seq<char>)
    ensures
        (lex_order(a, b) == Order::Equal) == (a == b),
    decreases a.len(),
{
    if a.len() > 0 && b.len() > 0 && a[0] == b[0] {
        lemma_lex_equal(a.drop_first(), b.drop_first());
        if a.drop_first() == b.drop_first() {
            assert(a =~= seq![a[0]] + a.drop_first());
            assert(b =~= seq![b[0]] + b.drop_first());
        }
        if a == b {
            assert(a.drop_first() =~= b.drop_first());
        }
    } else if a.len() > 0 && b.len() > 0 {
        assert(a[0] != b[0]);
    } else if a.len() == 0 && b.len() == 0 {
        assert(a =~= b);
    }
}

/// The lexicographic `Less` is transitive.
pub proof fn lemma_lex_less_trans(a: Seq<char>, b: Seq<char>, c: Seq<char>)
    requires
        lex_order(a, b) == Order::Less,
        lex_order(b, c) == Order::Less,
    ensures
        lex_order(a, c) == Order::Less,
    decreases a.len(),
{
    if a.len() > 0 && a[0] == b[0] && b[0] == c[0] {
        lemma_lex_less_trans(a.drop_first(), b.drop_first(), c.drop_first());
    }
}

/// The sort order of one column, in either direction: `Less` is transitive
/// and `Equal` means the same value.
proof fn lemma_column_facts(a: SortKeyView, b: SortKeyView, c: SortKeyView)
    ensures
        (lex_order(a.name_lower, b.name_lower) == Order::Equal) == (a.name_lower == b.name_lower),
        (lex_order(b.name_lower, c.name_lower) == Order::Equal) == (b.name_lower == c.name_lower),
        (lex_order(a.name_lower, c.name_lower) == Order::Equal) == (a.name_lower == c.name_lower),
        (lex_order(a.ext, b.ext) == Order::Equal) == (a.ext == b.ext),
        (lex_order(b.ext, c.ext) == Order::Equal) == (b.ext == c.ext),
        (lex_order(a.ext, c.ext) == Order::Equal) == (a.ext == c.ext),
        lex_order(a.name_lower, b.name_lower) == reverse(lex_order(b.name_lower, a.name_lower)),
        lex_order(b.name_lower, c.name_lower) == reverse(lex_order(c.name_lower, b.name_lower)),
        lex_order(a.name_lower, c.name_lower) == reverse(lex_order(c.name_lower, a.name_lower)),
        lex_order(a.ext, b.ext) == reverse(lex_order(b.ext, a.ext)),
        lex_order(b.ext, c.ext) == reverse(lex_order(c.ext, b.ext)),
        lex_order(a.ext, c.ext) == reverse(lex_order(c.ext, a.ext)),
        lex_order(a.name_lower, b.name_lower) == Order::Less && lex_order(b.name_lower, c.name_lower)
            == Order::Less ==> lex_order(a.name_lower, c.name_lower) == Order::Less,
        lex_order(c.name_lower, b.name_lower) == Order::Less && lex_order(b.name_lower, a.name_lower)
            == Order::Less ==> lex_order(c.name_lower, a.name_lower) == Order::Less,
        lex_order(a.ext, b.ext) == Order::Less && lex_order(b.ext, c.ext) == Order::Less ==> lex_order(
            a.ext,
            c.ext,
        ) == Order::Less,
        lex_order(c.ext, b.ext) == Order::Less && lex_order(b.ext, a.ext) == Order::Less ==> lex_order(
            c.ext,
            a.ext,
        ) == Order::Less,
{
    lemma_lex_equal(a.name_lower, b.name_lower);
    lemma_lex_equal(b.name_lower, c.name_lower);
    lemma_lex_equal(a.name_lower, c.name_lower);
    lemma_lex_equal(a.ext, b.ext);
    lemma_lex_equal(b.ext, c.ext);
    lemma_lex_equal(a.ext, c.ext);
    lemma_lex_antisymmetric(a.name_lower, b.name_lower);
    lemma_lex_antisymmetric(b.name_lower, c.name_lower);
    lemma_lex_antisymmetric(a.name_lower, c.name_lower);
    lemma_lex_antisymmetric(a.ext, b.ext);
    lemma_lex_antisymmetric(b.ext, c.ext);
    lemma_lex_antisymmetric(a.ext, c.ext);
    if lex_order(a.name_lower, b.name_lower) == Order::Less && lex_order(b.name_lower, c.name_lower) == Order::Less {
        lemma_lex_less_trans(a.name_lower, b.name_lower, c.name_lower);
    }
    if lex_order(c.name_lower, b.name_lower) == Order::Less && lex_order(b.name_lower, a.name_lower) == Order::Less {
        lemma_lex_less_trans(c.name_lower, b.name_lower, a.name_lower);
    }
    if lex_order(a.ext, b.ext) == Order::Less && lex_order(b.ext, c.ext) == Order::Less {
        lemma_lex_less_trans(a.ext, b.ext, c.ext);
    }
    if lex_order(c.ext, b.ext) == Order::Less && lex_order(b.ext, a.ext) == Order::Less {
        lemma_lex_less_trans(c.ext, b.ext, a.ext);
    }
}

/// The details-list order is transitive: if `a` does not come after `b`
/// and `b` does not come after `c`, then `a` does not come after `c`; and
/// if either step is strict, so is the result.
#[verifier::rlimit(50)]
pub proof fn law_key_order_transitive(a: SortKeyView, b: SortKeyView, c: SortKeyView, field: SortField, asc: bool)
    requires
        key_order(a, b, field, asc) != Order::Greater,
        key_order(b, c, field, asc) != Order::Greater,
    ensures
        key_order(a, c, field, asc) != Order::Greater,
        key_order(a, b, field, asc) == Order::Less || key_order(b, c, field, asc) == Order::Less
            ==> key_order(a, c, field, asc) == Order::Less,
{
    reveal(key_order);
    lemma_column_facts(a, b, c);
}

/// The Size and Modified columns order entries of different values by the
/// value alone (folders and files alike): ascending puts the smaller first,
/// descending the larger, so the two directions give opposite orders.
pub proof fn law_numeric_columns(a: SortKeyView, b: SortKeyView)
    ensures
        a.size < b.size ==> key_order(a, b, SortField::Size, true) == Order::Less
            && key_order(a, b, SortField::Size, false) == Order::Greater,
        a.size > b.size ==> key_order(a, b, SortField::Size, true) == Order::Greater
            && key_order(a, b, SortField::Size, false) == Order::Less,
        a.mtime < b.mtime ==> key_order(a, b, SortField::Mtime, true) == Order::Less
            && key_order(a, b, SortField::Mtime, false) == Order::Greater,
        a.mtime > b.mtime ==> key_order(a, b, SortField::Mtime, true) == Order::Greater
            && key_order(a, b, SortField::Mtime, false) == Order::Less,
{
    reveal(key_order);
}

/// The Name and Ext columns put folders before files in both directions.
pub proof fn law_folders_first(a: SortKeyView, b: SortKeyView, asc: bool)
    ensures
        a.is_dir && !b.is_dir ==> key_order(a, b, SortField::Name, asc) == Order::Less
            && key_order(a, b, SortField::Ext, asc) == Order::Less,
{
    reveal(key_order);
}

/// The Name, Type and Ext columns: among entries of the same kind, names
/// (Name) or extensions (Ext) decide in the chosen direction; Type puts
/// folders first ascending and files first descending; and a tie on the
/// sorted column (same size, time, kind, or extension) falls back to the
/// names in ascending order whatever the direction.
pub proof fn law_other_columns(a: SortKeyView, b: SortKeyView, asc: bool)
    ensures
        a.is_dir == b.is_dir && lex_order(a.name_lower, b.name_lower) == Order::Less ==> key_order(
            a,
            b,
            SortField::Name,
            true,
        ) == Order::Less && key_order(a, b, SortField::Name, false) == Order::Greater,
        a.is_dir && !b.is_dir ==> key_order(a, b, SortField::Kind, true) == Order::Less && key_order(
            a,
            b,
            SortField::Kind,
            false,
        ) == Order::Greater,
        a.is_dir == b.is_dir && lex_order(a.ext, b.ext) == Order::Less ==> key_order(a, b, SortField::Ext, true)
            == Order::Less && key_order(a, b, SortField::Ext, false) == Order::Greater,
        a.size == b.size ==> key_order(a, b, SortField::Size, asc) == lex_order(a.name_lower, b.name_lower),
        a.mtime == b.mtime ==> key_order(a, b, SortField::Mtime, asc) == lex_order(a.name_lower, b.name_lower),
        a.is_dir == b.is_dir ==> key_order(a, b, SortField::Kind, asc) == lex_order(a.name_lower, b.name_lower),
        a.is_dir == b.is_dir && a.ext == b.ext ==> key_order(a, b, SortField::Ext, asc) == lex_order(
            a.name_lower,
            b.name_lower,
        ),
{
    reveal(key_order);
    lemma_lex_equal(a.ext, b.ext);
}

proof fn lemma_chain_by_size(out: Seq<RemoteEntry>, asc: bool, i: int, j: int)
    requires
        0 <= i <= j < out.len(),
        forall|k: int|
            0 <= k < out.len() - 1 ==> if asc {
                (#[trigger] out[k]).size <= out[k + 1].size
            } else {
                out[k].size >= out[k + 1].size
            },
    ensures
        if asc {
            out[i].size <= out[j].size
        } else {
            out[i].size >= out[j].size
        },
    decreases j - i,
{
    if i < j {
        lemma_chain_by_size(out, asc, i + 1, j);
        assert(if asc {
            out[i].size <= out[i + 1].size
        } else {
            out[i].size >= out[i + 1].size
        });
    }
}

/// A listing sorted by the Size column has every entry at least as large
/// as each one after it when descending, and at most as large when
/// ascending.
pub proof fn law_listing_by_size(
    out: Seq<RemoteEntry>,
    kept: Seq<RemoteEntry>,
    perm: Seq<usize>,
    exts: Seq<Seq<char>>,
    asc: bool,
)
    requires
        sorted_listing(out, kept, perm, exts, SortField::Size, asc),
    ensures
        forall|i: int, j: int|
            0 <= i < j < out.len() ==> if asc {
                (#[trigger] out[i]).size <= (#[trigger] out[j]).size
            } else {
                out[i].size >= out[j].size
            },
{
    assert forall|k: int| 0 <= k < out.len() - 1 implies if asc {
        (#[trigger] out[k]).size <= out[k + 1].size
    } else {
        out[k].size >= out[k + 1].size
    } by {
        let a = key_view(kept[perm[k] as int], exts[perm[k] as int]);
        let b = key_view(kept[perm[k + 1] as int], exts[perm[k + 1] as int]);
        law_numeric_columns(a, b);
        assert(out[k] == kept[perm[k] as int]);
        assert(out[k + 1] == kept[perm[k + 1] as int]);
    }
    assert forall|i: int, j: int| 0 <= i < j < out.len() implies if asc {
        (#[trigger] out[i]).size <= (#[trigger] out[j]).size
    } else {
        out[i].size >= out[j].size
    } by {
        lemma_chain_by_size(out, asc, i, j);
    }
}

fn lex_compare(a: &[char], b: &[char]) -> (o: Order)
    ensures
        o == lex_order(a@, b@),
{
    let mut i: usize = 0;
    assert(a@.subrange(0, a@.len() as int) =~= a@);
    assert(b@.subrange(0, b@.len() as int) =~= b@);
    while i < a.len() && i < b.len()
        invariant
            0 <= i <= a@.len(),
            i <= b@.len(),
            lex_order(a@, b@) == lex_order(a@.subrange(i as int, a@.len() as int), b@.subrange(i as int, b@.len() as int)),
        decreases a@.len() - i,
    {
        let ghost sa = a@.subrange(i as int, a@.len() as int);
        let ghost sb = b@.subrange(i as int, b@.len() as int);
        if a[i] < b[i] {
            assert(sa[0] == a@[i as int] && sb[0] == b@[i as int]);
            return Order::Less;
        }
        if a[i] > b[i] {
            assert(sa[0] == a@[i as int] && sb[0] == b@[i as int]);
            return Order::Greater;
        }
        assert(sa.drop_first() =~= a@.subrange(i + 1, a@.len() as int));
        assert(sb.drop_first() =~= b@.subrange(i + 1, b@.len() as int));
        i += 1;
    }
    let ghost sa = a@.subrange(i as int, a@.len() as int);
    let ghost sb = b@.subrange(i as int, b@.len() as int);
    if i == a.len() && i == b.len() {
        assert(sa.len() == 0 && sb.len() == 0);
        Order::Equal
    } else if i == a.len() {
        assert(sa.len() == 0 && sb.len() > 0);
        Order::Less
    } else {
        assert(sb.len() == 0 && sa.len() > 0);
        Order::Greater
    }
}

fn reverse_order(o: Order) -> (r: Order)
    ensures
        r == reverse(o),
{
    match o {
        Order::Less => Order::Greater,
        Order::Equal => Order::Equal,
        Order::Greater => Order::Less,
    }
}

fn then_order(o: Order, next: Order) -> (r: Order)
    ensures
        r == then(o, next),
{
    match o {
        Order::Equal => next,
        _ => o,
    }
}

fn num_compare(a: u64, b: u64) -> (o: Order)
    ensures
        o == num_order(a as int, b as int),
{
    if a < b {
        Order::Less
    } else if a == b {
        Order::Equal
    } else {
        Order::Greater
    }
}

fn directed_order(o: Order, asc: bool) -> (r: Order)
    ensures
        r == directed(o, asc),
{
    if asc {
        o
    } else {
        reverse_order(o)
    }
}

fn dirs_first_order(a: bool, b: bool) -> (o: Order)
    ensures
        o == dirs_first(a, b),
{
    if a && !b {
        Order::Less
    } else if !a && b {
        Order::Greater
    } else {
        Order::Equal
    }
}

/// Order of two entries in the details list (see `key_order`).
pub fn compare_keys(a: &SortKey, b: &SortKey, field: SortField, asc: bool) -> (o: Order)
    ensures
        o == key_order(a@, b@, field, asc),
{
    proof {
        reveal(key_order);
    }
    let by_name = lex_compare(a.name_lower.as_slice(), b.name_lower.as_slice());
    match field {
        SortField::Name => then_order(
            dirs_first_order(a.is_dir, b.is_dir),
            directed_order(by_name, asc),
        ),
        SortField::Kind => then_order(
            directed_order(dirs_first_order(a.is_dir, b.is_dir), asc),
            by_name,
        ),
        SortField::Size => then_order(directed_order(num_compare(a.size, b.size), asc), by_name),
        SortField::Mtime => then_order(directed_order(num_compare(a.mtime, b.mtime), asc), by_name),
        SortField::Ext => then_order(
            dirs_first_order(a.is_dir, b.is_dir),
            then_order(directed_order(lex_compare(a.ext.as_slice(), b.ext.as_slice()), asc), by_name),
        ),
    }
}

/// The sort key of an entry (lowercase name and extension as the standard
/// library computes them).
pub fn sort_key(entry: &RemoteEntry) -> (k: SortKey)
    ensures
        k@ == key_view(*entry, k.ext@),
        k.ext@.len() == 0 || (k.ext@[0] == '.' && !k.ext@.drop_first().contains('.')),
        bare_name(entry.name@) ==> k.ext@ == ext_column(entry.name@),
{
    let lower = lowercase_string(entry.name.as_str());
    let ext = entry_extension(entry.name.as_str());
    SortKey {
        is_dir: entry.is_dir,
        name_lower: text::chars_of(lower.as_str()),
        size: entry.size,
        mtime: match entry.mtime {
            Some(t) => t,
            None => 0,
        },
        ext: text::chars_of(ext.as_str()),
    }
}

/// The Ext column of a bare entry name: `"."` and its lowercase extension,
/// or empty.
pub open spec fn ext_column(name: Seq<char>) -> Seq<char> {
    spec_dot_extension(name_extension(name))
}

/// Inserting position `i` after the last position whose key is not
/// greater keeps the positions sorted and stable.
proof fn lemma_insert_sorted(keys: Seq<SortKeyView>, old_perm: Seq<usize>, j: int, i: usize, field: SortField, asc: bool)
    requires
        0 <= i < keys.len(),
        is_permutation(old_perm, i as int),
        0 <= j <= old_perm.len(),
        forall|k: int|
            0 <= k < old_perm.len() - 1 ==> key_order(
                keys[old_perm[k] as int],
                keys[#[trigger] old_perm[k + 1] as int],
                field,
                asc,
            ) != Order::Greater,
        forall|k: int, l: int|
            0 <= k < l < old_perm.len() && key_order(
                keys[#[trigger] old_perm[k] as int],
                keys[#[trigger] old_perm[l] as int],
                field,
                asc,
            ) == Order::Equal ==> old_perm[k] < old_perm[l],
        forall|m: int|
            j <= m < old_perm.len() ==> key_order(
                keys[#[trigger] old_perm[m] as int],
                keys[i as int],
                field,
                asc,
            ) == Order::Greater,
        j > 0 ==> key_order(keys[old_perm[j - 1] as int], keys[i as int], field, asc) != Order::Greater,
    ensures
        ({
            let p = old_perm.insert(j, i);
            &&& is_permutation(p, i + 1)
            &&& forall|k: int|
                0 <= k < p.len() - 1 ==> key_order(
                    keys[p[k] as int],
                    keys[#[trigger] p[k + 1] as int],
                    field,
                    asc,
                ) != Order::Greater
            &&& forall|k: int, l: int|
                0 <= k < l < p.len() && key_order(
                    keys[#[trigger] p[k] as int],
                    keys[#[trigger] p[l] as int],
                    field,
                    asc,
                ) == Order::Equal ==> p[k] < p[l]
        }),
{
    let p = old_perm.insert(j, i);
    assert forall|m: int| j < m < p.len() implies key_order(
        keys[i as int],
        keys[#[trigger] p[m] as int],
        field,
        asc,
    ) == Order::Less by {
        assert(p[m] == old_perm[m - 1]);
        law_key_order_antisymmetric(keys[i as int], keys[p[m] as int], field, asc);
    }
    assert forall|a: int, b: int| 0 <= a < p.len() && 0 <= b < p.len() && a != b implies p[a] != p[b] by {
        if a != j && b != j {
            let sa = if a < j { a } else { a - 1 };
            let sb = if b < j { b } else { b - 1 };
            assert(p[a] == old_perm[sa] && p[b] == old_perm[sb]);
        } else if a == j {
            let sb = if b < j { b } else { b - 1 };
            assert(p[b] == old_perm[sb]);
        } else {
            let sa = if a < j { a } else { a - 1 };
            assert(p[a] == old_perm[sa]);
        }
    }
    assert forall|k: int| 0 <= k < p.len() implies p[k] < i + 1 by {
        if k != j {
            let sk = if k < j { k } else { k - 1 };
            assert(p[k] == old_perm[sk]);
        }
    }
    assert forall|k: int|
        0 <= k < p.len() - 1 implies key_order(
        keys[p[k] as int],
        keys[#[trigger] p[k + 1] as int],
        field,
        asc,
    ) != Order::Greater by {
        if k + 1 < j {
            assert(p[k] == old_perm[k] && p[k + 1] == old_perm[k + 1]);
            assert(key_order(keys[old_perm[k] as int], keys[old_perm[k + 1] as int], field, asc) != Order::Greater);
        } else if k + 1 == j {
            assert(p[k] == old_perm[k]);
            assert(p[k + 1] == i);
        } else if k == j {
            assert(p[k] == i);
            assert(key_order(keys[i as int], keys[p[k + 1] as int], field, asc) == Order::Less);
        } else {
            assert(p[k] == old_perm[k - 1] && p[k + 1] == old_perm[k]);
            let k1 = k - 1;
            assert(key_order(keys[old_perm[k1] as int], keys[old_perm[k1 + 1] as int], field, asc) != Order::Greater);
        }
    }
    assert forall|k: int, l: int|
        0 <= k < l < p.len() && key_order(
            keys[#[trigger] p[k] as int],
            keys[#[trigger] p[l] as int],
            field,
            asc,
        ) == Order::Equal implies p[k] < p[l] by {
        if k != j && l != j {
            let sk = if k < j { k } else { k - 1 };
            let sl = if l < j { l } else { l - 1 };
            assert(p[k] == old_perm[sk] && p[l] == old_perm[sl]);
        } else if l == j {
            assert(p[k] == old_perm[k]);
        } else {
            assert(p[l] == old_perm[l - 1]);
            assert(p[k] == i);
            assert(key_order(keys[i as int], keys[p[l] as int], field, asc) == Order::Less);
        }
    }
}

/// `perm` lists each of `0..n` once.
pub open spec fn is_permutation(perm: Seq<usize>, n: int) -> bool {
    &&& perm.len() == n
    &&& perm.no_duplicates()
    &&& forall|k: int| 0 <= k < perm.len() ==> perm[k] < n
}

/// Stable insertion sort of positions by `key_order`: neighbours are in
/// order, and equal keys keep their relative order from the listing.
pub fn sort_positions(keys: &Vec<SortKey>, field: SortField, asc: bool) -> (perm: Vec<usize>)
    ensures
        is_permutation(perm@, keys@.len() as int),
        forall|k: int|
            0 <= k < perm@.len() - 1 ==> key_order(
                keys@[perm@[k] as int]@,
                keys@[#[trigger] perm@[k + 1] as int]@,
                field,
                asc,
            ) != Order::Greater,
        forall|k: int, l: int|
            0 <= k < l < perm@.len() && key_order(
                keys@[#[trigger] perm@[k] as int]@,
                keys@[#[trigger] perm@[l] as int]@,
                field,
                asc,
            ) == Order::Equal ==> perm@[k] < perm@[l],
{
    let mut perm: Vec<usize> = Vec::new();
    let mut i: usize = 0;
    while i < keys.len()
        invariant
            0 <= i <= keys@.len(),
            is_permutation(perm@, i as int),
            forall|k: int|
                0 <= k < perm@.len() - 1 ==> key_order(
                    keys@[perm@[k] as int]@,
                    keys@[#[trigger] perm@[k + 1] as int]@,
                    field,
                    asc,
                ) != Order::Greater,
            forall|k: int, l: int|
                0 <= k < l < perm@.len() && key_order(
                    keys@[#[trigger] perm@[k] as int]@,
                    keys@[#[trigger] perm@[l] as int]@,
                    field,
                    asc,
                ) == Order::Equal ==> perm@[k] < perm@[l],
        decreases keys@.len() - i,
    {
        let mut j = perm.len();
        while j > 0 && compare_keys(&keys[perm[j - 1]], &keys[i], field, asc) == Order::Greater
            invariant
                0 <= i < keys@.len(),
                is_permutation(perm@, i as int),
                0 <= j <= perm@.len(),
                forall|m: int|
                    j <= m < perm@.len() ==> key_order(
                        keys@[#[trigger] perm@[m] as int]@,
                        keys@[i as int]@,
                        field,
                        asc,
                    ) == Order::Greater,
            decreases j,
        {
            j -= 1;
        }
        let ghost old_perm = perm@;
        let ghost kv = keys@.map_values(|k: SortKey| k@);
        proof {
            assert forall|m: int| 0 <= m < keys@.len() implies kv[m] == (#[trigger] keys@[m])@ by {}
        }
        perm.insert(j, i);
        proof {
            lemma_insert_sorted(keys@.map_values(|k: SortKey| k@), old_perm, j as int, i, field, asc);
        }
        i += 1;
    }
    perm
}

/// The entries whose names match the search query, in listing order.
pub open spec fn kept_entries(entries: Seq<RemoteEntry>, query: Seq<char>) -> Seq<RemoteEntry>
    decreases entries.len(),
{
    if entries.len() == 0 {
        Seq::empty()
    } else {
        let k = kept_entries(entries.drop_last(), query);
        if files::spec_name_matches(entries.last().name@, query) {
            k.push(entries.last())
        } else {
            k
        }
    }
}

/// `out` lists `kept` in the order `perm`, which sorts their keys (each
/// read with the extension column `exts[i]`) stably by `key_order`.
pub open spec fn sorted_listing(
    out: Seq<RemoteEntry>,
    kept: Seq<RemoteEntry>,
    perm: Seq<usize>,
    exts: Seq<Seq<char>>,
    field: SortField,
    asc: bool,
) -> bool {
    &&& is_permutation(perm, kept.len() as int)
    &&& exts.len() == kept.len()
    &&& out.len() == perm.len()
    &&& forall|k: int| 0 <= k < perm.len() ==> out[k] == kept[#[trigger] perm[k] as int]
    &&& forall|k: int|
        0 <= k < perm.len() - 1 ==> key_order(
            key_view(kept[perm[k] as int], exts[perm[k] as int]),
            key_view(kept[#[trigger] perm[k + 1] as int], exts[perm[k + 1] as int]),
            field,
            asc,
        ) != Order::Greater
    &&& forall|k: int, l: int|
        0 <= k < l < perm.len() && key_order(
            key_view(kept[#[trigger] perm[k] as int], exts[perm[k] as int]),
            key_view(kept[#[trigger] perm[l] as int], exts[perm[l] as int]),
            field,
            asc,
        ) == Order::Equal ==> perm[k] < perm[l]
}

/// The entries shown in the details list: those whose names match the
/// search query, sorted stably by the sort column and direction.
pub fn filtered_entries(entries: &Vec<RemoteEntry>, query: &str, sort: SortState) -> (out: Vec<
    RemoteEntry,
>)
    ensures
        exists|perm: Seq<usize>, exts: Seq<Seq<char>>|
            {
                &&& sorted_listing(
                    out@,
                    kept_entries(entries@, query@),
                    perm,
                    exts,
                    sort.field,
                    sort.asc,
                )
                &&& forall|m: int|
                    0 <= m < exts.len() && bare_name(kept_entries(entries@, query@)[m].name@) ==> #[trigger] exts[m]
                        == ext_column(kept_entries(entries@, query@)[m].name@)
            },
        sort.field == SortField::Size ==> forall|i: int, j: int|
            0 <= i < j < out@.len() ==> if sort.asc {
                (#[trigger] out@[i]).size <= (#[trigger] out@[j]).size
            } else {
                out@[i].size >= out@[j].size
            },
{
    let mut kept: Vec<RemoteEntry> = Vec::new();
    let mut i: usize = 0;
    while i < entries.len()
        invariant
            0 <= i <= entries@.len(),
            kept@ == kept_entries(entries@.subrange(0, i as int), query@),
        decreases entries@.len() - i,
    {
        assert(entries@.subrange(0, i + 1).drop_last() =~= entries@.subrange(0, i as int));
        if files::name_matches(entries[i].name.as_str(), query) {
            kept.push(entries[i].clone());
        }
        i += 1;
    }
    assert(entries@.subrange(0, entries@.len() as int) =~= entries@);
    let mut keys: Vec<SortKey> = Vec::new();
    let mut j: usize = 0;
    while j < kept.len()
        invariant
            0 <= j <= kept@.len(),
            keys@.len() == j,
            forall|k: int| 0 <= k < j ==> (#[trigger] keys@[k])@ == key_view(kept@[k], keys@[k].ext@),
            forall|k: int|
                0 <= k < j && bare_name(kept@[k].name@) ==> (#[trigger] keys@[k]).ext@ == ext_column(
                    kept@[k].name@,
                ),
        decreases kept@.len() - j,
    {
        keys.push(sort_key(&kept[j]));
        j += 1;
    }
    let perm = sort_positions(&keys, sort.field, sort.asc);
    let mut out: Vec<RemoteEntry> = Vec::new();
    let mut k: usize = 0;
    while k < perm.len()
        invariant
            0 <= k <= perm@.len(),
            is_permutation(perm@, kept@.len() as int),
            out@.len() == k,
            forall|m: int| 0 <= m < k ==> out@[m] == kept@[#[trigger] perm@[m] as int],
        decreases perm@.len() - k,
    {
        out.push(kept[perm[k]].clone());
        k += 1;
    }
    let ghost exts = keys@.map_values(|key: SortKey| key.ext@);
    proof {
        assert forall|m: int| 0 <= m < keys@.len() implies #[trigger] keys@[m]@ == key_view(
            kept@[m],
            exts[m],
        ) by {}
        assert(sorted_listing(out@, kept@, perm@, exts, sort.field, sort.asc));
        if sort.field == SortField::Size {
            law_listing_by_size(out@, kept@, perm@, exts, sort.asc);
        }
        assert forall|m: int|
            0 <= m < exts.len() && bare_name(kept@[m].name@) implies #[trigger] exts[m] == ext_column(
                kept@[m].name@,
            ) by {
            assert(exts[m] == keys@[m].ext@);
        }
    }
    out
}

/// Seconds since the Unix epoch of 9999-01-01 00:00 UTC: every earlier
/// instant from the epoch on falls in a local year of four digits.
pub const FOUR_DIGIT_YEARS_END: u64 = 253370764800;

/// Text of the shape `YYYY/MM/DD HH:MM`, all fields digits.
pub open spec fn minute_stamp_shape(t: Seq<char>) -> bool {
    &&& t.len() == 16
    &&& t[4] == '/' && t[7] == '/' && t[10] == ' ' && t[13] == ':'
    &&& forall|i: int|
        0 <= i < 16 && i != 4 && i != 7 && i != 10 && i != 13 ==> '0' <= #[trigger] t[i] <= '9'
}

/// `n` in `w` decimal digits, zero-padded (the low `w` digits).
pub open spec fn padded(n: nat, w: nat) -> Seq<char>
    decreases w,
{
    if w == 0 {
        Seq::empty()
    } else {
        padded(n / 10, (w - 1) as nat).push(text::digit_char(n % 10))
    }
}

/// Year, month and day of the proleptic Gregorian calendar for day `z`
/// counted from 1970-01-01.
pub open spec fn civil_from_days(z: int) -> (int, int, int) {
    let z2 = z + 719468;
    let era = z2 / 146097;
    let doe = z2 - era * 146097;
    let yoe = (doe - doe / 1460 + doe / 36524 - doe / 146096) / 365;
    let doy = doe - (365 * yoe + yoe / 4 - yoe / 100);
    let mp = (5 * doy + 2) / 153;
    let d = doy - (153 * mp + 2) / 5 + 1;
    let m = if mp < 10 {
        mp + 3
    } else {
        mp - 9
    };
    let y = yoe + era * 400;
    (if m <= 2 {
        y + 1
    } else {
        y
    }, m, d)
}

/// `YYYY/MM/DD HH:MM` of the instant `t` seconds after 1970-01-01 00:00,
/// read on a clock showing that instant as is.
pub open spec fn minute_text(t: int) -> Seq<char> {
    let (y, m, d) = civil_from_days(t / 86400);
    let sec = t % 86400;
    padded(y as nat, 4) + "/"@ + padded(m as nat, 2) + "/"@ + padded(d as nat, 2) + " "@ + padded(
        (sec / 3600) as nat,
        2,
    ) + ":"@ + padded(((sec % 3600) / 60) as nat, 2)
}

/// `t` is the date and minute of the instant `secs` on a clock set off
/// from UTC by less than a day either way.
pub open spec fn local_stamp_of(t: Seq<char>, secs: int) -> bool {
    exists|off: int| -86400 < off < 86400 && t == #[trigger] minute_text(secs + off)
}

/// The Modified column's date and minute pattern for chrono.
pub open spec fn minute_pattern() -> Seq<char> {
    "%Y/%m/%d %H:%M"@
}

/// `DateTime::from_timestamp(secs, 0)` shown in the local time zone with
/// chrono's `format(pattern)`, or `None` when chrono cannot represent the
/// instant. Only the pattern `%Y/%m/%d %H:%M` is taken (chrono's
/// `to_string` panics on a pattern it cannot format). What is stated:
/// chrono represents every instant from the epoch to the end of year 9998
/// UTC; the local time is the instant moved by the machine's offset, which
/// chrono keeps under a day either way, so the text is the proleptic
/// Gregorian date, hour and minute of the instant moved by some such
/// offset (`minute_text`), and its year has four digits; `%Y`, `%m`, `%d`,
/// `%H`, `%M` are zero-padded to 4, 2, 2, 2 and 2 digits. Which offset the
/// machine's time zone gives is not stated.
#[verifier::external_body]
fn local_minute_stamp(secs: i64, pattern: &str) -> (text: Option<String>)
    requires
        pattern@ == minute_pattern(),
    ensures
        0 <= secs < FOUR_DIGIT_YEARS_END ==> text is Some && minute_stamp_shape(text.unwrap()@),
        0 <= secs < FOUR_DIGIT_YEARS_END ==> text is Some && local_stamp_of(text.unwrap()@, secs as int),
{
    match chrono::DateTime::from_timestamp(secs, 0) {
        Some(dt) => Some(dt.with_timezone(&chrono::Local).format(pattern).to_string()),
        None => None,
    }
}

/// Modified column text: empty without a time, else the local date and
/// minute of the instant (empty when it cannot be represented).
pub fn format_mtime(secs: Option<u64>) -> (text: String)
    ensures
        secs is None ==> text@ == Seq::<char>::empty(),
        secs matches Some(s) && s < FOUR_DIGIT_YEARS_END ==> minute_stamp_shape(text@),
        secs is Some && secs.unwrap() < FOUR_DIGIT_YEARS_END ==> local_stamp_of(text@, secs.unwrap() as int),
{
    match secs {
        None => String::new(),
        Some(s) => {
            let t: i64 = s as i64;
            match local_minute_stamp(t, "%Y/%m/%d %H:%M") {
                Some(text) => text,
                None => String::new(),
            }
        },
    }
}

} // verus!
