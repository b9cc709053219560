//! The "New Docker profile" dialog: the host mode, the container list as it
//! loads, the chosen container, the SSH profiles offered for a remote host,
//! and the profile name, which follows the chosen container until the user
//! edits it.
//!
//! The caller lists the containers and saves the profile; it hands the
//! container rows and the names already taken to these functions.

use vstd::prelude::*;

use crate::listing::{self, Order, SortField, SortKey, SortKeyView, key_order, lex_order, sort_positions, str_lowercase};
use crate::naming::{self, is_unique_profile_name, save_base};
use crate::rename_edit::{EditView, KeyOutcome, RenameEdit, eq_ignore_ascii_case, key_effect, strip_newlines};
use crate::text;

verus! {

#[derive(Clone, Copy, Debug, PartialEq, Eq, Structural)]
pub enum HostMode {
    Local,
    Ssh,
}

/// A running container as the dialog shows it.
#[derive(Debug)]
pub struct ContainerRow {
    pub id: String,
    /// The short form of the id, also accepted as a selection.
    pub short_id: String,
    /// The name shown for the container and offered as the profile name.
    pub label: String,
    pub image: String,
}

impl Clone for ContainerRow {
    fn clone(&self) -> (c: Self)
        ensures
            c == *self,
    {
        ContainerRow {
            id: self.id.clone(),
            short_id: self.short_id.clone(),
            label: self.label.clone(),
            image: self.image.clone(),
        }
    }
}

#[derive(Debug)]
pub enum ContainerList {
    Loading,
    Ready(Vec<ContainerRow>),
    Error(String),
}

pub enum ContainerListView {
    Loading,
    Ready(Seq<ContainerRow>),
    Error(Seq<char>),
}

impl View for ContainerList {
    type V = ContainerListView;

    open spec fn view(&self) -> ContainerListView {
        match self {
            ContainerList::Loading => ContainerListView::Loading,
            ContainerList::Ready(rows) => ContainerListView::Ready(rows@),
            ContainerList::Error(e) => ContainerListView::Error(e@),
        }
    }
}

/// An SSH profile offered as the Docker host.
#[derive(Debug)]
pub struct SshProfileRow {
    pub id: u128,
    pub name: String,
    pub summary: String,
}

impl Clone for SshProfileRow {
    fn clone(&self) -> (c: Self)
        ensures
            c == *self,
    {
        SshProfileRow { id: self.id, name: self.name.clone(), summary: self.summary.clone() }
    }
}

pub struct DockerPicker {
    pub mode: HostMode,
    pub containers: ContainerList,
    /// Id (or short id) of the chosen container.
    pub selected_container: Option<String>,
    pub ssh_profiles: Vec<SshProfileRow>,
    pub selected_ssh: Option<u128>,
    pub name: RenameEdit,
    /// Set once the user edits the name; the name then no longer follows
    /// the chosen container.
    pub name_touched: bool,
    pub error: Option<String>,
}

pub struct DockerPickerView {
    pub mode: HostMode,
    pub containers: ContainerListView,
    pub selected_container: Option<Seq<char>>,
    pub ssh_profiles: Seq<SshProfileRow>,
    pub selected_ssh: Option<u128>,
    pub name: EditView,
    pub name_touched: bool,
    pub error: Option<Seq<char>>,
}

pub open spec fn opt_text(s: Option<String>) -> Option<Seq<char>> {
    match s {
        Some(x) => Some(x@),
        None => None,
    }
}

impl View for DockerPicker {
    type V = DockerPickerView;

    open spec fn view(&self) -> DockerPickerView {
        DockerPickerView {
            mode: self.mode,
            containers: self.containers@,
            selected_container: opt_text(self.selected_container),
            ssh_profiles: self.ssh_profiles@,
            selected_ssh: self.selected_ssh,
            name: self.name@,
            name_touched: self.name_touched,
            error: opt_text(self.error),
        }
    }
}

/// A name field: the text with the caret at its end.
pub open spec fn field_view(text: Seq<char>) -> EditView {
    EditView { text, cursor: text.len(), anchor: text.len(), caret_visible: true }
}

/// Index of the first container whose id or short id is `id`.
pub open spec fn find_container(rows: Seq<ContainerRow>, id: Seq<char>) -> Option<int> {
    if exists|k: int| 0 <= k < rows.len() && ((#[trigger] rows[k]).id@ == id || rows[k].short_id@ == id) {
        Some(
            choose|k: int|
                0 <= k < rows.len() && ((#[trigger] rows[k]).id@ == id || rows[k].short_id@ == id)
                    && forall|j: int|
                    0 <= j < k ==> !((#[trigger] rows[j]).id@ == id || rows[j].short_id@ == id),
        )
    } else {
        None
    }
}

fn find_container_index(rows: &Vec<ContainerRow>, id: &str) -> (i: Option<usize>)
    ensures
        match i {
            Some(k) => find_container(rows@, id@) == Some(k as int) && k < rows@.len(),
            None => find_container(rows@, id@) is None,
        },
{
    let target = text::chars_of(id);
    let mut k: usize = 0;
    while k < rows.len()
        invariant
            0 <= k <= rows@.len(),
            target@ == id@,
            forall|j: int| 0 <= j < k ==> !((#[trigger] rows@[j]).id@ == id@ || rows@[j].short_id@ == id@),
        decreases rows@.len() - k,
    {
        let a = text::chars_of(rows[k].id.as_str());
        let b = text::chars_of(rows[k].short_id.as_str());
        if text::chars_eq(a.as_slice(), target.as_slice()) || text::chars_eq(b.as_slice(), target.as_slice()) {
            proof {
                let c = choose|c: int|
                    0 <= c < rows@.len() && ((#[trigger] rows@[c]).id@ == id@ || rows@[c].short_id@ == id@)
                        && forall|j: int|
                        0 <= j < c ==> !((#[trigger] rows@[j]).id@ == id@ || rows@[j].short_id@ == id@);
                assert(rows@[k as int].id@ == id@ || rows@[k as int].short_id@ == id@);
                if c < k {
                    assert(!(rows@[c].id@ == id@ || rows@[c].short_id@ == id@));
                }
                if c > k {
                    assert(!(rows@[k as int].id@ == id@ || rows@[k as int].short_id@ == id@));
                }
            }
            return Some(k);
        }
        k += 1;
    }
    None
}

/// The label offered for the container `id`: its label when it is listed,
/// else the id itself.
pub open spec fn label_for(list: ContainerListView, id: Seq<char>) -> Seq<char> {
    match list {
        ContainerListView::Ready(rows) => match find_container(rows, id) {
            Some(k) => rows[k].label@,
            None => id,
        },
        _ => id,
    }
}

/// The key the SSH profile list is sorted by: the lowercase name.
pub open spec fn name_key(r: SshProfileRow) -> SortKeyView {
    SortKeyView { is_dir: false, name_lower: str_lowercase(r.name@), size: 0, mtime: 0, ext: Seq::empty() }
}

proof fn lemma_name_key_order(a: SshProfileRow, b: SshProfileRow)
    ensures
        key_order(name_key(a), name_key(b), SortField::Name, true) == lex_order(
            str_lowercase(a.name@),
            str_lowercase(b.name@),
        ),
{
    reveal(key_order);
}

/// `rows` sorted by lowercase name, keeping the order of equal names:
/// `sorted` lists `rows` in the order `perm`.
pub open spec fn sorted_by_name(sorted: Seq<SshProfileRow>, rows: Seq<SshProfileRow>) -> bool {
    exists|perm: Seq<usize>|
        {
            &&& listing::is_permutation(perm, rows.len() as int)
            &&& sorted.len() == rows.len()
            &&& forall|k: int| 0 <= k < sorted.len() ==> #[trigger] sorted[k] == rows[perm[k] as int]
            &&& forall|k: int|
                0 <= k < sorted.len() - 1 ==> lex_order(
                    str_lowercase(sorted[k].name@),
                    str_lowercase((#[trigger] sorted[k + 1]).name@),
                ) != Order::Greater
            &&& forall|k: int, l: int|
                0 <= k < l < sorted.len() && lex_order(
                    str_lowercase((#[trigger] sorted[k]).name@),
                    str_lowercase((#[trigger] sorted[l]).name@),
                ) == Order::Equal ==> perm[k] < perm[l]
        }
}

/// SSH profiles ordered by lowercase name; equal names keep their order.
pub fn sort_ssh_profiles(rows: Vec<SshProfileRow>) -> (sorted: Vec<SshProfileRow>)
    ensures
        sorted_by_name(sorted@, rows@),
{
    let mut keys: Vec<SortKey> = Vec::new();
    let mut i: usize = 0;
    while i < rows.len()
        invariant
            0 <= i <= rows@.len(),
            keys@.len() == i,
            forall|k: int| 0 <= k < i ==> (#[trigger] keys@[k])@ == name_key(rows@[k]),
        decreases rows@.len() - i,
    {
        let lower = listing::lowercase_string(rows[i].name.as_str());
        let key = SortKey {
            is_dir: false,
            name_lower: text::chars_of(lower.as_str()),
            size: 0,
            mtime: 0,
            ext: Vec::new(),
        };
        assert(key@ =~= name_key(rows@[i as int]));
        keys.push(key);
        i += 1;
    }
    let perm = sort_positions(&keys, SortField::Name, true);
    let mut out: Vec<SshProfileRow> = Vec::new();
    let mut j: usize = 0;
    while j < perm.len()
        invariant
            listing::is_permutation(perm@, rows@.len() as int),
            keys@.len() == rows@.len(),
            0 <= j <= perm@.len(),
            out@.len() == j,
            forall|k: int| 0 <= k < j ==> #[trigger] out@[k] == rows@[perm@[k] as int],
        decreases perm@.len() - j,
    {
        out.push(rows[perm[j]].clone());
        j += 1;
    }
    proof {
        assert forall|k: int| 0 <= k < out@.len() - 1 implies lex_order(
            str_lowercase(out@[k].name@),
            str_lowercase((#[trigger] out@[k + 1]).name@),
        ) != Order::Greater by {
            lemma_name_key_order(rows@[perm@[k] as int], rows@[perm@[k + 1] as int]);
            assert(keys@[perm@[k] as int]@ == name_key(rows@[perm@[k] as int]));
            assert(keys@[perm@[k + 1] as int]@ == name_key(rows@[perm@[k + 1] as int]));
        }
        assert forall|k: int, l: int|
            0 <= k < l < out@.len() && lex_order(
                str_lowercase((#[trigger] out@[k]).name@),
                str_lowercase((#[trigger] out@[l]).name@),
            ) == Order::Equal implies perm@[k] < perm@[l] by {
            lemma_name_key_order(rows@[perm@[k] as int], rows@[perm@[l] as int]);
            assert(keys@[perm@[k] as int]@ == name_key(rows@[perm@[k] as int]));
            assert(keys@[perm@[l] as int]@ == name_key(rows@[perm@[l] as int]));
        }
    }
    out
}

/// Whether a key edits the name (and so stops it following the chosen
/// container): select-all, cut, a paste that leaves text, deletions and
/// typing.
pub open spec fn key_touches(
    key: Seq<char>,
    chord: bool,
    shift: bool,
    clipboard: Option<Seq<char>>,
    typed: Option<Seq<char>>,
) -> bool {
    if chord && eq_ignore_ascii_case(key, "a"@) {
        true
    } else if chord && eq_ignore_ascii_case(key, "c"@) {
        false
    } else if chord && eq_ignore_ascii_case(key, "x"@) {
        true
    } else if (chord && eq_ignore_ascii_case(key, "v"@)) || (shift && eq_ignore_ascii_case(key, "insert"@)) {
        clipboard matches Some(t) && strip_newlines(t).len() > 0
    } else if key == "backspace"@ || key == "delete"@ {
        true
    } else if key == "left"@ || key == "right"@ || key == "home"@ || key == "end"@ {
        false
    } else {
        typed is Some && !chord
    }
}

/// Why the dialog refuses to save.
pub open spec fn save_refusal(v: DockerPickerView) -> Seq<char> {
    if v.mode != HostMode::Local {
        "Remote Docker over SSH is not available yet."@
    } else {
        match v.containers {
            ContainerListView::Ready(rows) => match v.selected_container {
                Some(sel) => match find_container(rows, sel) {
                    Some(_) => "Name is required"@,
                    None => "Select a container"@,
                },
                None => "Select a container"@,
            },
            _ => "Wait for the container list to load."@,
        }
    }
}

/// The saved profile: its name and the container it opens.
#[derive(Debug)]
pub struct DockerSave {
    pub name: String,
    pub container_id: String,
    /// Open a tab on it right away.
    pub connect: bool,
}

impl DockerPicker {
    /// A fresh dialog: local mode, the container list loading, no name.
    pub fn new(ssh_profiles: Vec<SshProfileRow>) -> (p: Self)
        ensures
            p@.mode == HostMode::Local,
            p@.containers is Loading,
            p@.selected_container is None,
            sorted_by_name(p@.ssh_profiles, ssh_profiles@),
            p@.selected_ssh is None,
            p@.name == field_view(Seq::empty()),
            !p@.name_touched,
            p@.error is None,
    {
        let name = RenameEdit::at_end("");
        proof {
            reveal_strlit("");
            assert(name@.text =~= Seq::<char>::empty());
        }
        DockerPicker {
            mode: HostMode::Local,
            containers: ContainerList::Loading,
            selected_container: None,
            ssh_profiles: sort_ssh_profiles(ssh_profiles),
            selected_ssh: None,
            name,
            name_touched: false,
            error: None,
        }
    }

    /// Opening the dialog again: back to local mode with nothing chosen,
    /// the SSH profiles reloaded and the containers listed again.
    pub fn reset(&mut self, ssh_profiles: Vec<SshProfileRow>)
        ensures
            final(self)@.mode == HostMode::Local,
            final(self)@.containers is Loading,
            final(self)@.selected_container is None,
            sorted_by_name(final(self)@.ssh_profiles, ssh_profiles@),
            final(self)@.selected_ssh is None,
            final(self)@.name == field_view(Seq::empty()),
            !final(self)@.name_touched,
            final(self)@.error is None,
    {
        *self = DockerPicker::new(ssh_profiles);
    }

    /// The SSH profiles to offer, sorted by name.
    pub fn reload_ssh_profiles(&mut self, rows: Vec<SshProfileRow>)
        ensures
            sorted_by_name(final(self)@.ssh_profiles, rows@),
            final(self)@ == (DockerPickerView { ssh_profiles: final(self)@.ssh_profiles, ..old(self)@ }),
    {
        self.ssh_profiles = sort_ssh_profiles(rows);
    }

    /// The mode tabs. Choosing SSH reloads the profiles (the caller hands
    /// them over then).
    pub fn set_mode(&mut self, mode: HostMode)
        ensures
            final(self)@ == (DockerPickerView { mode, error: None, ..old(self)@ }),
    {
        self.mode = mode;
        self.error = None;
    }

    pub fn select_ssh(&mut self, id: u128)
        ensures
            final(self)@ == (DockerPickerView { selected_ssh: Some(id), ..old(self)@ }),
    {
        self.selected_ssh = Some(id);
    }

    /// The container list is requested again.
    pub fn begin_refresh(&mut self)
        ensures
            final(self)@ == (DockerPickerView {
                containers: ContainerListView::Loading,
                selected_container: None,
                error: None,
                ..old(self)@
            }),
    {
        self.containers = ContainerList::Loading;
        self.selected_container = None;
        self.error = None;
    }

    /// The Refresh button: in local mode the name follows the container
    /// again and the list is requested (returns `true`); in SSH mode the
    /// caller reloads the profiles (returns `false`).
    pub fn refresh(&mut self) -> (list_again: bool)
        ensures
            list_again == (old(self)@.mode == HostMode::Local),
            list_again ==> final(self)@ == (DockerPickerView {
                containers: ContainerListView::Loading,
                selected_container: None,
                error: None,
                name_touched: false,
                ..old(self)@
            }),
            !list_again ==> final(self)@ == old(self)@,
    {
        if self.mode == HostMode::Local {
            self.name_touched = false;
            self.begin_refresh();
            true
        } else {
            false
        }
    }

    /// Until the user edits it, the name follows the container: `label`
    /// made unique among the profile names `existing`.
    pub fn apply_container_default_name(&mut self, label: &str, existing: &Vec<String>)
        ensures
            old(self)@.name_touched ==> final(self)@ == old(self)@,
            !old(self)@.name_touched ==> exists|n: Seq<char>|
                is_unique_profile_name(n, label@, existing@) && final(self)@ == (DockerPickerView {
                    name: field_view(n),
                    ..old(self)@
                }),
    {
        if self.name_touched {
            return;
        }
        let n = naming::unique_profile_name(label, existing.as_slice());
        self.name = RenameEdit::at_end(n.as_str());
    }

    /// A container was clicked.
    pub fn select_container(&mut self, id: String, existing: &Vec<String>)
        ensures
            old(self)@.name_touched ==> final(self)@ == (DockerPickerView {
                selected_container: Some(id@),
                error: None,
                ..old(self)@
            }),
            !old(self)@.name_touched ==> exists|n: Seq<char>|
                is_unique_profile_name(n, label_for(old(self)@.containers, id@), existing@) && final(self)@ == (DockerPickerView {
                    name: field_view(n),
                    selected_container: Some(id@),
                    error: None,
                    ..old(self)@
                }),
    {
        let label = match &self.containers {
            ContainerList::Ready(rows) => match find_container_index(rows, id.as_str()) {
                Some(k) => rows[k].label.clone(),
                None => id.clone(),
            },
            _ => id.clone(),
        };
        assert(label@ == label_for(old(self)@.containers, id@));
        self.apply_container_default_name(label.as_str(), existing);
        let ghost mid = self@;
        self.selected_container = Some(id);
        self.error = None;
        proof {
            if !old(self)@.name_touched {
                let n = choose|n: Seq<char>|
                    is_unique_profile_name(n, label@, existing@) && mid == (DockerPickerView {
                        name: field_view(n),
                        ..old(self)@
                    });
                assert(self@ == (DockerPickerView {
                    name: field_view(n),
                    selected_container: Some(id@),
                    error: None,
                    ..old(self)@
                }));
            }
        }
    }

    /// The container listing answered: `Ok` with the running containers
    /// (the first is chosen), or the error; `None` when the listing was
    /// dropped.
    pub fn containers_reply(&mut self, reply: Option<Result<Vec<ContainerRow>, String>>, existing: &Vec<String>)
        ensures
            match reply {
                Some(Ok(rows)) => if rows@.len() > 0 {
                    let chosen = DockerPickerView {
                        containers: ContainerListView::Ready(rows@),
                        selected_container: Some(rows@[0].id@),
                        ..old(self)@
                    };
                    &&& old(self)@.name_touched ==> final(self)@ == chosen
                    &&& !old(self)@.name_touched ==> exists|n: Seq<char>|
                        is_unique_profile_name(n, rows@[0].label@, existing@) && final(self)@ == (
                        DockerPickerView { name: field_view(n), ..chosen })
                } else {
                    final(self)@ == (DockerPickerView {
                        containers: ContainerListView::Ready(rows@),
                        selected_container: None,
                        ..old(self)@
                    })
                },
                Some(Err(e)) => final(self)@ == (DockerPickerView {
                    containers: ContainerListView::Error(e@),
                    selected_container: None,
                    ..old(self)@
                }),
                None => final(self)@ == (DockerPickerView {
                    containers: ContainerListView::Error("List cancelled"@),
                    selected_container: None,
                    ..old(self)@
                }),
            },
    {
        match reply {
            Some(Ok(rows)) => {
                if rows.len() > 0 {
                    let label = rows[0].label.clone();
                    let id = rows[0].id.clone();
                    self.apply_container_default_name(label.as_str(), existing);
                    self.selected_container = Some(id);
                } else {
                    self.selected_container = None;
                }
                self.containers = ContainerList::Ready(rows);
            },
            Some(Err(e)) => {
                self.containers = ContainerList::Error(e);
                self.selected_container = None;
            },
            None => {
                self.containers = ContainerList::Error(text::owned("List cancelled"));
                self.selected_container = None;
            },
        }
    }

    /// A key in the name field; an edit marks the name as the user's.
    pub fn handle_name_key(
        &mut self,
        key: &str,
        chord: bool,
        shift: bool,
        clipboard: Option<&str>,
        typed: Option<&str>,
    ) -> (outcome: KeyOutcome)
        requires
            clipboard matches Some(t) ==> old(self)@.name.lo() + t@.len() <= usize::MAX,
            typed matches Some(t) ==> old(self)@.name.lo() + t@.len() <= usize::MAX,
        ensures
            ({
                let clip = match clipboard {
                    Some(t) => Some(t@),
                    None => None,
                };
                let ty = match typed {
                    Some(t) => Some(t@),
                    None => None,
                };
                let (e2, handled, copy) = key_effect(old(self)@.name, key@, chord, shift, clip, ty);
                &&& outcome.handled == handled
                &&& match outcome.copy {
                    Some(c) => copy == Some(c@),
                    None => copy is None,
                }
                &&& final(self)@ == (DockerPickerView {
                    name: if handled {
                        EditView { caret_visible: true, ..e2 }
                    } else {
                        e2
                    },
                    name_touched: old(self)@.name_touched || key_touches(key@, chord, shift, clip, ty),
                    ..old(self)@
                })
            }),
    {
        let k = text::chars_of(key);
        let ks = k.as_slice();
        let touches = if chord && crate::rename_edit::eq_ci_str(ks, "a") {
            true
        } else if chord && crate::rename_edit::eq_ci_str(ks, "c") {
            false
        } else if chord && crate::rename_edit::eq_ci_str(ks, "x") {
            true
        } else if (chord && crate::rename_edit::eq_ci_str(ks, "v")) || (shift && crate::rename_edit::eq_ci_str(
            ks,
            "insert",
        )) {
            match clipboard {
                Some(t) => {
                    let cleaned = crate::rename_edit::strip_newlines_string(t);
                    cleaned.as_str().unicode_len() > 0
                },
                None => false,
            }
        } else if text::eq_str(ks, "backspace") || text::eq_str(ks, "delete") {
            true
        } else if text::eq_str(ks, "left") || text::eq_str(ks, "right") || text::eq_str(ks, "home")
            || text::eq_str(ks, "end") {
            false
        } else {
            typed.is_some() && !chord
        };
        let outcome = self.name.handle_key(key, chord, shift, clipboard, typed);
        if outcome.handled {
            self.name.caret_visible = true;
        }
        if touches {
            self.name_touched = true;
        }
        outcome
    }

    /// Text from an input method for the name field, replacing the UTF-16
    /// range `range` (see `RenameEdit::replace_utf16_range`); a change
    /// marks the name as the user's.
    pub fn replace_name_utf16(&mut self, range: Option<(usize, usize)>, typed: &str) -> (changed: bool)
        requires
            old(self).name.text@.len() <= usize::MAX / 2,
            typed@.len() <= usize::MAX / 2,
            range is None ==> old(self)@.name.lo() + typed@.len() <= usize::MAX,
        ensures
            changed == (range is Some || strip_newlines(typed@).len() > 0),
            final(self)@ == (DockerPickerView {
                name: crate::rename_edit::replaced_utf16(old(self)@.name, range, typed@),
                name_touched: old(self)@.name_touched || changed,
                ..old(self)@
            }),
    {
        let changed = self.name.replace_utf16_range(range, typed);
        if changed {
            self.name_touched = true;
        }
        changed
    }

    /// Whether Enter saves and connects: local mode with the list loaded
    /// and a container chosen.
    pub fn enter_saves(&self) -> (saves: bool)
        ensures
            saves == (self@.mode == HostMode::Local && self@.containers is Ready
                && self@.selected_container is Some),
    {
        self.mode == HostMode::Local && (match &self.containers {
            ContainerList::Ready(_) => true,
            _ => false,
        }) && self.selected_container.is_some()
    }

    /// Save (and, with `connect`, open) a profile for the chosen container,
    /// named by the typed name or the container's label, made unique among
    /// `existing`. On a refusal only the error changes.
    pub fn save(&mut self, connect: bool, existing: &Vec<String>) -> (saved: Option<DockerSave>)
        ensures
            match saved {
                Some(s) => {
                    &&& final(self)@ == old(self)@
                    &&& s.connect == connect
                    &&& old(self)@.mode == HostMode::Local
                    &&& old(self)@.containers matches ContainerListView::Ready(rows) && old(self)@.selected_container matches Some(sel) && find_container(rows, sel) matches Some(k)
                        && s.container_id@ == rows[k].id@ && s.name@.len() > 0 && is_unique_profile_name(
                        s.name@,
                        save_base(old(self)@.name.text, rows[k].label@),
                        existing@,
                    )
                },
                None => final(self)@ == (DockerPickerView { error: Some(save_refusal(old(self)@)), ..old(self)@ }),
            },
            saved is None ==> !(old(self)@.mode == HostMode::Local && old(self)@.containers is Ready
                && old(self)@.selected_container is Some && (old(self)@.containers matches ContainerListView::Ready(
                rows,
            ) && old(self)@.selected_container matches Some(sel) && find_container(rows, sel) matches Some(k)
                && exists|n: Seq<char>|
                is_unique_profile_name(n, save_base(old(self)@.name.text, rows[k].label@), existing@)
                    && n.len() > 0)),
    {
        if self.mode != HostMode::Local {
            self.error = Some(text::owned("Remote Docker over SSH is not available yet."));
            return None;
        }
        let rows = match &self.containers {
            ContainerList::Ready(rows) => rows,
            _ => {
                self.error = Some(text::owned("Wait for the container list to load."));
                return None;
            },
        };
        let sel = match &self.selected_container {
            Some(s) => s,
            None => {
                self.error = Some(text::owned("Select a container"));
                return None;
            },
        };
        let k = match find_container_index(rows, sel.as_str()) {
            Some(k) => k,
            None => {
                self.error = Some(text::owned("Select a container"));
                return None;
            },
        };
        let name = naming::resolve_save_name(self.name.text.as_str(), rows[k].label.as_str(), existing.as_slice());
        if name.as_str().unicode_len() == 0 {
            proof {
                naming::lemma_unique_profile_name_determined(
                    save_base(self@.name.text, rows@[k as int].label@),
                    existing@,
                );
            }
            self.error = Some(text::owned("Name is required"));
            return None;
        }
        let container_id = rows[k].id.clone();
        Some(DockerSave { name, container_id, connect })
    }
}

} // verus!
