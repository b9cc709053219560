//! The Files browser's editing state: the one-line prompts (new folder,
//! rename, permissions, delete and open confirmations), the address bar and
//! the filter bar, and what their keys and submissions ask of the caller.
//!
//! The caller does the file operations and path joins of the session, the
//! clipboard and the caret blink; these functions decide.

use vstd::prelude::*;

use crate::files;
use crate::listing::{RemoteEntry, SortState};
use crate::rename_edit::{EditView, RenameEdit, key_effect, new_view};
use crate::text;

verus! {

#[derive(Clone, Copy, Debug, PartialEq, Eq, Structural)]
pub enum FilesKind {
    Sftp,
    Local,
}

#[derive(Debug)]
pub enum FilesPrompt {
    NewFolder { edit: RenameEdit },
    Rename { path: String, is_dir: bool, edit: RenameEdit },
    Chmod { path: String, edit: RenameEdit },
    ConfirmDelete { path: String, is_dir: bool, name: String },
    /// A remote file: confirm downloading it to a temporary folder and
    /// opening it.
    ConfirmOpenRemote { entry: RemoteEntry },
}

pub enum PromptView {
    NewFolder { edit: EditView },
    Rename { path: Seq<char>, is_dir: bool, edit: EditView },
    Chmod { path: Seq<char>, edit: EditView },
    ConfirmDelete { path: Seq<char>, is_dir: bool, name: Seq<char> },
    ConfirmOpenRemote { entry: RemoteEntry },
}

impl View for FilesPrompt {
    type V = PromptView;

    open spec fn view(&self) -> PromptView {
        match self {
            FilesPrompt::NewFolder { edit } => PromptView::NewFolder { edit: edit@ },
            FilesPrompt::Rename { path, is_dir, edit } => PromptView::Rename {
                path: path@,
                is_dir: *is_dir,
                edit: edit@,
            },
            FilesPrompt::Chmod { path, edit } => PromptView::Chmod { path: path@, edit: edit@ },
            FilesPrompt::ConfirmDelete { path, is_dir, name } => PromptView::ConfirmDelete {
                path: path@,
                is_dir: *is_dir,
                name: name@,
            },
            FilesPrompt::ConfirmOpenRemote { entry } => PromptView::ConfirmOpenRemote { entry: *entry },
        }
    }
}

/// The heading of a prompt.
pub fn prompt_title(p: &FilesPrompt) -> (t: &'static str)
    ensures
        t@ == match p@ {
            PromptView::NewFolder { .. } => "New folder"@,
            PromptView::Rename { .. } => "Rename"@,
            PromptView::Chmod { .. } => "Permissions (octal)"@,
            PromptView::ConfirmDelete { .. } => "Delete?"@,
            PromptView::ConfirmOpenRemote { .. } => "Open remote file?"@,
        },
{
    match p {
        FilesPrompt::NewFolder { .. } => "New folder",
        FilesPrompt::Rename { .. } => "Rename",
        FilesPrompt::Chmod { .. } => "Permissions (octal)",
        FilesPrompt::ConfirmDelete { .. } => "Delete?",
        FilesPrompt::ConfirmOpenRemote { .. } => "Open remote file?",
    }
}

/// What a submitted prompt asks of the caller.
#[derive(Debug)]
pub enum PromptAction {
    /// Nothing to run.
    Nothing,
    /// Create the folder `name` inside `cwd`.
    MakeDir { cwd: String, name: String, kind: FilesKind },
    /// Rename the entry at `path` to `name` within its folder.
    Rename { path: String, name: String, kind: FilesKind },
    /// Change the permissions of `path` to the octal text `mode`; when the
    /// text does not parse the caller puts the prompt back with
    /// `chmod_refused`.
    Chmod { path: String, mode: RenameEdit },
    Remove { path: String, is_dir: bool },
    /// Download the entry to a temporary folder and open it.
    OpenRemote { entry: RemoteEntry },
}

/// Outcome of a key in one of the Files editors.
#[derive(Debug)]
pub enum FilesKey {
    /// Not for this editor.
    Ignored,
    /// The key was consumed; `copy` is text to put on the clipboard.
    Edited { copy: Option<String> },
    Submitted(PromptAction),
    /// Enter in the address bar.
    Navigate(PathAction),
    Cancelled,
}

/// What Enter in the address bar asks of the caller.
#[derive(Debug)]
pub enum PathAction {
    /// Nothing to do (the error says why).
    Nothing,
    /// Resolve the typed local path to an existing folder and list it; on
    /// failure call `local_path_refused`.
    ResolveLocal { raw: String },
    /// List this remote folder.
    LoadDir { path: String },
}

pub struct FilesUi {
    pub cwd: Option<String>,
    pub kind: Option<FilesKind>,
    pub entries: Vec<RemoteEntry>,
    /// Path of the selected entry.
    pub selected: Option<String>,
    pub error: Option<String>,
    pub prompt: Option<FilesPrompt>,
    /// Address bar.
    pub path_edit: RenameEdit,
    pub editing_path: bool,
    /// Name filter of the current folder.
    pub search_edit: RenameEdit,
    pub editing_search: bool,
    pub search_open: bool,
    pub sort: SortState,
    /// Home folder of the bound session, once known.
    pub home: Option<String>,
    /// A listing (or the home lookup) is in flight.
    pub listing: bool,
    /// Bumped by every listing request and every reset, so that replies to
    /// older requests are ignored.
    pub list_gen: u64,
    /// The pane whose files are shown.
    pub bound_pane: Option<u128>,
    /// Whether that pane had a live file channel when it was bound.
    pub bound_sftp_alive: bool,
    /// The entry whose context menu is open (by path).
    pub entry_menu: Option<String>,
    /// The transfer whose context menu is open.
    pub transfer_menu: Option<u128>,
}

pub struct FilesUiView {
    pub cwd: Option<Seq<char>>,
    pub kind: Option<FilesKind>,
    pub entries: Seq<RemoteEntry>,
    pub selected: Option<Seq<char>>,
    pub error: Option<Seq<char>>,
    pub prompt: Option<PromptView>,
    pub path_edit: EditView,
    pub editing_path: bool,
    pub search_edit: EditView,
    pub editing_search: bool,
    pub search_open: bool,
    pub sort: SortState,
    pub home: Option<Seq<char>>,
    pub listing: bool,
    pub list_gen: u64,
    pub bound_pane: Option<u128>,
    pub bound_sftp_alive: bool,
    pub entry_menu: Option<Seq<char>>,
    pub transfer_menu: Option<u128>,
}

pub open spec fn opt_view(s: Option<String>) -> Option<Seq<char>> {
    match s {
        Some(x) => Some(x@),
        None => None,
    }
}

impl View for FilesUi {
    type V = FilesUiView;

    open spec fn view(&self) -> FilesUiView {
        FilesUiView {
            cwd: opt_view(self.cwd),
            kind: self.kind,
            entries: self.entries@,
            selected: opt_view(self.selected),
            error: opt_view(self.error),
            prompt: match self.prompt {
                Some(p) => Some(p@),
                None => None,
            },
            path_edit: self.path_edit@,
            editing_path: self.editing_path,
            search_edit: self.search_edit@,
            editing_search: self.editing_search,
            search_open: self.search_open,
            sort: self.sort,
            home: opt_view(self.home),
            listing: self.listing,
            list_gen: self.list_gen,
            bound_pane: self.bound_pane,
            bound_sftp_alive: self.bound_sftp_alive,
            entry_menu: opt_view(self.entry_menu),
            transfer_menu: self.transfer_menu,
        }
    }
}

/// An empty filter editor (caret at the start).
pub open spec fn empty_filter() -> EditView {
    EditView { text: Seq::empty(), cursor: 0, anchor: 0, caret_visible: true }
}

/// Index of the first entry at `path`.
pub open spec fn entry_at(entries: Seq<RemoteEntry>, path: Seq<char>) -> Option<int> {
    if exists|k: int| 0 <= k < entries.len() && (#[trigger] entries[k]).path@ == path {
        Some(
            choose|k: int|
                0 <= k < entries.len() && (#[trigger] entries[k]).path@ == path && forall|j: int|
                    0 <= j < k ==> (#[trigger] entries[j]).path@ != path,
        )
    } else {
        None
    }
}

/// The first entry at `path`.
pub fn find_entry(entries: &Vec<RemoteEntry>, path: &str) -> (i: Option<usize>)
    ensures
        match i {
            Some(k) => entry_at(entries@, path@) == Some(k as int) && k < entries@.len(),
            None => entry_at(entries@, path@) is None,
        },
{
    let target = text::chars_of(path);
    let mut k: usize = 0;
    while k < entries.len()
        invariant
            0 <= k <= entries@.len(),
            target@ == path@,
            forall|j: int| 0 <= j < k ==> (#[trigger] entries@[j]).path@ != path@,
        decreases entries@.len() - k,
    {
        let p = text::chars_of(entries[k].path.as_str());
        if text::chars_eq(p.as_slice(), target.as_slice()) {
            proof {
                let c = choose|c: int|
                    0 <= c < entries@.len() && (#[trigger] entries@[c]).path@ == path@ && forall|j: int|
                        0 <= j < c ==> (#[trigger] entries@[j]).path@ != path@;
                assert(entries@[k as int].path@ == path@);
                if c < k {
                    assert(entries@[c].path@ != path@);
                }
                if c > k {
                    assert(entries@[k as int].path@ != path@);
                }
            }
            return Some(k);
        }
        k += 1;
    }
    None
}

impl FilesUi {
    /// "New folder…": a prompt over the text `New folder`, or an error
    /// when no folder is open.
    pub fn begin_new_folder(&mut self) -> (started: bool)
        ensures
            started == (old(self).cwd is Some),
            started ==> final(self)@ == (FilesUiView {
                prompt: Some(PromptView::NewFolder { edit: new_view("New folder"@) }),
                ..old(self)@
            }),
            !started ==> final(self)@ == (FilesUiView { error: Some("Open a folder first"@), ..old(self)@ }),
    {
        if self.cwd.is_none() {
            self.error = Some(text::owned("Open a folder first"));
            return false;
        }
        self.prompt = Some(FilesPrompt::NewFolder { edit: RenameEdit::new("New folder") });
        true
    }

    /// "Rename…" on the selected entry: a prompt over its name.
    pub fn begin_rename_selected(&mut self) -> (started: bool)
        ensures
            match old(self)@.selected {
                Some(p) => match entry_at(old(self)@.entries, p) {
                    Some(k) => started && final(self)@ == (FilesUiView {
                        prompt: Some(
                            PromptView::Rename {
                                path: old(self)@.entries[k].path@,
                                is_dir: old(self)@.entries[k].is_dir,
                                edit: new_view(old(self)@.entries[k].name@),
                            },
                        ),
                        ..old(self)@
                    }),
                    None => !started && final(self)@ == old(self)@,
                },
                None => !started && final(self)@ == old(self)@,
            },
    {
        let k = match &self.selected {
            None => {
                return false;
            },
            Some(p) => match find_entry(&self.entries, p.as_str()) {
                None => {
                    return false;
                },
                Some(k) => k,
            },
        };
        let path = self.entries[k].path.clone();
        let is_dir = self.entries[k].is_dir;
        let edit = RenameEdit::new(self.entries[k].name.as_str());
        self.prompt = Some(FilesPrompt::Rename { path, is_dir, edit });
        true
    }

    /// "Permissions…" on the selected entry: a prompt over `755`.
    pub fn begin_chmod_selected(&mut self) -> (started: bool)
        ensures
            match old(self)@.selected {
                Some(p) => started && final(self)@ == (FilesUiView {
                    prompt: Some(PromptView::Chmod { path: p, edit: new_view("755"@) }),
                    ..old(self)@
                }),
                None => !started && final(self)@ == old(self)@,
            },
    {
        let path = match &self.selected {
            None => {
                return false;
            },
            Some(p) => p.clone(),
        };
        self.prompt = Some(FilesPrompt::Chmod { path, edit: RenameEdit::new("755") });
        true
    }

    /// "Delete…" on the selected entry: a confirmation.
    pub fn begin_delete_selected(&mut self) -> (started: bool)
        ensures
            match old(self)@.selected {
                Some(p) => match entry_at(old(self)@.entries, p) {
                    Some(k) => started && final(self)@ == (FilesUiView {
                        prompt: Some(
                            PromptView::ConfirmDelete {
                                path: old(self)@.entries[k].path@,
                                is_dir: old(self)@.entries[k].is_dir,
                                name: old(self)@.entries[k].name@,
                            },
                        ),
                        ..old(self)@
                    }),
                    None => !started && final(self)@ == old(self)@,
                },
                None => !started && final(self)@ == old(self)@,
            },
    {
        let k = match &self.selected {
            None => {
                return false;
            },
            Some(p) => match find_entry(&self.entries, p.as_str()) {
                None => {
                    return false;
                },
                Some(k) => k,
            },
        };
        let path = self.entries[k].path.clone();
        let is_dir = self.entries[k].is_dir;
        let name = self.entries[k].name.clone();
        self.prompt = Some(FilesPrompt::ConfirmDelete { path, is_dir, name });
        true
    }

    /// Opening a remote file first asks for confirmation; folders are not
    /// opened this way.
    pub fn begin_open_remote(&mut self, entry: RemoteEntry)
        ensures
            entry.is_dir ==> final(self)@ == old(self)@,
            !entry.is_dir ==> final(self)@ == (FilesUiView {
                prompt: Some(PromptView::ConfirmOpenRemote { entry }),
                ..old(self)@
            }),
    {
        if entry.is_dir {
            return;
        }
        self.prompt = Some(FilesPrompt::ConfirmOpenRemote { entry });
    }

    pub fn cancel_prompt(&mut self)
        ensures
            final(self)@ == (FilesUiView { prompt: None, ..old(self)@ }),
    {
        self.prompt = None;
    }

    /// The permissions text did not parse: the prompt comes back with the
    /// parser's message.
    pub fn chmod_refused(&mut self, path: String, mode: RenameEdit, message: String)
        ensures
            final(self)@ == (FilesUiView {
                error: Some(message@),
                prompt: Some(PromptView::Chmod { path: path@, edit: mode@ }),
                ..old(self)@
            }),
    {
        self.error = Some(message);
        self.prompt = Some(FilesPrompt::Chmod { path, edit: mode });
    }

    /// Enter in a prompt: the prompt closes and its operation is handed to
    /// the caller; a name that is empty or holds a path separator puts the
    /// prompt back with an error.
    pub fn submit_prompt(&mut self) -> (action: PromptAction)
        ensures
            prompt_submitted(old(self)@, final(self)@, action),
    {
        let prompt = match self.prompt.take() {
            None => {
                return PromptAction::Nothing;
            },
            Some(p) => p,
        };
        match prompt {
            FilesPrompt::NewFolder { edit } => {
                match files::valid_entry_name(edit.text.as_str()) {
                    None => {
                        self.error = Some(text::owned("Invalid folder name"));
                        self.prompt = Some(FilesPrompt::NewFolder { edit });
                        PromptAction::Nothing
                    },
                    Some(name) => match (&self.cwd, self.kind) {
                        (Some(cwd), Some(kind)) => PromptAction::MakeDir { cwd: cwd.clone(), name, kind },
                        _ => PromptAction::Nothing,
                    },
                }
            },
            FilesPrompt::Rename { path, is_dir, edit } => {
                match files::valid_entry_name(edit.text.as_str()) {
                    None => {
                        let t = text::trim_string(edit.text.as_str());
                        self.error = Some(text::owned("Invalid name"));
                        self.prompt = Some(
                            FilesPrompt::Rename { path, is_dir, edit: RenameEdit::new(t.as_str()) },
                        );
                        PromptAction::Nothing
                    },
                    Some(name) => match self.kind {
                        Some(kind) => PromptAction::Rename { path, name, kind },
                        None => PromptAction::Nothing,
                    },
                }
            },
            FilesPrompt::Chmod { path, edit } => PromptAction::Chmod { path, mode: edit },
            FilesPrompt::ConfirmDelete { path, is_dir, .. } => PromptAction::Remove { path, is_dir },
            FilesPrompt::ConfirmOpenRemote { entry } => PromptAction::OpenRemote { entry },
        }
    }

    /// A key while a prompt is open: confirmations take Enter and Escape
    /// only; text prompts also edit their text.
    pub fn handle_prompt_key(
        &mut self,
        key: &str,
        chord: bool,
        shift: bool,
        clipboard: Option<&str>,
        typed: Option<&str>,
    ) -> (outcome: FilesKey)
        requires
            clipboard matches Some(t) ==> t@.len() + prompt_lo(old(self)@.prompt) <= usize::MAX,
            typed matches Some(t) ==> t@.len() + prompt_lo(old(self)@.prompt) <= usize::MAX,
        ensures
            old(self)@.prompt is None ==> outcome is Ignored && final(self)@ == old(self)@,
            old(self)@.prompt is Some && key@ == "escape"@ ==> outcome is Cancelled && final(self)@
                == (FilesUiView { prompt: None, ..old(self)@ }),
            old(self)@.prompt is Some && key@ == "enter"@ ==> (outcome matches FilesKey::Submitted(a)
                && prompt_submitted(old(self)@, final(self)@, a)),
            (old(self)@.prompt matches Some(PromptView::ConfirmDelete { .. }) || old(self)@.prompt matches Some(
                PromptView::ConfirmOpenRemote { .. },
            )) && key@ != "escape"@ && key@ != "enter"@ ==> outcome is Ignored && final(self)@ == old(self)@,
            match old(self)@.prompt {
                Some(p) => match prompt_edit(p) {
                    Some(e) => (key@ != "escape"@ && key@ != "enter"@) ==> {
                        let (e2, handled, copy) = key_effect(
                            e,
                            key@,
                            chord,
                            shift,
                            match clipboard {
                                Some(t) => Some(t@),
                                None => None,
                            },
                            match typed {
                                Some(t) => Some(t@),
                                None => None,
                            },
                        );
                        &&& final(self)@ == (FilesUiView {
                            prompt: Some(with_prompt_edit(p, e2)),
                            ..old(self)@
                        })
                        &&& handled ==> (outcome matches FilesKey::Edited { copy: c } && opt_view(c)
                            == copy)
                        &&& !handled ==> outcome is Ignored
                    },
                    None => true,
                },
                None => true,
            },
    {
        let confirm = match &self.prompt {
            None => {
                return FilesKey::Ignored;
            },
            Some(FilesPrompt::ConfirmDelete { .. }) => true,
            Some(FilesPrompt::ConfirmOpenRemote { .. }) => true,
            Some(_) => false,
        };
        let k = text::chars_of(key);
        proof {
            reveal_strlit("escape");
            reveal_strlit("enter");
            assert("escape"@.len() != "enter"@.len());
        }
        if text::eq_str(k.as_slice(), "escape") {
            self.prompt = None;
            return FilesKey::Cancelled;
        }
        if text::eq_str(k.as_slice(), "enter") {
            return FilesKey::Submitted(self.submit_prompt());
        }
        if confirm {
            return FilesKey::Ignored;
        }
        let mut prompt = match self.prompt.take() {
            Some(p) => p,
            None => {
                return FilesKey::Ignored;
            },
        };
        let out = edit_prompt(&mut prompt, key, chord, shift, clipboard, typed);
        self.prompt = Some(prompt);
        if out.handled {
            FilesKey::Edited { copy: out.copy }
        } else {
            FilesKey::Ignored
        }
    }

    // ------------------------------------------------------------ address bar

    /// Click on the address bar: edit the current path, all selected.
    pub fn begin_path_edit(&mut self)
        ensures
            old(self)@.cwd is None && old(self)@.path_edit.text.len() == 0 ==> final(self)@ == old(self)@,
            !(old(self)@.cwd is None && old(self)@.path_edit.text.len() == 0) ==> final(self)@ == (
            FilesUiView {
                editing_search: false,
                editing_path: true,
                path_edit: (if old(self)@.path_edit.text.len() == 0 {
                    new_view(old(self)@.cwd->0)
                } else {
                    old(self)@.path_edit
                }).select_all(),
                ..old(self)@
            }),
    {
        let empty = self.path_edit.char_len() == 0;
        if self.cwd.is_none() && empty {
            return;
        }
        self.editing_search = false;
        self.editing_path = true;
        if empty {
            match &self.cwd {
                Some(cwd) => {
                    self.path_edit = RenameEdit::new(cwd.as_str());
                },
                None => {},
            }
        }
        self.path_edit.select_all();
    }

    /// Escape in the address bar: back to the current path.
    pub fn cancel_path_edit(&mut self)
        ensures
            final(self)@ == (FilesUiView {
                path_edit: match old(self)@.cwd {
                    Some(c) => new_view(c),
                    None => old(self)@.path_edit,
                },
                editing_path: false,
                ..old(self)@
            }),
    {
        match &self.cwd {
            Some(cwd) => {
                self.path_edit = RenameEdit::new(cwd.as_str());
            },
            None => {},
        }
        self.editing_path = false;
    }


    /// Enter in the address bar.
    pub fn submit_path_edit(&mut self) -> (action: PathAction)
        ensures
            match old(self)@.kind {
                Some(FilesKind::Local) => final(self)@ == old(self)@ && (action matches PathAction::ResolveLocal {
                    raw,
                } && raw@ == old(self)@.path_edit.text),
                Some(FilesKind::Sftp) => match files::spec_clean_remote_path(old(self)@.path_edit.text) {
                    Some(p) => final(self)@ == (FilesUiView { editing_path: false, ..old(self)@ }) && (
                    action matches PathAction::LoadDir { path } && path@ == p),
                    None => action is Nothing && final(self)@ == (FilesUiView {
                        error: Some("Path is empty"@),
                        ..old(self)@
                    }),
                },
                None => action is Nothing && final(self)@ == (FilesUiView {
                    error: Some("No session open"@),
                    ..old(self)@
                }),
            },
    {
        match self.kind {
            Some(FilesKind::Local) => PathAction::ResolveLocal { raw: self.path_edit.text.clone() },
            Some(FilesKind::Sftp) => match files::clean_remote_path(self.path_edit.text.as_str()) {
                Some(p) => {
                    self.editing_path = false;
                    PathAction::LoadDir { path: p }
                },
                None => {
                    self.error = Some(text::owned("Path is empty"));
                    PathAction::Nothing
                },
            },
            None => {
                self.error = Some(text::owned("No session open"));
                PathAction::Nothing
            },
        }
    }

    /// The typed local path did not resolve to a folder.
    pub fn local_path_refused(&mut self, message: String)
        ensures
            final(self)@ == (FilesUiView { error: Some(message@), editing_path: true, ..old(self)@ }),
    {
        self.error = Some(message);
        self.editing_path = true;
    }

    /// A key while the address bar is edited.
    pub fn handle_path_key(
        &mut self,
        key: &str,
        chord: bool,
        shift: bool,
        clipboard: Option<&str>,
        typed: Option<&str>,
    ) -> (outcome: FilesKey)
        requires
            clipboard matches Some(t) ==> t@.len() + old(self)@.path_edit.lo() <= usize::MAX,
            typed matches Some(t) ==> t@.len() + old(self)@.path_edit.lo() <= usize::MAX,
        ensures
            !old(self)@.editing_path || old(self)@.prompt is Some ==> outcome is Ignored && final(self)@ == old(self)@,
            old(self)@.editing_path && old(self)@.prompt is None ==> {
                if key@ == "enter"@ {
                    outcome is Navigate
                } else if key@ == "escape"@ {
                    outcome is Cancelled && final(self)@ == (FilesUiView {
                        path_edit: match old(self)@.cwd {
                            Some(c) => new_view(c),
                            None => old(self)@.path_edit,
                        },
                        editing_path: false,
                        ..old(self)@
                    })
                } else {
                    let (e2, handled, copy) = key_effect(
                        old(self)@.path_edit,
                        key@,
                        chord,
                        shift,
                        match clipboard {
                            Some(t) => Some(t@),
                            None => None,
                        },
                        match typed {
                            Some(t) => Some(t@),
                            None => None,
                        },
                    );
                    &&& final(self)@ == (FilesUiView { path_edit: e2, ..old(self)@ })
                    &&& handled ==> (outcome matches FilesKey::Edited { copy: c } && opt_view(c)
                        == copy)
                    &&& !handled ==> outcome is Ignored
                }
            },
    {
        if !self.editing_path || self.prompt.is_some() {
            return FilesKey::Ignored;
        }
        let k = text::chars_of(key);
        if text::eq_str(k.as_slice(), "enter") {
            return FilesKey::Navigate(self.submit_path_edit());
        }
        if text::eq_str(k.as_slice(), "escape") {
            self.cancel_path_edit();
            return FilesKey::Cancelled;
        }
        let out = self.path_edit.handle_key(key, chord, shift, clipboard, typed);
        if out.handled {
            FilesKey::Edited { copy: out.copy }
        } else {
            FilesKey::Ignored
        }
    }

    /// A key for the filter bar: Ctrl/Cmd+F opens and focuses it; Escape
    /// empties it, or closes it when empty or not focused; Enter leaves
    /// it; other keys edit its text.
    pub fn handle_search_key(
        &mut self,
        key: &str,
        chord: bool,
        shift: bool,
        clipboard: Option<&str>,
        typed: Option<&str>,
    ) -> (outcome: FilesKey)
        requires
            clipboard matches Some(t) ==> t@.len() + old(self)@.search_edit.lo() <= usize::MAX,
            typed matches Some(t) ==> t@.len() + old(self)@.search_edit.lo() <= usize::MAX,
        ensures
            ({
                let o = old(self)@;
                if chord && crate::rename_edit::eq_ignore_ascii_case(key@, "f"@) {
                    if o.prompt is Some || o.cwd is None {
                        outcome is Ignored && final(self)@ == o
                    } else {
                        (outcome matches FilesKey::Edited { copy: None }) && final(self)@ == (
                        FilesUiView {
                            path_edit: if o.editing_path {
                                new_view(o.cwd->0)
                            } else {
                                o.path_edit
                            },
                            editing_path: false,
                            search_open: true,
                            editing_search: true,
                            search_edit: o.search_edit.select_all(),
                            ..o
                        })
                    }
                } else if !o.search_open || o.prompt is Some || o.editing_path {
                    outcome is Ignored && final(self)@ == o
                } else if !o.editing_search {
                    if key@ == "escape"@ {
                        (outcome matches FilesKey::Edited { copy: None }) && final(self)@ == (
                        FilesUiView {
                            search_edit: empty_filter(),
                            editing_search: false,
                            search_open: false,
                            ..o
                        })
                    } else {
                        outcome is Ignored && final(self)@ == o
                    }
                } else if key@ == "escape"@ {
                    (outcome matches FilesKey::Edited { copy: None }) && if o.search_edit.text.len()
                        > 0 {
                        final(self)@ == (FilesUiView {
                            search_edit: empty_filter(),
                            editing_search: true,
                            ..o
                        })
                    } else {
                        final(self)@ == (FilesUiView {
                            search_edit: empty_filter(),
                            editing_search: false,
                            search_open: false,
                            ..o
                        })
                    }
                } else if key@ == "enter"@ {
                    (outcome matches FilesKey::Edited { copy: None }) && final(self)@ == (FilesUiView {
                        editing_search: false,
                        ..o
                    })
                } else {
                    let (e2, handled, copy) = key_effect(
                        o.search_edit,
                        key@,
                        chord,
                        shift,
                        match clipboard {
                            Some(t) => Some(t@),
                            None => None,
                        },
                        match typed {
                            Some(t) => Some(t@),
                            None => None,
                        },
                    );
                    &&& final(self)@ == (FilesUiView { search_edit: e2, ..o })
                    &&& handled ==> (outcome matches FilesKey::Edited { copy: c } && opt_view(c)
                        == copy)
                    &&& !handled ==> outcome is Ignored
                }
            }),
    {
        let k = text::chars_of(key);
        if chord && crate::rename_edit::eq_ci_str(k.as_slice(), "f") {
            if self.prompt.is_some() || self.cwd.is_none() {
                return FilesKey::Ignored;
            }
            if self.editing_path {
                match &self.cwd {
                    Some(cwd) => {
                        self.path_edit = RenameEdit::new(cwd.as_str());
                    },
                    None => {},
                }
                self.editing_path = false;
            }
            self.search_open = true;
            self.editing_search = true;
            self.search_edit.select_all();
            return FilesKey::Edited { copy: None };
        }
        if !self.search_open || self.prompt.is_some() || self.editing_path {
            return FilesKey::Ignored;
        }
        let escape = text::eq_str(k.as_slice(), "escape");
        if !self.editing_search {
            if escape {
                self.close_search();
                return FilesKey::Edited { copy: None };
            }
            return FilesKey::Ignored;
        }
        if escape {
            if self.search_edit.char_len() > 0 {
                self.clear_search_text();
            } else {
                self.close_search();
            }
            return FilesKey::Edited { copy: None };
        }
        if text::eq_str(k.as_slice(), "enter") {
            self.editing_search = false;
            return FilesKey::Edited { copy: None };
        }
        let out = self.search_edit.handle_key(key, chord, shift, clipboard, typed);
        if out.handled {
            FilesKey::Edited { copy: out.copy }
        } else {
            FilesKey::Ignored
        }
    }

    // ------------------------------------------------------------ filter bar

    /// Opens the filter bar and focuses it (caret at the end).
    pub fn begin_search_edit(&mut self)
        ensures
            old(self)@.cwd is None ==> final(self)@ == old(self)@,
            old(self)@.cwd is Some ==> final(self)@ == (FilesUiView {
                search_open: true,
                editing_search: true,
                search_edit: old(self)@.search_edit.move_end(false),
                path_edit: if old(self)@.editing_path {
                    new_view(old(self)@.cwd->0)
                } else {
                    old(self)@.path_edit
                },
                editing_path: false,
                ..old(self)@
            }),
    {
        if self.cwd.is_none() {
            return;
        }
        if self.editing_path {
            self.cancel_path_edit();
        }
        self.search_open = true;
        self.editing_search = true;
        self.search_edit.move_end(false);
    }

    /// Closes the filter bar and forgets its text.
    pub fn close_search(&mut self)
        ensures
            final(self)@ == (FilesUiView {
                search_edit: empty_filter(),
                editing_search: false,
                search_open: false,
                ..old(self)@
            }),
    {
        self.search_edit = RenameEdit::at_end("");
        proof {
            reveal_strlit("");
            assert(self.search_edit@.text =~= Seq::<char>::empty());
        }
        self.editing_search = false;
        self.search_open = false;
    }

    /// Escape with text in the filter: empties it and keeps editing.
    pub fn clear_search_text(&mut self)
        ensures
            final(self)@ == (FilesUiView { search_edit: empty_filter(), editing_search: true, ..old(self)@ }),
    {
        self.search_edit = RenameEdit::at_end("");
        proof {
            reveal_strlit("");
            assert(self.search_edit@.text =~= Seq::<char>::empty());
        }
        self.editing_search = true;
    }

    /// The toolbar's filter button.
    pub fn toggle_search(&mut self)
        ensures
            old(self)@.cwd is None ==> final(self)@ == old(self)@,
            old(self)@.cwd is Some && old(self)@.search_open ==> final(self)@ == (FilesUiView {
                search_edit: empty_filter(),
                editing_search: false,
                search_open: false,
                ..old(self)@
            }),
            old(self)@.cwd is Some && !old(self)@.search_open ==> final(self)@.search_open
                && final(self)@.editing_search,
    {
        if self.cwd.is_none() {
            return;
        }
        if self.search_open {
            self.close_search();
        } else {
            self.begin_search_edit();
        }
    }
}

/// The editor of a text prompt.
/// What Enter in a prompt does to the view `o`, giving `f` and the action
/// `action` for the caller (see `FilesUi::submit_prompt`).
pub open spec fn prompt_submitted(o: FilesUiView, f: FilesUiView, action: PromptAction) -> bool {
    match o.prompt {
        None => action is Nothing && f == o,
        Some(PromptView::NewFolder { edit }) => match files::spec_valid_entry_name(edit.text) {
            None => action is Nothing && f == (FilesUiView {
                error: Some("Invalid folder name"@),
                ..o
            }),
            Some(name) => f == (FilesUiView { prompt: None, ..o }) && match (
                o.cwd,
                o.kind,
            ) {
                (Some(cwd), Some(kind)) => action matches PromptAction::MakeDir {
                    cwd: c,
                    name: n,
                    kind: k,
                } && c@ == cwd && n@ == name && k == kind,
                _ => action is Nothing,
            },
        },
        Some(PromptView::Rename { path, is_dir, edit }) => match files::spec_valid_entry_name(
            edit.text,
        ) {
            None => action is Nothing && f == (FilesUiView {
                error: Some("Invalid name"@),
                prompt: Some(
                    PromptView::Rename {
                        path,
                        is_dir,
                        edit: new_view(text::spec_trim(edit.text)),
                    },
                ),
                ..o
            }),
            Some(name) => f == (FilesUiView { prompt: None, ..o }) && match o.kind {
                Some(kind) => action matches PromptAction::Rename { path: p, name: n, kind: k }
                    && p@ == path && n@ == name && k == kind,
                None => action is Nothing,
            },
        },
        Some(PromptView::Chmod { path, edit }) => f == (FilesUiView {
            prompt: None,
            ..o
        }) && (action matches PromptAction::Chmod { path: p, mode } && p@ == path && mode@
            == edit),
        Some(PromptView::ConfirmDelete { path, is_dir, .. }) => f == (FilesUiView {
            prompt: None,
            ..o
        }) && (action matches PromptAction::Remove { path: p, is_dir: d } && p@ == path && d
            == is_dir),
        Some(PromptView::ConfirmOpenRemote { entry }) => f == (FilesUiView {
            prompt: None,
            ..o
        }) && action == (PromptAction::OpenRemote { entry }),
    }
}

pub open spec fn prompt_edit(p: PromptView) -> Option<EditView> {
    match p {
        PromptView::NewFolder { edit } => Some(edit),
        PromptView::Rename { edit, .. } => Some(edit),
        PromptView::Chmod { edit, .. } => Some(edit),
        _ => None,
    }
}

/// The prompt with its editor replaced.
pub open spec fn with_prompt_edit(p: PromptView, e: EditView) -> PromptView {
    match p {
        PromptView::NewFolder { .. } => PromptView::NewFolder { edit: e },
        PromptView::Rename { path, is_dir, .. } => PromptView::Rename { path, is_dir, edit: e },
        PromptView::Chmod { path, .. } => PromptView::Chmod { path, edit: e },
        _ => p,
    }
}

/// Start of the selection of the open prompt's editor.
pub open spec fn prompt_lo(p: Option<PromptView>) -> nat {
    match p {
        Some(v) => match prompt_edit(v) {
            Some(e) => e.lo(),
            None => 0,
        },
        None => 0,
    }
}

/// Applies a key to the editor of a text prompt.
fn edit_prompt(
    prompt: &mut FilesPrompt,
    key: &str,
    chord: bool,
    shift: bool,
    clipboard: Option<&str>,
    typed: Option<&str>,
) -> (out: crate::rename_edit::KeyOutcome)
    requires
        clipboard matches Some(t) ==> t@.len() + prompt_lo(Some(old(prompt)@)) <= usize::MAX,
        typed matches Some(t) ==> t@.len() + prompt_lo(Some(old(prompt)@)) <= usize::MAX,
    ensures
        match prompt_edit(old(prompt)@) {
            Some(e) => {
                let (e2, handled, copy) = key_effect(
                    e,
                    key@,
                    chord,
                    shift,
                    match clipboard {
                        Some(t) => Some(t@),
                        None => None,
                    },
                    match typed {
                        Some(t) => Some(t@),
                        None => None,
                    },
                );
                &&& final(prompt)@ == with_prompt_edit(old(prompt)@, e2)
                &&& out.handled == handled
                &&& opt_view(out.copy) == copy
            },
            None => final(prompt)@ == old(prompt)@ && !out.handled,
        },
{
    match prompt {
        FilesPrompt::NewFolder { edit } => edit.handle_key(key, chord, shift, clipboard, typed),
        FilesPrompt::Rename { edit, .. } => edit.handle_key(key, chord, shift, clipboard, typed),
        FilesPrompt::Chmod { edit, .. } => edit.handle_key(key, chord, shift, clipboard, typed),
        _ => crate::rename_edit::KeyOutcome { handled: false, copy: None },
    }
}

} // verus!
