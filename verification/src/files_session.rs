//! Which session the Files view browses and how its listings arrive.
//!
//! The view binds to the focused pane: an SSH pane with a file channel, or
//! a local shell. A change of pane (or of the channel's liveness) resets
//! the view and starts from the session's home folder. Every listing
//! request carries a generation; a reply whose generation is not the
//! current one is dropped, so a slow answer never overwrites a newer one.
//!
//! The caller talks to the file channel and the local file system and
//! hands the replies back; these functions decide what the view shows.

use vstd::prelude::*;

use crate::files_panel::{FilesKind, FilesPrompt, FilesUi, FilesUiView, PromptView, entry_at, find_entry};
use crate::listing::{RemoteEntry, SortField, SortState};
use crate::persistence::bump;
use crate::rename_edit::{RenameEdit, new_view};
use crate::text;

verus! {

/// The focused pane as the Files view sees it.
#[derive(Clone, Copy, Debug, PartialEq, Eq, Structural)]
pub struct FocusedFiles {
    pub pane: u128,
    pub kind: FilesKind,
    /// For an SSH pane: whether its file channel is up.
    pub sftp_alive: bool,
}

/// What the caller does next to reach a folder.
#[derive(Clone, Copy, Debug, PartialEq, Eq, Structural)]
pub enum HomeStep {
    Nothing,
    /// Ask the file channel for the home folder; report whether the request
    /// could be sent with `home_requested`, its answer with `home_reply`.
    RequestSftpHome,
    /// Take the terminal's working folder (or the user's home) and call
    /// `open_home`.
    LocalHome,
}

/// How to list a folder.
#[derive(Debug)]
pub enum LoadStep {
    /// No session is bound; the error says so.
    NoSession,
    /// Send a listing request for `path` on the focused pane's file
    /// channel; then call `begin_listing`, or `list_refused` when the pane
    /// has no channel or the request cannot be sent.
    ListSftp { path: String },
    /// Call `begin_listing`, then list `path` on the local file system.
    ListLocal { path: String },
}

/// Why a remote listing could not be requested.
#[derive(Clone, Copy, Debug, PartialEq, Eq, Structural)]
pub enum ListRefusal {
    NoSshSession,
    SftpUnavailable,
}

impl ListRefusal {
    pub open spec fn spec_message(self) -> Seq<char> {
        match self {
            ListRefusal::NoSshSession => "No SSH session"@,
            ListRefusal::SftpUnavailable => "SFTP unavailable"@,
        }
    }

    pub fn message(self) -> (m: &'static str)
        ensures
            m@ == self.spec_message(),
    {
        match self {
            ListRefusal::NoSshSession => "No SSH session",
            ListRefusal::SftpUnavailable => "SFTP unavailable",
        }
    }
}

/// The answer to a home-folder request.
#[derive(Debug)]
pub enum HomeReply {
    Found(String),
    Failed(String),
    /// The channel went away before answering.
    Cancelled,
}

/// The answer to a listing request.
#[derive(Debug)]
pub enum ListReply {
    Listed(Vec<RemoteEntry>),
    Failed(String),
    /// The channel went away before answering.
    Cancelled,
}

/// What opening an entry asks of the caller.
#[derive(Debug)]
pub enum OpenStep {
    Nothing,
    /// A folder: list it.
    List(LoadStep),
    /// A local file: open it with the system's default application.
    OpenLocal { path: String },
}

/// The view emptied for a new session (or none); binding and sort stay.
pub open spec fn reset_view(v: FilesUiView) -> FilesUiView {
    FilesUiView {
        list_gen: bump(v.list_gen),
        cwd: None,
        home: None,
        entries: Seq::empty(),
        selected: None,
        error: None,
        listing: false,
        prompt: None,
        path_edit: new_view(Seq::empty()),
        editing_path: false,
        search_edit: new_view(Seq::empty()),
        editing_search: false,
        search_open: false,
        entry_menu: None,
        transfer_menu: None,
        ..v
    }
}

/// The view and next step after binding to `focus`.
pub open spec fn synced(v: FilesUiView, focus: Option<FocusedFiles>) -> (FilesUiView, HomeStep) {
    match focus {
        None => if v.bound_pane is Some {
            // The kind of the old session is kept in this case.
            (reset_view(FilesUiView { bound_pane: None, bound_sftp_alive: false, ..v }), HomeStep::Nothing)
        } else if v.kind is Some {
            (reset_view(FilesUiView { kind: None, bound_sftp_alive: false, ..v }), HomeStep::Nothing)
        } else {
            (v, HomeStep::Nothing)
        },
        Some(f) => if v.bound_pane == Some(f.pane) && v.kind == Some(f.kind) && v.bound_sftp_alive
            == f.sftp_alive {
            (v, HomeStep::Nothing)
        } else {
            let r = reset_view(
                FilesUiView {
                    bound_pane: Some(f.pane),
                    kind: Some(f.kind),
                    bound_sftp_alive: f.sftp_alive,
                    ..v
                },
            );
            match f.kind {
                FilesKind::Local => (r, HomeStep::LocalHome),
                FilesKind::Sftp => if f.sftp_alive {
                    (r, HomeStep::RequestSftpHome)
                } else {
                    (FilesUiView { error: Some("SFTP unavailable"@), ..r }, HomeStep::Nothing)
                },
            }
        },
    }
}

/// The view after a listing request was sent.
pub open spec fn begun(v: FilesUiView) -> FilesUiView {
    FilesUiView { list_gen: bump(v.list_gen), listing: true, error: None, ..v }
}

/// The error shown for a failed listing.
pub open spec fn listing_error(kind: Option<FilesKind>, message: Seq<char>) -> Seq<char> {
    if kind == Some(FilesKind::Sftp) {
        message + " (path missing or not a directory)"@
    } else {
        message
    }
}

/// The view after the reply `r` to the listing request `req_gen` of `path`.
pub open spec fn replied(v: FilesUiView, req_gen: u64, path: Seq<char>, r: ListReply) -> FilesUiView {
    if req_gen != v.list_gen {
        v
    } else {
        match r {
            ListReply::Listed(entries) => FilesUiView {
                listing: false,
                cwd: Some(path),
                path_edit: new_view(path),
                editing_path: false,
                entries: entries@,
                selected: None,
                error: None,
                ..v
            },
            ListReply::Failed(message) => FilesUiView {
                listing: false,
                error: Some(listing_error(v.kind, message@)),
                editing_path: true,
                ..v
            },
            ListReply::Cancelled => FilesUiView {
                listing: false,
                error: Some("List cancelled"@),
                ..v
            },
        }
    }
}

/// The step for listing `path` in a view of kind `kind`.
pub open spec fn load_step_holds(s: LoadStep, kind: Option<FilesKind>, path: Seq<char>) -> bool {
    match kind {
        None => s is NoSession,
        Some(FilesKind::Sftp) => s matches LoadStep::ListSftp { path: p } && p@ == path,
        Some(FilesKind::Local) => s matches LoadStep::ListLocal { path: p } && p@ == path,
    }
}

/// The view after asking to list `path`.
pub open spec fn loading(v: FilesUiView) -> FilesUiView {
    if v.kind is None {
        FilesUiView { error: Some("No file session"@), ..v }
    } else {
        v
    }
}

impl FilesUi {
    /// A view bound to nothing, sorted by name.
    pub fn new() -> (ui: Self)
        ensures
            ui@ == (FilesUiView {
                cwd: None,
                kind: None,
                entries: Seq::empty(),
                selected: None,
                error: None,
                prompt: None,
                path_edit: new_view(Seq::empty()),
                editing_path: false,
                search_edit: new_view(Seq::empty()),
                editing_search: false,
                search_open: false,
                sort: SortState { field: SortField::Name, asc: true },
                home: None,
                listing: false,
                list_gen: 0,
                bound_pane: None,
                bound_sftp_alive: false,
                entry_menu: None,
                transfer_menu: None,
            }),
    {
        let ui = FilesUi {
            cwd: None,
            kind: None,
            entries: Vec::new(),
            selected: None,
            error: None,
            prompt: None,
            path_edit: RenameEdit::new(""),
            editing_path: false,
            search_edit: RenameEdit::new(""),
            editing_search: false,
            search_open: false,
            sort: SortState::new(),
            home: None,
            listing: false,
            list_gen: 0,
            bound_pane: None,
            bound_sftp_alive: false,
            entry_menu: None,
            transfer_menu: None,
        };
        proof {
            reveal_strlit("");
            assert(ui@.path_edit.text =~= Seq::<char>::empty());
            assert(ui@.entries =~= Seq::<RemoteEntry>::empty());
        }
        ui
    }

    /// Forgets the folder, its listing, the prompts and the editors; any
    /// reply still in flight becomes stale.
    pub fn reset(&mut self)
        ensures
            final(self)@ == reset_view(old(self)@),
    {
        self.list_gen = self.list_gen.wrapping_add(1);
        self.cwd = None;
        self.home = None;
        self.entries = Vec::new();
        self.selected = None;
        self.error = None;
        self.listing = false;
        self.prompt = None;
        self.path_edit = RenameEdit::new("");
        self.editing_path = false;
        self.search_edit = RenameEdit::new("");
        self.editing_search = false;
        self.search_open = false;
        self.entry_menu = None;
        self.transfer_menu = None;
        proof {
            reveal_strlit("");
            assert(self@.path_edit.text =~= Seq::<char>::empty());
            assert(self@.entries =~= Seq::<RemoteEntry>::empty());
            assert(self@ =~= reset_view(old(self)@));
        }
    }

    /// Follows the focus: `focus` is the focused pane when it can be
    /// browsed. A new pane (or a change of its channel) resets the view;
    /// the step says how to reach its home folder.
    pub fn sync_session(&mut self, focus: Option<FocusedFiles>) -> (step: HomeStep)
        ensures
            (final(self)@, step) == synced(old(self)@, focus),
    {
        match focus {
            None => {
                if self.bound_pane.take().is_some() || self.kind.take().is_some() {
                    self.bound_sftp_alive = false;
                    self.reset();
                }
                HomeStep::Nothing
            },
            Some(f) => {
                if self.bound_pane == Some(f.pane) && self.kind == Some(f.kind)
                    && self.bound_sftp_alive == f.sftp_alive {
                    return HomeStep::Nothing;
                }
                self.bound_pane = Some(f.pane);
                self.kind = Some(f.kind);
                self.bound_sftp_alive = f.sftp_alive;
                self.reset();
                match f.kind {
                    FilesKind::Local => HomeStep::LocalHome,
                    FilesKind::Sftp => {
                        if f.sftp_alive {
                            HomeStep::RequestSftpHome
                        } else {
                            self.error = Some(text::owned("SFTP unavailable"));
                            HomeStep::Nothing
                        }
                    },
                }
            },
        }
    }

    /// The toolbar's home button.
    pub fn go_home(&self) -> (step: HomeStep)
        ensures
            step == match self.kind {
                Some(FilesKind::Sftp) => HomeStep::RequestSftpHome,
                Some(FilesKind::Local) => HomeStep::LocalHome,
                None => HomeStep::Nothing,
            },
    {
        match self.kind {
            Some(FilesKind::Sftp) => HomeStep::RequestSftpHome,
            Some(FilesKind::Local) => HomeStep::LocalHome,
            None => HomeStep::Nothing,
        }
    }

    /// Whether the home request could be sent.
    pub fn home_requested(&mut self, sent: bool)
        ensures
            sent ==> final(self)@ == (FilesUiView { listing: true, ..old(self)@ }),
            !sent ==> final(self)@ == (FilesUiView { error: Some("SFTP unavailable"@), ..old(self)@ }),
    {
        if sent {
            self.listing = true;
        } else {
            self.error = Some(text::owned("SFTP unavailable"));
        }
    }

    /// Asks to list `path`: how, or an error when no session is bound.
    pub fn load_dir(&mut self, path: String) -> (step: LoadStep)
        ensures
            final(self)@ == loading(old(self)@),
            load_step_holds(step, old(self)@.kind, path@),
    {
        match self.kind {
            Some(FilesKind::Sftp) => LoadStep::ListSftp { path },
            Some(FilesKind::Local) => LoadStep::ListLocal { path },
            None => {
                self.error = Some(text::owned("No file session"));
                LoadStep::NoSession
            },
        }
    }

    /// The answer to the home request: a found home is remembered and
    /// listed.
    pub fn home_reply(&mut self, reply: HomeReply) -> (step: Option<LoadStep>)
        ensures
            match reply {
                HomeReply::Found(home) => {
                    &&& final(self)@ == loading(
                        FilesUiView { listing: false, home: Some(home@), ..old(self)@ },
                    )
                    &&& step matches Some(s) && load_step_holds(s, old(self)@.kind, home@)
                },
                HomeReply::Failed(message) => step is None && final(self)@ == (FilesUiView {
                    listing: false,
                    error: Some(message@),
                    ..old(self)@
                }),
                HomeReply::Cancelled => step is None && final(self)@ == (FilesUiView {
                    listing: false,
                    error: Some("SFTP home request cancelled"@),
                    ..old(self)@
                }),
            },
    {
        self.listing = false;
        match reply {
            HomeReply::Found(home) => {
                self.home = Some(home.clone());
                Some(self.load_dir(home))
            },
            HomeReply::Failed(message) => {
                self.error = Some(message);
                None
            },
            HomeReply::Cancelled => {
                self.error = Some(text::owned("SFTP home request cancelled"));
                None
            },
        }
    }

    /// A local session's home folder was found: remember it and list it.
    pub fn open_home(&mut self, home: String) -> (step: LoadStep)
        ensures
            final(self)@ == loading(FilesUiView { home: Some(home@), ..old(self)@ }),
            load_step_holds(step, old(self)@.kind, home@),
    {
        self.home = Some(home.clone());
        self.load_dir(home)
    }

    /// The remote listing could not be requested.
    pub fn list_refused(&mut self, why: ListRefusal)
        ensures
            final(self)@ == (FilesUiView { error: Some(why.spec_message()), ..old(self)@ }),
    {
        self.error = Some(text::owned(why.message()));
    }

    /// A listing request was sent: returns the generation its reply must
    /// carry; replies to earlier requests are stale from now on.
    pub fn begin_listing(&mut self) -> (req_gen: u64)
        ensures
            final(self)@ == begun(old(self)@),
            req_gen == final(self)@.list_gen,
    {
        self.list_gen = self.list_gen.wrapping_add(1);
        self.listing = true;
        self.error = None;
        self.list_gen
    }

    /// The reply to the listing request `req_gen` of `path`. Returns
    /// whether it was applied (it is not when a newer request or a reset
    /// came since).
    pub fn listing_reply(&mut self, req_gen: u64, path: String, reply: ListReply) -> (applied: bool)
        ensures
            applied == (req_gen == old(self)@.list_gen),
            final(self)@ == replied(old(self)@, req_gen, path@, reply),
    {
        if req_gen != self.list_gen {
            return false;
        }
        self.listing = false;
        match reply {
            ListReply::Listed(entries) => {
                self.cwd = Some(path.clone());
                self.path_edit = RenameEdit::new(path.as_str());
                self.editing_path = false;
                self.entries = entries;
                self.selected = None;
                self.error = None;
            },
            ListReply::Failed(message) => {
                let mut shown = message;
                if self.kind == Some(FilesKind::Sftp) {
                    let suffix = text::chars_of(" (path missing or not a directory)");
                    text::push_range(&mut shown, suffix.as_slice(), 0, suffix.len());
                    proof {
                        assert(suffix@.subrange(0, suffix@.len() as int) =~= suffix@);
                    }
                }
                self.error = Some(shown);
                self.editing_path = true;
            },
            ListReply::Cancelled => {
                self.error = Some(text::owned("List cancelled"));
            },
        }
        true
    }

    /// Double-click or Enter on `entry`: a folder is listed; a remote file
    /// asks to be downloaded and opened; a local file is opened in place.
    pub fn open_entry(&mut self, entry: RemoteEntry) -> (step: OpenStep)
        ensures
            entry.is_dir ==> final(self)@ == loading(old(self)@) && (step matches OpenStep::List(s)
                && load_step_holds(s, old(self)@.kind, entry.path@)),
            !entry.is_dir ==> match old(self)@.kind {
                Some(FilesKind::Sftp) => step is Nothing && final(self)@ == (FilesUiView {
                    prompt: Some(PromptView::ConfirmOpenRemote { entry }),
                    ..old(self)@
                }),
                Some(FilesKind::Local) => final(self)@ == old(self)@ && (step matches OpenStep::OpenLocal {
                    path,
                } && path@ == entry.path@),
                None => step is Nothing && final(self)@ == old(self)@,
            },
    {
        if entry.is_dir {
            return OpenStep::List(self.load_dir(entry.path));
        }
        match self.kind {
            Some(FilesKind::Sftp) => {
                self.prompt = Some(FilesPrompt::ConfirmOpenRemote { entry });
                OpenStep::Nothing
            },
            Some(FilesKind::Local) => OpenStep::OpenLocal { path: entry.path },
            None => OpenStep::Nothing,
        }
    }

    /// Enter on the selection: opens the selected entry, if it is listed.
    pub fn open_selected(&mut self) -> (step: OpenStep)
        ensures
            match old(self)@.selected {
                Some(p) => match entry_at(old(self)@.entries, p) {
                    Some(k) => {
                        let entry = old(self)@.entries[k];
                        &&& entry.is_dir ==> final(self)@ == loading(old(self)@) && (
                        step matches OpenStep::List(s) && load_step_holds(s, old(self)@.kind, entry.path@))
                        &&& !entry.is_dir ==> match old(self)@.kind {
                            Some(FilesKind::Sftp) => step is Nothing && final(self)@ == (FilesUiView {
                                prompt: Some(PromptView::ConfirmOpenRemote { entry }),
                                ..old(self)@
                            }),
                            Some(FilesKind::Local) => final(self)@ == old(self)@ && (
                            step matches OpenStep::OpenLocal { path } && path@ == entry.path@),
                            None => step is Nothing && final(self)@ == old(self)@,
                        }
                    },
                    None => step is Nothing && final(self)@ == old(self)@,
                },
                None => step is Nothing && final(self)@ == old(self)@,
            },
    {
        let k = match &self.selected {
            None => {
                return OpenStep::Nothing;
            },
            Some(p) => match find_entry(&self.entries, p.as_str()) {
                None => {
                    return OpenStep::Nothing;
                },
                Some(k) => k,
            },
        };
        let entry = self.entries[k].clone();
        self.open_entry(entry)
    }

    /// A click on an entry selects it and closes the entry menu; a double
    /// click also opens it (`open_entry`).
    pub fn click_entry(&mut self, entry: RemoteEntry, double: bool) -> (step: OpenStep)
        ensures
            ({
                let clicked = FilesUiView { entry_menu: None, selected: Some(entry.path@), ..old(self)@ };
                &&& !double ==> step is Nothing && final(self)@ == clicked
                &&& double && entry.is_dir ==> final(self)@ == loading(clicked) && (step matches OpenStep::List(s)
                    && load_step_holds(s, clicked.kind, entry.path@))
                &&& double && !entry.is_dir ==> match clicked.kind {
                    Some(FilesKind::Sftp) => step is Nothing && final(self)@ == (FilesUiView {
                        prompt: Some(PromptView::ConfirmOpenRemote { entry }),
                        ..clicked
                    }),
                    Some(FilesKind::Local) => final(self)@ == clicked && (step matches OpenStep::OpenLocal {
                        path,
                    } && path@ == entry.path@),
                    None => step is Nothing && final(self)@ == clicked,
                }
            }),
    {
        self.entry_menu = None;
        self.selected = Some(entry.path.clone());
        if double {
            self.open_entry(entry)
        } else {
            OpenStep::Nothing
        }
    }

    /// A right click on the entry at `path`: it is selected and its menu
    /// opens (any transfer menu closes).
    pub fn open_entry_menu(&mut self, path: String)
        ensures
            final(self)@ == (FilesUiView {
                selected: Some(path@),
                transfer_menu: None,
                entry_menu: Some(path@),
                ..old(self)@
            }),
    {
        self.selected = Some(path.clone());
        self.transfer_menu = None;
        self.entry_menu = Some(path);
    }

    /// A right click on transfer `id`: its menu opens.
    pub fn open_transfer_menu(&mut self, id: u128)
        ensures
            final(self)@ == (FilesUiView { transfer_menu: Some(id), entry_menu: None, ..old(self)@ }),
    {
        self.transfer_menu = Some(id);
        self.entry_menu = None;
    }

    /// Any click outside the menus closes them.
    pub fn close_menus(&mut self)
        ensures
            final(self)@ == (FilesUiView { transfer_menu: None, entry_menu: None, ..old(self)@ }),
    {
        self.transfer_menu = None;
        self.entry_menu = None;
    }

    /// The upload buttons: the remote folder to upload into, when a remote
    /// folder is open and the session is up (`has_session`).
    pub fn upload_target(&mut self, has_session: bool) -> (dir: Option<String>)
        ensures
            old(self)@.kind != Some(FilesKind::Sftp) ==> dir is None && final(self)@ == old(self)@,
            old(self)@.kind == Some(FilesKind::Sftp) ==> match old(self)@.cwd {
                None => dir is None && final(self)@ == (FilesUiView {
                    error: Some("Open a remote folder first"@),
                    ..old(self)@
                }),
                Some(c) => if has_session {
                    dir matches Some(d) && d@ == c && final(self)@ == old(self)@
                } else {
                    dir is None && final(self)@ == (FilesUiView { error: Some("No SSH session"@), ..old(self)@ })
                },
            },
    {
        if self.kind != Some(FilesKind::Sftp) {
            return None;
        }
        let cwd = match &self.cwd {
            Some(c) => c.clone(),
            None => {
                self.error = Some(text::owned("Open a remote folder first"));
                return None;
            },
        };
        if !has_session {
            self.error = Some(text::owned("No SSH session"));
            return None;
        }
        Some(cwd)
    }

    /// Files dropped on the list of a remote folder: the folder to upload
    /// them into. Nothing happens without a session or files; without an
    /// open folder the error says so.
    pub fn drop_target(&mut self, has_session: bool, dropped: usize) -> (dir: Option<String>)
        ensures
            old(self)@.kind != Some(FilesKind::Sftp) ==> dir is None && final(self)@ == old(self)@,
            old(self)@.kind == Some(FilesKind::Sftp) ==> match old(self)@.cwd {
                None => dir is None && final(self)@ == (FilesUiView {
                    error: Some("Open a remote folder first"@),
                    ..old(self)@
                }),
                Some(c) => final(self)@ == old(self)@ && if has_session && dropped > 0 {
                    dir matches Some(d) && d@ == c
                } else {
                    dir is None
                },
            },
    {
        if self.kind != Some(FilesKind::Sftp) {
            return None;
        }
        let cwd = match &self.cwd {
            Some(c) => c.clone(),
            None => {
                self.error = Some(text::owned("Open a remote folder first"));
                return None;
            },
        };
        if !has_session || dropped == 0 {
            return None;
        }
        Some(cwd)
    }

    /// The toolbar's refresh button lists the current folder again.
    pub fn refresh(&mut self) -> (step: Option<LoadStep>)
        ensures
            match old(self)@.cwd {
                Some(c) => final(self)@ == loading(old(self)@) && (step matches Some(s) && load_step_holds(
                    s,
                    old(self)@.kind,
                    c,
                )),
                None => step is None && final(self)@ == old(self)@,
            },
    {
        match &self.cwd {
            Some(c) => {
                let c = c.clone();
                Some(self.load_dir(c))
            },
            None => None,
        }
    }

    /// "Download" on the selection: the selected entry of a remote session.
    pub fn download_target(&self) -> (entry: Option<RemoteEntry>)
        ensures
            entry == match (self.kind, self@.selected) {
                (Some(FilesKind::Sftp), Some(p)) => match entry_at(self@.entries, p) {
                    Some(k) => Some(self@.entries[k]),
                    None => None,
                },
                _ => None,
            },
    {
        if self.kind != Some(FilesKind::Sftp) {
            return None;
        }
        match &self.selected {
            None => None,
            Some(p) => match find_entry(&self.entries, p.as_str()) {
                None => None,
                Some(k) => Some(self.entries[k].clone()),
            },
        }
    }
}

/// An action of an entry's context menu.
#[derive(Clone, Copy, Debug, PartialEq, Eq, Structural)]
pub enum EntryAction {
    CopyPath,
    Open,
    NewFolder,
    Rename,
    Permissions,
    Delete,
    /// Show it in the system's file manager.
    Reveal,
}

/// The entries of the context menu of an entry: Open only for files,
/// Reveal only for local sessions.
pub open spec fn entry_menu_spec(is_dir: bool, is_local: bool) -> Seq<EntryAction> {
    let head = if is_dir {
        seq![EntryAction::CopyPath]
    } else {
        seq![EntryAction::CopyPath, EntryAction::Open]
    };
    let body = head + seq![EntryAction::NewFolder, EntryAction::Rename, EntryAction::Permissions, EntryAction::Delete];
    if is_local {
        body.push(EntryAction::Reveal)
    } else {
        body
    }
}

pub fn entry_menu_actions(is_dir: bool, is_local: bool) -> (actions: Vec<EntryAction>)
    ensures
        actions@ == entry_menu_spec(is_dir, is_local),
{
    let mut a: Vec<EntryAction> = Vec::new();
    a.push(EntryAction::CopyPath);
    if !is_dir {
        a.push(EntryAction::Open);
    }
    a.push(EntryAction::NewFolder);
    a.push(EntryAction::Rename);
    a.push(EntryAction::Permissions);
    a.push(EntryAction::Delete);
    if is_local {
        a.push(EntryAction::Reveal);
    }
    assert(a@ =~= entry_menu_spec(is_dir, is_local));
    a
}

/// A reply to a listing request that a newer request has replaced changes
/// nothing.
pub proof fn law_newer_listing_wins(v: FilesUiView, path: Seq<char>, r: ListReply)
    ensures
        replied(begun(begun(v)), begun(v).list_gen, path, r) == begun(begun(v)),
{
}

/// A reset (a change of session) makes the reply in flight stale.
pub proof fn law_reset_drops_pending(v: FilesUiView, path: Seq<char>, r: ListReply)
    ensures
        replied(reset_view(begun(v)), begun(v).list_gen, path, r) == reset_view(begun(v)),
{
}

/// The reply to the latest request shows the listed folder.
pub proof fn law_latest_listing_shown(v: FilesUiView, path: Seq<char>, entries: Vec<RemoteEntry>)
    ensures
        ({
            let w = replied(begun(v), begun(v).list_gen, path, ListReply::Listed(entries));
            &&& w.cwd == Some(path)
            &&& w.entries == entries@
            &&& !w.listing
            &&& w.error is None
            &&& w.list_gen == begun(v).list_gen
        }),
{
}

/// Binding to the same pane twice: the second time changes nothing and
/// asks for nothing. (Losing the focus while a pane is bound keeps the old
/// kind, so a second loss does reset again; that case is left out.)
pub proof fn law_sync_is_idempotent(v: FilesUiView, focus: Option<FocusedFiles>)
    requires
        focus is None ==> !(v.bound_pane is Some && v.kind is Some),
    ensures
        synced(synced(v, focus).0, focus) == (synced(v, focus).0, HomeStep::Nothing),
{
}

} // verus!
