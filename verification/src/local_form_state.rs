//! The Local profile form as it is edited: its name and start-folder
//! fields and which one has the keyboard. Submitting is decided by
//! `forms::plan_local_submit` on the texts this state hands out.

use vstd::prelude::*;

use crate::forms;
use crate::rename_edit::{EditView, KeyOutcome, RenameEdit, key_effect};
use crate::text;
use crate::workspace_store::{Profile, ProfileKind};

verus! {

#[derive(Clone, Copy, Debug, PartialEq, Eq, Structural)]
pub enum LocalField {
    Name,
    Cwd,
}

pub struct LocalFormState {
    /// The profile being edited.
    pub editing: Option<u128>,
    pub name: RenameEdit,
    pub cwd: RenameEdit,
    /// The profile runs a WSL distribution (its start folder is a Linux
    /// path).
    pub is_wsl: bool,
    pub error: Option<String>,
    pub field: LocalField,
}

pub struct LocalFormView {
    pub editing: Option<u128>,
    pub name: EditView,
    pub cwd: EditView,
    pub is_wsl: bool,
    pub error: Option<Seq<char>>,
    pub field: LocalField,
}

impl View for LocalFormState {
    type V = LocalFormView;

    open spec fn view(&self) -> LocalFormView {
        LocalFormView {
            editing: self.editing,
            name: self.name@,
            cwd: self.cwd@,
            is_wsl: self.is_wsl,
            error: match self.error {
                Some(e) => Some(e@),
                None => None,
            },
            field: self.field,
        }
    }
}

/// A form field holding `text`, caret at its end.
pub open spec fn field_view(text: Seq<char>) -> EditView {
    EditView { text, cursor: text.len(), anchor: text.len(), caret_visible: true }
}

/// The editor that has the keyboard.
pub open spec fn active(v: LocalFormView) -> EditView {
    match v.field {
        LocalField::Name => v.name,
        LocalField::Cwd => v.cwd,
    }
}

pub open spec fn with_active(v: LocalFormView, e: EditView) -> LocalFormView {
    match v.field {
        LocalField::Name => LocalFormView { name: e, ..v },
        LocalField::Cwd => LocalFormView { cwd: e, ..v },
    }
}

impl LocalFormState {
    pub fn new() -> (f: Self)
        ensures
            f@ == (LocalFormView {
                editing: None,
                name: field_view(Seq::empty()),
                cwd: field_view(Seq::empty()),
                is_wsl: false,
                error: None,
                field: LocalField::Name,
            }),
    {
        proof {
            reveal_strlit("");
            assert(""@ =~= Seq::<char>::empty());
        }
        LocalFormState {
            editing: None,
            name: RenameEdit::at_end(""),
            cwd: RenameEdit::at_end(""),
            is_wsl: false,
            error: None,
            field: LocalField::Name,
        }
    }

    /// Loads `profile` for editing (refused when there is none or it is
    /// not a local profile); `is_wsl` says whether it runs WSL.
    pub fn load_for_edit(&mut self, profile: Option<&Profile>, is_wsl: bool)
        ensures
            match profile {
                None => final(self)@ == (LocalFormView { error: Some("Profile not found"@), ..old(self)@ }),
                Some(p) => match p.kind {
                    ProfileKind::Local { cwd, .. } => final(self)@ == (LocalFormView {
                        editing: Some(p.id),
                        name: field_view(p.name@),
                        cwd: field_view(
                            match cwd {
                                Some(c) => c@,
                                None => Seq::empty(),
                            },
                        ),
                        is_wsl,
                        error: None,
                        field: LocalField::Name,
                    }),
                    _ => final(self)@ == (LocalFormView { error: Some("Not a Local profile"@), ..old(self)@ }),
                },
            },
    {
        let p = match profile {
            None => {
                self.error = Some(text::owned("Profile not found"));
                return;
            },
            Some(p) => p,
        };
        let cwd = match &p.kind {
            ProfileKind::Local { cwd, .. } => cwd,
            _ => {
                self.error = Some(text::owned("Not a Local profile"));
                return;
            },
        };
        self.editing = Some(p.id);
        self.name = RenameEdit::at_end(p.name.as_str());
        self.cwd = match cwd {
            Some(c) => RenameEdit::at_end(c.as_str()),
            None => RenameEdit::at_end(""),
        };
        self.is_wsl = is_wsl;
        self.error = None;
        self.field = LocalField::Name;
        proof {
            reveal_strlit("");
            assert(""@ =~= Seq::<char>::empty());
        }
    }

    /// Tab: the other field, all of it selected.
    pub fn cycle_field(&mut self)
        ensures
            ({
                let moved = LocalFormView {
                    field: match old(self)@.field {
                        LocalField::Name => LocalField::Cwd,
                        LocalField::Cwd => LocalField::Name,
                    },
                    ..old(self)@
                };
                final(self)@ == with_active(moved, active(moved).select_all())
            }),
    {
        self.field = match self.field {
            LocalField::Name => LocalField::Cwd,
            LocalField::Cwd => LocalField::Name,
        };
        match self.field {
            LocalField::Name => self.name.select_all(),
            LocalField::Cwd => self.cwd.select_all(),
        }
    }

    /// A click on a field: it gets the keyboard, caret at its end.
    pub fn focus_field(&mut self, field: LocalField)
        ensures
            ({
                let moved = LocalFormView { field, ..old(self)@ };
                final(self)@ == with_active(moved, active(moved).move_end(false))
            }),
    {
        self.field = field;
        match self.field {
            LocalField::Name => self.name.move_end(false),
            LocalField::Cwd => self.cwd.move_end(false),
        }
    }

    /// A key for the focused field; a handled key shows its caret.
    pub fn handle_key(
        &mut self,
        key: &str,
        chord: bool,
        shift: bool,
        clipboard: Option<&str>,
        typed: Option<&str>,
    ) -> (outcome: KeyOutcome)
        requires
            clipboard matches Some(t) ==> active(old(self)@).lo() + t@.len() <= usize::MAX,
            typed matches Some(t) ==> active(old(self)@).lo() + t@.len() <= usize::MAX,
        ensures
            ({
                let (e2, handled, copy) = key_effect(
                    active(old(self)@),
                    key@,
                    chord,
                    shift,
                    match clipboard {
                        Some(t) => Some(t@),
                        None => None,
                    },
                    match typed {
                        Some(t) => Some(t@),
                        None => None,
                    },
                );
                &&& outcome.handled == handled
                &&& match outcome.copy {
                    Some(c) => copy == Some(c@),
                    None => copy is None,
                }
                &&& final(self)@ == with_active(
                    old(self)@,
                    if handled {
                        EditView { caret_visible: true, ..e2 }
                    } else {
                        e2
                    },
                )
            }),
    {
        match self.field {
            LocalField::Name => {
                let outcome = self.name.handle_key(key, chord, shift, clipboard, typed);
                if outcome.handled {
                    self.name.caret_visible = true;
                }
                outcome
            },
            LocalField::Cwd => {
                let outcome = self.cwd.handle_key(key, chord, shift, clipboard, typed);
                if outcome.handled {
                    self.cwd.caret_visible = true;
                }
                outcome
            },
        }
    }

    /// Text from an input method for the focused field, replacing the
    /// UTF-16 range `range` (see `RenameEdit::replace_utf16_range`).
    pub fn replace_utf16(&mut self, range: Option<(usize, usize)>, typed: &str) -> (changed: bool)
        requires
            active(old(self)@).text.len() <= usize::MAX / 2,
            typed@.len() <= usize::MAX / 2,
            range is None ==> active(old(self)@).lo() + typed@.len() <= usize::MAX,
        ensures
            changed == (range is Some || crate::rename_edit::strip_newlines(typed@).len() > 0),
            final(self)@ == with_active(
                old(self)@,
                crate::rename_edit::replaced_utf16(active(old(self)@), range, typed@),
            ),
    {
        match self.field {
            LocalField::Name => self.name.replace_utf16_range(range, typed),
            LocalField::Cwd => self.cwd.replace_utf16_range(range, typed),
        }
    }

    /// A folder was picked for the start folder: it fills the field, which
    /// gets the keyboard.
    pub fn folder_picked(&mut self, path: &str)
        ensures
            final(self)@ == (LocalFormView { cwd: field_view(path@), field: LocalField::Cwd, ..old(self)@ }),
    {
        self.cwd = RenameEdit::at_end(path);
        self.field = LocalField::Cwd;
        self.cwd.move_end(false);
    }

    /// The folder the picker starts in: the typed start folder, if any.
    pub fn picker_start(&self) -> (start: Option<String>)
        ensures
            match start {
                Some(s) => text::spec_trim(self@.cwd.text).len() > 0 && s@ == text::spec_trim(self@.cwd.text),
                None => text::spec_trim(self@.cwd.text).len() == 0,
            },
    {
        let t = text::trim_string(self.cwd.text.as_str());
        if t.as_str().unicode_len() == 0 {
            None
        } else {
            Some(t)
        }
    }

    /// Enter: checks the form; on a refusal the error says why.
    pub fn submit(&mut self) -> (r: Result<forms::LocalSave, forms::LocalSubmitError>)
        ensures
            match r {
                Ok(s) => final(self)@ == old(self)@ && old(self)@.editing == Some(s.id) && text::spec_trim(
                    old(self)@.name.text,
                ).len() > 0 && s.name@ == text::spec_trim(old(self)@.name.text) && match s.cwd {
                    Some(c) => text::spec_trim(old(self)@.cwd.text).len() > 0 && c@ == text::spec_trim(
                        old(self)@.cwd.text,
                    ),
                    None => text::spec_trim(old(self)@.cwd.text).len() == 0,
                },
                Err(e) => final(self)@ == (LocalFormView { error: Some(e.spec_message()), ..old(self)@ })
                    && e == if old(self)@.editing is None {
                    forms::LocalSubmitError::NothingToSave
                } else {
                    forms::LocalSubmitError::NameRequired
                },
            },
    {
        match forms::plan_local_submit(self.editing, self.name.text.as_str(), self.cwd.text.as_str()) {
            Ok(s) => Ok(s),
            Err(e) => {
                self.error = Some(text::owned(e.message()));
                Err(e)
            },
        }
    }

    /// The workspace refused the update.
    pub fn update_refused(&mut self)
        ensures
            final(self)@ == (LocalFormView { error: Some("Could not update profile"@), ..old(self)@ }),
    {
        self.error = Some(text::owned("Could not update profile"));
    }
}

} // verus!
