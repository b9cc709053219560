//! The SSH profile form as it is edited: its fields, which one has the
//! keyboard, the authentication switches, the port-forward rules and their
//! inline editor. Keys go to the focused field, or to the focused field of
//! the forward editor while it is open.
//!
//! Submitting is decided by `forms::submit_ssh` on the texts this state
//! hands out; the caller stores the profile and talks to the keyring.

use vstd::prelude::*;

use crate::forms::{self, ForwardInput, ForwardRule, SshAuthChoice, SshField, SshFormInput, next_ssh_field};
use crate::rename_edit::{EditView, KeyOutcome, RenameEdit, key_effect, strip_newlines};
use crate::text;
use crate::workspace_store::{Profile, ProfileKind};

verus! {

#[derive(Clone, Copy, Debug, PartialEq, Eq, Structural)]
pub enum ForwardField {
    Name,
    BindHost,
    BindPort,
    TargetHost,
    TargetPort,
}

/// The inline editor of one forward rule.
#[derive(Debug)]
pub struct ForwardEdit {
    /// The rule being edited; `None` while adding one.
    pub id: Option<u128>,
    pub name: RenameEdit,
    pub bind_host: RenameEdit,
    pub bind_port: RenameEdit,
    pub target_host: RenameEdit,
    pub target_port: RenameEdit,
    pub enabled: bool,
    pub focus: ForwardField,
}

pub struct ForwardEditView {
    pub id: Option<u128>,
    pub name: EditView,
    pub bind_host: EditView,
    pub bind_port: EditView,
    pub target_host: EditView,
    pub target_port: EditView,
    pub enabled: bool,
    pub focus: ForwardField,
}

impl View for ForwardEdit {
    type V = ForwardEditView;

    open spec fn view(&self) -> ForwardEditView {
        ForwardEditView {
            id: self.id,
            name: self.name@,
            bind_host: self.bind_host@,
            bind_port: self.bind_port@,
            target_host: self.target_host@,
            target_port: self.target_port@,
            enabled: self.enabled,
            focus: self.focus,
        }
    }
}

pub struct SshFormState {
    /// The profile being edited; `None` when creating one.
    pub editing: Option<u128>,
    pub name: RenameEdit,
    pub host: RenameEdit,
    pub port: RenameEdit,
    pub user: RenameEdit,
    pub password: RenameEdit,
    pub key_path: RenameEdit,
    pub use_private_key: bool,
    /// The keyring already holds a password for the edited profile.
    pub has_stored_password: bool,
    pub remember: bool,
    pub forwards: Vec<ForwardRule>,
    pub forwards_open: bool,
    pub forward_edit: Option<ForwardEdit>,
    pub error: Option<String>,
    pub field: SshField,
}

pub struct SshFormView {
    pub editing: Option<u128>,
    pub name: EditView,
    pub host: EditView,
    pub port: EditView,
    pub user: EditView,
    pub password: EditView,
    pub key_path: EditView,
    pub use_private_key: bool,
    pub has_stored_password: bool,
    pub remember: bool,
    pub forwards: Seq<ForwardRule>,
    pub forwards_open: bool,
    pub forward_edit: Option<ForwardEditView>,
    pub error: Option<Seq<char>>,
    pub field: SshField,
}

impl View for SshFormState {
    type V = SshFormView;

    open spec fn view(&self) -> SshFormView {
        SshFormView {
            editing: self.editing,
            name: self.name@,
            host: self.host@,
            port: self.port@,
            user: self.user@,
            password: self.password@,
            key_path: self.key_path@,
            use_private_key: self.use_private_key,
            has_stored_password: self.has_stored_password,
            remember: self.remember,
            forwards: self.forwards@,
            forwards_open: self.forwards_open,
            forward_edit: match self.forward_edit {
                Some(e) => Some(e@),
                None => None,
            },
            error: match self.error {
                Some(e) => Some(e@),
                None => None,
            },
            field: self.field,
        }
    }
}

/// A form field holding `text`, caret at its end.
pub open spec fn field_view(text: Seq<char>) -> EditView {
    EditView { text, cursor: text.len(), anchor: text.len(), caret_visible: true }
}

fn field_edit(text: &str) -> (e: RenameEdit)
    ensures
        e@ == field_view(text@),
{
    RenameEdit::at_end(text)
}

/// The editor of the forward field `f`.
pub open spec fn forward_field(e: ForwardEditView, f: ForwardField) -> EditView {
    match f {
        ForwardField::Name => e.name,
        ForwardField::BindHost => e.bind_host,
        ForwardField::BindPort => e.bind_port,
        ForwardField::TargetHost => e.target_host,
        ForwardField::TargetPort => e.target_port,
    }
}

pub open spec fn with_forward_field(e: ForwardEditView, f: ForwardField, x: EditView) -> ForwardEditView {
    match f {
        ForwardField::Name => ForwardEditView { name: x, ..e },
        ForwardField::BindHost => ForwardEditView { bind_host: x, ..e },
        ForwardField::BindPort => ForwardEditView { bind_port: x, ..e },
        ForwardField::TargetHost => ForwardEditView { target_host: x, ..e },
        ForwardField::TargetPort => ForwardEditView { target_port: x, ..e },
    }
}

/// The editor of the form field `f`.
pub open spec fn form_field(v: SshFormView, f: SshField) -> EditView {
    match f {
        SshField::Name => v.name,
        SshField::Host => v.host,
        SshField::Port => v.port,
        SshField::User => v.user,
        SshField::Password => v.password,
        SshField::KeyPath => v.key_path,
    }
}

pub open spec fn with_form_field(v: SshFormView, f: SshField, x: EditView) -> SshFormView {
    match f {
        SshField::Name => SshFormView { name: x, ..v },
        SshField::Host => SshFormView { host: x, ..v },
        SshField::Port => SshFormView { port: x, ..v },
        SshField::User => SshFormView { user: x, ..v },
        SshField::Password => SshFormView { password: x, ..v },
        SshField::KeyPath => SshFormView { key_path: x, ..v },
    }
}

/// The editor that has the keyboard: the forward editor's focused field
/// while it is open, else the form's focused field.
pub open spec fn active(v: SshFormView) -> EditView {
    match v.forward_edit {
        Some(e) => forward_field(e, e.focus),
        None => form_field(v, v.field),
    }
}

/// `v` with the editor that has the keyboard replaced by `x`.
pub open spec fn with_active(v: SshFormView, x: EditView) -> SshFormView {
    match v.forward_edit {
        Some(e) => SshFormView { forward_edit: Some(with_forward_field(e, e.focus, x)), ..v },
        None => with_form_field(v, v.field, x),
    }
}

/// A blank form for a new profile: port 22, the login user, password
/// authentication remembered, the Host field focused.
pub open spec fn blank_form(default_user: Seq<char>) -> SshFormView {
    SshFormView {
        editing: None,
        name: field_view(Seq::empty()),
        host: field_view(Seq::empty()),
        port: field_view("22"@),
        user: field_view(default_user),
        password: field_view(Seq::empty()),
        key_path: field_view(Seq::empty()),
        use_private_key: false,
        has_stored_password: false,
        remember: true,
        forwards: Seq::empty(),
        forwards_open: false,
        forward_edit: None,
        error: None,
        field: SshField::Host,
    }
}

/// The form loaded with `p`, an SSH profile; `stored` says whether the
/// keyring holds its password.
pub open spec fn loaded_form(v: SshFormView, p: Profile, stored: bool) -> SshFormView {
    match p.kind {
        ProfileKind::Ssh { host, port, user, auth } => {
            let base = SshFormView {
                editing: Some(p.id),
                name: field_view(p.name@),
                host: field_view(host@),
                port: field_view(text::decimal(port as nat)),
                user: field_view(user@),
                password: field_view(Seq::empty()),
                forwards: p.forwards@,
                forwards_open: p.forwards@.len() > 0,
                forward_edit: None,
                error: None,
                field: SshField::Host,
                ..v
            };
            match auth {
                SshAuthChoice::Password { remember } => SshFormView {
                    use_private_key: false,
                    remember,
                    key_path: field_view(Seq::empty()),
                    has_stored_password: stored,
                    ..base
                },
                SshAuthChoice::PrivateKey { path } => SshFormView {
                    use_private_key: true,
                    remember: false,
                    key_path: field_view(path@),
                    has_stored_password: false,
                    ..base
                },
            }
        },
        _ => v,
    }
}

/// The editor that stands in while the focused one is taken out.
pub open spec fn blank_view() -> EditView {
    EditView { text: Seq::empty(), cursor: 0, anchor: 0, caret_visible: false }
}

fn blank_edit() -> (e: RenameEdit)
    ensures
        e@ == blank_view(),
{
    let e = RenameEdit { text: String::new(), cursor: 0, anchor: 0, caret_visible: false };
    assert(e@.text =~= Seq::<char>::empty());
    e
}

/// Index of the first rule with id `id`.
pub open spec fn rule_at(rules: Seq<ForwardRule>, id: u128) -> Option<int> {
    if exists|k: int| 0 <= k < rules.len() && (#[trigger] rules[k]).id == id {
        Some(
            choose|k: int|
                0 <= k < rules.len() && (#[trigger] rules[k]).id == id && forall|j: int|
                    0 <= j < k ==> (#[trigger] rules[j]).id != id,
        )
    } else {
        None
    }
}

fn find_rule(rules: &Vec<ForwardRule>, id: u128) -> (i: Option<usize>)
    ensures
        match i {
            Some(k) => rule_at(rules@, id) == Some(k as int) && k < rules@.len(),
            None => rule_at(rules@, id) is None,
        },
{
    let mut k: usize = 0;
    while k < rules.len()
        invariant
            0 <= k <= rules@.len(),
            forall|j: int| 0 <= j < k ==> (#[trigger] rules@[j]).id != id,
        decreases rules@.len() - k,
    {
        if rules[k].id == id {
            proof {
                let c = choose|c: int|
                    0 <= c < rules@.len() && (#[trigger] rules@[c]).id == id && forall|j: int|
                        0 <= j < c ==> (#[trigger] rules@[j]).id != id;
                if c < k {
                    assert(rules@[c].id != id);
                }
                if c > k {
                    assert(rules@[k as int].id != id);
                }
            }
            return Some(k);
        }
        k += 1;
    }
    None
}

fn port_text(p: u16) -> (s: String)
    ensures
        s@ == text::decimal(p as nat),
{
    let mut s = String::new();
    text::push_decimal(&mut s, p as u128);
    assert(s@ =~= text::decimal(p as nat));
    s
}

impl SshFormState {
    /// A blank form; `default_user` is the login user of this machine.
    pub fn new(default_user: &str) -> (f: Self)
        ensures
            f@ == blank_form(default_user@),
    {
        let f = SshFormState {
            editing: None,
            name: field_edit(""),
            host: field_edit(""),
            port: field_edit("22"),
            user: field_edit(default_user),
            password: field_edit(""),
            key_path: field_edit(""),
            use_private_key: false,
            has_stored_password: false,
            remember: true,
            forwards: Vec::new(),
            forwards_open: false,
            forward_edit: None,
            error: None,
            field: SshField::Host,
        };
        proof {
            reveal_strlit("");
            assert(""@ =~= Seq::<char>::empty());
            assert(f@.forwards =~= Seq::<ForwardRule>::empty());
        }
        f
    }

    /// Back to a blank form.
    pub fn reset(&mut self, default_user: &str)
        ensures
            final(self)@ == blank_form(default_user@),
    {
        *self = SshFormState::new(default_user);
    }

    /// Loads `profile` for editing: refused when there is none or it is
    /// not an SSH profile; `stored_password` says whether the keyring holds
    /// its password (it matters only for password authentication).
    pub fn load_for_edit(&mut self, profile: Option<&Profile>, stored_password: bool)
        ensures
            match profile {
                None => final(self)@ == (SshFormView { error: Some("Profile not found"@), ..old(self)@ }),
                Some(p) => match p.kind {
                    ProfileKind::Ssh { .. } => final(self)@ == loaded_form(old(self)@, *p, stored_password),
                    _ => final(self)@ == (SshFormView { error: Some("Not an SSH profile"@), ..old(self)@ }),
                },
            },
    {
        let p = match profile {
            None => {
                self.error = Some(text::owned("Profile not found"));
                return;
            },
            Some(p) => p,
        };
        let (host, port, user, auth) = match &p.kind {
            ProfileKind::Ssh { host, port, user, auth } => (host, *port, user, auth),
            _ => {
                self.error = Some(text::owned("Not an SSH profile"));
                return;
            },
        };
        self.editing = Some(p.id);
        self.name = field_edit(p.name.as_str());
        self.host = field_edit(host.as_str());
        let pt = port_text(port);
        self.port = field_edit(pt.as_str());
        self.user = field_edit(user.as_str());
        self.password = field_edit("");
        self.forwards = clone_rules(&p.forwards);
        self.forwards_open = p.forwards.len() > 0;
        self.forward_edit = None;
        self.error = None;
        match auth {
            SshAuthChoice::Password { remember } => {
                self.use_private_key = false;
                self.remember = *remember;
                self.key_path = field_edit("");
                self.has_stored_password = stored_password;
            },
            SshAuthChoice::PrivateKey { path } => {
                self.use_private_key = true;
                self.remember = false;
                self.key_path = field_edit(path.as_str());
                self.has_stored_password = false;
            },
        }
        self.field = SshField::Host;
        proof {
            reveal_strlit("");
            assert(""@ =~= Seq::<char>::empty());
        }
    }

    /// Takes the editor that has the keyboard out of the form (an empty
    /// editor stands in until `put_active`).
    fn take_active(&mut self) -> (e: RenameEdit)
        ensures
            e@ == active(old(self)@),
            final(self)@ == with_active(old(self)@, blank_view()),
    {
        let mut e = blank_edit();
        match self.forward_edit.take() {
            Some(mut fe) => {
                match fe.focus {
                    ForwardField::Name => std::mem::swap(&mut e, &mut fe.name),
                    ForwardField::BindHost => std::mem::swap(&mut e, &mut fe.bind_host),
                    ForwardField::BindPort => std::mem::swap(&mut e, &mut fe.bind_port),
                    ForwardField::TargetHost => std::mem::swap(&mut e, &mut fe.target_host),
                    ForwardField::TargetPort => std::mem::swap(&mut e, &mut fe.target_port),
                }
                self.forward_edit = Some(fe);
            },
            None => match self.field {
                SshField::Name => std::mem::swap(&mut e, &mut self.name),
                SshField::Host => std::mem::swap(&mut e, &mut self.host),
                SshField::Port => std::mem::swap(&mut e, &mut self.port),
                SshField::User => std::mem::swap(&mut e, &mut self.user),
                SshField::Password => std::mem::swap(&mut e, &mut self.password),
                SshField::KeyPath => std::mem::swap(&mut e, &mut self.key_path),
            },
        }
        e
    }

    /// Puts `e` back as the editor that has the keyboard.
    fn put_active(&mut self, e: RenameEdit)
        ensures
            final(self)@ == with_active(old(self)@, e@),
    {
        match self.forward_edit.take() {
            Some(mut fe) => {
                match fe.focus {
                    ForwardField::Name => fe.name = e,
                    ForwardField::BindHost => fe.bind_host = e,
                    ForwardField::BindPort => fe.bind_port = e,
                    ForwardField::TargetHost => fe.target_host = e,
                    ForwardField::TargetPort => fe.target_port = e,
                }
                self.forward_edit = Some(fe);
            },
            None => match self.field {
                SshField::Name => self.name = e,
                SshField::Host => self.host = e,
                SshField::Port => self.port = e,
                SshField::User => self.user = e,
                SshField::Password => self.password = e,
                SshField::KeyPath => self.key_path = e,
            },
        }
    }

    /// Clicking a field gives it the keyboard: a newly focused field gets
    /// its caret at the end; a click on the focused field shows its caret.
    /// (While the forward editor is open its focused field is the one the
    /// keyboard reaches, and that is the editor these act on.)
    pub fn focus_field(&mut self, field: SshField)
        ensures
            old(self)@.field != field ==> final(self)@ == with_active(
                SshFormView { field, ..old(self)@ },
                active(SshFormView { field, ..old(self)@ }).move_end(false),
            ),
            old(self)@.field == field ==> final(self)@ == with_active(
                old(self)@,
                EditView { caret_visible: true, ..active(old(self)@) },
            ),
    {
        if self.field != field {
            self.field = field;
            let mut e = self.take_active();
            e.move_end(false);
            self.put_active(e);
        } else {
            let mut e = self.take_active();
            e.caret_visible = true;
            self.put_active(e);
        }
    }

    /// Tab: the next shown field, caret at its end.
    pub fn cycle_field(&mut self)
        ensures
            ({
                let moved = SshFormView { field: next_ssh_field(old(self)@.field, old(self)@.use_private_key), ..old(self)@ };
                final(self)@ == with_active(moved, active(moved).move_end(false))
            }),
    {
        self.field = forms::cycle_field(self.field, self.use_private_key);
        let mut e = self.take_active();
        e.move_end(false);
        self.put_active(e);
    }

    /// A key for the editor that has the keyboard; a handled key shows its
    /// caret.
    #[verifier::rlimit(50)]
    #[verifier::spinoff_prover]
    pub fn handle_key(
        &mut self,
        key: &str,
        chord: bool,
        shift: bool,
        clipboard: Option<&str>,
        typed: Option<&str>,
    ) -> (outcome: KeyOutcome)
        requires
            clipboard matches Some(t) ==> active(old(self)@).lo() + t@.len() <= usize::MAX,
            typed matches Some(t) ==> active(old(self)@).lo() + t@.len() <= usize::MAX,
        ensures
            ({
                let (e2, handled, copy) = key_effect(
                    active(old(self)@),
                    key@,
                    chord,
                    shift,
                    match clipboard {
                        Some(t) => Some(t@),
                        None => None,
                    },
                    match typed {
                        Some(t) => Some(t@),
                        None => None,
                    },
                );
                &&& outcome.handled == handled
                &&& match outcome.copy {
                    Some(c) => copy == Some(c@),
                    None => copy is None,
                }
                &&& final(self)@ == with_active(
                    old(self)@,
                    if handled {
                        EditView { caret_visible: true, ..e2 }
                    } else {
                        e2
                    },
                )
            }),
    {
        let mut e = self.take_active();
        let outcome = e.handle_key(key, chord, shift, clipboard, typed);
        if outcome.handled {
            e.caret_visible = true;
        }
        self.put_active(e);
        outcome
    }

    /// A right click pastes the clipboard (without line breaks) into the
    /// editor that has the keyboard.
    pub fn paste(&mut self, clipboard: &str)
        requires
            active(old(self)@).lo() + clipboard@.len() <= usize::MAX,
        ensures
            strip_newlines(clipboard@).len() > 0 ==> final(self)@ == with_active(
                old(self)@,
                active(old(self)@).insert(strip_newlines(clipboard@)),
            ),
            strip_newlines(clipboard@).len() == 0 ==> final(self)@ == old(self)@,
    {
        let cleaned = crate::rename_edit::strip_newlines_string(clipboard);
        proof {
            clipboard@.lemma_filter_len(|c: char| c != '\r' && c != '\n');
        }
        if cleaned.as_str().unicode_len() > 0 {
            let mut e = self.take_active();
            e.insert(cleaned.as_str());
            self.put_active(e);
        }
    }

    /// Submitting starts with a clean error line; returns the texts and
    /// switches that `forms::submit_ssh` checks.
    pub fn begin_submit(&mut self) -> (i: SshFormInput)
        ensures
            final(self)@ == (SshFormView { error: None, ..old(self)@ }),
            i.editing == old(self)@.editing,
            i.name@ == old(self)@.name.text,
            i.host@ == old(self)@.host.text,
            i.port@ == old(self)@.port.text,
            i.user@ == old(self)@.user.text,
            i.password@ == old(self)@.password.text,
            i.key_path@ == old(self)@.key_path.text,
            i.use_private_key == old(self)@.use_private_key,
            i.has_stored_password == old(self)@.has_stored_password,
            i.remember == old(self)@.remember,
    {
        self.error = None;
        SshFormInput {
            editing: self.editing,
            name: self.name.text.clone(),
            host: self.host.text.clone(),
            port: self.port.text.clone(),
            user: self.user.text.clone(),
            password: self.password.text.clone(),
            key_path: self.key_path.text.clone(),
            use_private_key: self.use_private_key,
            has_stored_password: self.has_stored_password,
            remember: self.remember,
        }
    }

    /// The submission was refused (by the checks, the keyring or the
    /// workspace): `message` is shown.
    pub fn submit_refused(&mut self, message: String)
        ensures
            final(self)@ == (SshFormView { error: Some(message@), ..old(self)@ }),
    {
        self.error = Some(message);
    }

    /// Storing the password in the OS keyring failed with `err`: the form
    /// stays open and says so (nothing is saved).
    pub fn password_store_failed(&mut self, err: &str)
        ensures
            final(self)@ == (SshFormView { error: Some("Could not store password: "@ + err@), ..old(self)@ }),
    {
        let mut m = text::owned("Could not store password: ");
        m.append(err);
        self.error = Some(m);
    }

    /// The authentication switch: key or password, then the matching
    /// field gets the keyboard.
    pub fn toggle_private_key(&mut self)
        ensures
            ({
                let flipped = SshFormView { use_private_key: !old(self)@.use_private_key, ..old(self)@ };
                let target = if flipped.use_private_key {
                    SshField::KeyPath
                } else {
                    SshField::Password
                };
                &&& flipped.field != target ==> final(self)@ == with_active(
                    SshFormView { field: target, ..flipped },
                    active(SshFormView { field: target, ..flipped }).move_end(false),
                )
                &&& flipped.field == target ==> final(self)@ == with_active(
                    flipped,
                    EditView { caret_visible: true, ..active(flipped) },
                )
            }),
    {
        self.use_private_key = !self.use_private_key;
        let target = if self.use_private_key {
            SshField::KeyPath
        } else {
            SshField::Password
        };
        self.focus_field(target);
    }

    pub fn toggle_remember(&mut self)
        ensures
            final(self)@ == (SshFormView { remember: !old(self)@.remember, ..old(self)@ }),
    {
        self.remember = !self.remember;
    }

    /// The "Port forwards" header folds the list.
    pub fn toggle_forwards_open(&mut self)
        ensures
            final(self)@ == (SshFormView { forwards_open: !old(self)@.forwards_open, ..old(self)@ }),
    {
        self.forwards_open = !self.forwards_open;
    }

    /// Switches rule `id` on or off.
    pub fn toggle_rule(&mut self, id: u128)
        ensures
            match rule_at(old(self)@.forwards, id) {
                Some(k) => final(self)@ == (SshFormView {
                    forwards: old(self)@.forwards.update(
                        k,
                        ForwardRule { enabled: !old(self)@.forwards[k].enabled, ..old(self)@.forwards[k] },
                    ),
                    ..old(self)@
                }),
                None => final(self)@ == old(self)@,
            },
    {
        match find_rule(&self.forwards, id) {
            Some(k) => {
                let mut r = self.forwards[k].clone();
                r.enabled = !r.enabled;
                self.forwards.set(k, r);
                proof {
                    assert(self@ =~= (SshFormView {
                        forwards: old(self)@.forwards.update(
                            k as int,
                            ForwardRule {
                                enabled: !old(self)@.forwards[k as int].enabled,
                                ..old(self)@.forwards[k as int]
                            },
                        ),
                        ..old(self)@
                    }));
                }
            },
            None => {},
        }
    }

    /// Deletes rule `id` (every rule with that id); its editor closes if it
    /// was open on it.
    pub fn delete_rule(&mut self, id: u128)
        ensures
            final(self)@ == (SshFormView {
                forwards: old(self)@.forwards.filter(|r: ForwardRule| r.id != id),
                forward_edit: match old(self)@.forward_edit {
                    Some(e) => if e.id == Some(id) {
                        None
                    } else {
                        Some(e)
                    },
                    None => None,
                },
                ..old(self)@
            }),
    {
        let mut kept: Vec<ForwardRule> = Vec::new();
        let mut k: usize = 0;
        while k < self.forwards.len()
            invariant
                0 <= k <= self.forwards@.len(),
                self.forwards@ == old(self)@.forwards,
                kept@ == self.forwards@.subrange(0, k as int).filter(|r: ForwardRule| r.id != id),
            decreases self.forwards@.len() - k,
        {
            let r = self.forwards[k].clone();
            proof {
                let p = self.forwards@.subrange(0, k as int);
                assert(self.forwards@.subrange(0, k + 1) =~= p.push(r));
                p.lemma_filter_push(r, |r: ForwardRule| r.id != id);
            }
            if r.id != id {
                kept.push(r);
            }
            k += 1;
        }
        proof {
            assert(self.forwards@.subrange(0, self.forwards@.len() as int) =~= self.forwards@);
        }
        self.forwards = kept;
        let close = match &self.forward_edit {
            Some(e) => e.id == Some(id),
            None => false,
        };
        if close {
            self.forward_edit = None;
        }
    }

    /// "Add rule": the editor opens on a new rule listening on 127.0.0.1,
    /// its listen port focused.
    pub fn begin_add_forward(&mut self)
        ensures
            final(self)@ == (SshFormView {
                forwards_open: true,
                forward_edit: Some(
                    ForwardEditView {
                        id: None,
                        name: field_view(Seq::empty()),
                        bind_host: field_view("127.0.0.1"@),
                        bind_port: field_view(Seq::empty()),
                        target_host: field_view("127.0.0.1"@),
                        target_port: field_view(Seq::empty()),
                        enabled: true,
                        focus: ForwardField::BindPort,
                    },
                ),
                ..old(self)@
            }),
    {
        self.forwards_open = true;
        self.forward_edit = Some(
            ForwardEdit {
                id: None,
                name: field_edit(""),
                bind_host: field_edit("127.0.0.1"),
                bind_port: field_edit(""),
                target_host: field_edit("127.0.0.1"),
                target_port: field_edit(""),
                enabled: true,
                focus: ForwardField::BindPort,
            },
        );
        proof {
            reveal_strlit("");
            assert(""@ =~= Seq::<char>::empty());
        }
    }

    /// "Edit" on rule `id`: the editor opens on it, its listen port
    /// focused.
    pub fn begin_edit_forward(&mut self, id: u128)
        ensures
            match rule_at(old(self)@.forwards, id) {
                Some(k) => {
                    let r = old(self)@.forwards[k];
                    final(self)@ == (SshFormView {
                        forwards_open: true,
                        forward_edit: Some(
                            ForwardEditView {
                                id: Some(r.id),
                                name: field_view(r.name@),
                                bind_host: field_view(r.bind_host@),
                                bind_port: field_view(text::decimal(r.bind_port as nat)),
                                target_host: field_view(r.target_host@),
                                target_port: field_view(text::decimal(r.target_port as nat)),
                                enabled: r.enabled,
                                focus: ForwardField::BindPort,
                            },
                        ),
                        ..old(self)@
                    })
                },
                None => final(self)@ == old(self)@,
            },
    {
        let k = match find_rule(&self.forwards, id) {
            Some(k) => k,
            None => {
                return;
            },
        };
        let r = self.forwards[k].clone();
        let bp = port_text(r.bind_port);
        let tp = port_text(r.target_port);
        self.forwards_open = true;
        self.forward_edit = Some(
            ForwardEdit {
                id: Some(r.id),
                name: field_edit(r.name.as_str()),
                bind_host: field_edit(r.bind_host.as_str()),
                bind_port: field_edit(bp.as_str()),
                target_host: field_edit(r.target_host.as_str()),
                target_port: field_edit(tp.as_str()),
                enabled: r.enabled,
                focus: ForwardField::BindPort,
            },
        );
    }

    /// Closes the forward editor without saving.
    pub fn cancel_forward_edit(&mut self)
        ensures
            final(self)@ == (SshFormView { forward_edit: None, ..old(self)@ }),
    {
        self.forward_edit = None;
    }

    /// A click on a field of the forward editor.
    pub fn focus_forward_field(&mut self, f: ForwardField)
        ensures
            final(self)@ == (SshFormView {
                forward_edit: match old(self)@.forward_edit {
                    Some(e) => Some(ForwardEditView { focus: f, ..e }),
                    None => None,
                },
                ..old(self)@
            }),
    {
        if let Some(mut e) = self.forward_edit.take() {
            e.focus = f;
            self.forward_edit = Some(e);
        }
    }

    /// The editor's "enabled" switch.
    pub fn toggle_forward_enabled(&mut self)
        ensures
            final(self)@ == (SshFormView {
                forward_edit: match old(self)@.forward_edit {
                    Some(e) => Some(ForwardEditView { enabled: !e.enabled, ..e }),
                    None => None,
                },
                ..old(self)@
            }),
    {
        if let Some(mut e) = self.forward_edit.take() {
            e.enabled = !e.enabled;
            self.forward_edit = Some(e);
        }
    }

    /// The texts of the forward editor, for `forms::save_forward`.
    pub fn forward_input(&self) -> (i: Option<ForwardInput>)
        ensures
            match self@.forward_edit {
                Some(e) => i matches Some(x) && editor_texts(x, e),
                None => i is None,
            },
    {
        match &self.forward_edit {
            Some(e) => Some(
                ForwardInput {
                    id: e.id,
                    name: e.name.text.clone(),
                    bind_host: e.bind_host.text.clone(),
                    bind_port: e.bind_port.text.clone(),
                    target_host: e.target_host.text.clone(),
                    target_port: e.target_port.text.clone(),
                    enabled: e.enabled,
                },
            ),
            None => None,
        }
    }

    /// Enter in the forward editor: a valid rule replaces the one with its
    /// id (or is added; a new rule gets a fresh random id) and the editor
    /// closes; otherwise the error says which field is wrong. Returns what
    /// the check gave, or `None` when the editor is closed.
    pub fn save_forward_edit(&mut self) -> (r: Option<Result<ForwardRule, forms::ForwardError>>)
        ensures
            match old(self)@.forward_edit {
                None => r is None && final(self)@ == old(self)@,
                Some(e) => match r {
                    Some(Ok(rule)) => {
                        &&& exists|x: ForwardInput|
                            #![trigger editor_texts(x, e)]
                            editor_texts(x, e) && forms::forward_error(x) is None && forms::forward_rule_holds(
                                rule,
                                x,
                                rule.id,
                            )
                        &&& e.id matches Some(id) ==> rule.id == id
                        &&& final(self)@ == (SshFormView {
                            forwards: forms::upserted(old(self)@.forwards, rule),
                            forward_edit: None,
                            error: None,
                            ..old(self)@
                        })
                    },
                    Some(Err(err)) => {
                        &&& exists|x: ForwardInput|
                            #![trigger editor_texts(x, e)]
                            editor_texts(x, e) && forms::forward_error(x) == Some(err)
                        &&& final(self)@ == (SshFormView { error: Some(err.spec_message()), ..old(self)@ })
                    },
                    None => false,
                },
            },
    {
        let input = match self.forward_input() {
            Some(i) => i,
            None => {
                return None;
            },
        };
        match forms::save_forward(&input) {
            Ok(rule) => {
                forms::upsert_forward(&mut self.forwards, rule.clone());
                self.forward_edit = None;
                self.error = None;
                Some(Ok(rule))
            },
            Err(err) => {
                self.error = Some(text::owned(err.message()));
                Some(Err(err))
            },
        }
    }
}

/// `x` carries the texts of the editor `e`.
pub open spec fn editor_texts(x: ForwardInput, e: ForwardEditView) -> bool {
    &&& x.id == e.id
    &&& x.name@ == e.name.text
    &&& x.bind_host@ == e.bind_host.text
    &&& x.bind_port@ == e.bind_port.text
    &&& x.target_host@ == e.target_host.text
    &&& x.target_port@ == e.target_port.text
    &&& x.enabled == e.enabled
}

fn clone_rules(rules: &Vec<ForwardRule>) -> (out: Vec<ForwardRule>)
    ensures
        out@ == rules@,
{
    let mut out: Vec<ForwardRule> = Vec::new();
    let mut k: usize = 0;
    while k < rules.len()
        invariant
            0 <= k <= rules@.len(),
            out@ == rules@.subrange(0, k as int),
        decreases rules@.len() - k,
    {
        out.push(rules[k].clone());
        k += 1;
        assert(out@ =~= rules@.subrange(0, k as int));
    }
    assert(rules@.subrange(0, rules@.len() as int) =~= rules@);
    out
}

} // verus!
