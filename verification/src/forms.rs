//! What the SSH profile form, its port-forward editor and the Local
//! profile form decide when submitted: field checks in a fixed order, the
//! defaults they fill in, the keyring step for the password, and the field
//! order of Tab.

use vstd::prelude::*;

use crate::ids;
use crate::text;

verus! {

// ---------------------------------------------------------------- fields

#[derive(Clone, Copy, Debug, PartialEq, Eq, Structural)]
pub enum SshField {
    Name,
    Host,
    Port,
    User,
    Password,
    KeyPath,
}

/// The field after `f` on Tab: the password field is skipped when a
/// private key is used, the key path field otherwise.
pub open spec fn next_ssh_field(f: SshField, use_private_key: bool) -> SshField {
    match f {
        SshField::Name => SshField::Host,
        SshField::Host => SshField::Port,
        SshField::Port => SshField::User,
        SshField::User => if use_private_key {
            SshField::KeyPath
        } else {
            SshField::Password
        },
        SshField::Password | SshField::KeyPath => SshField::Name,
    }
}

/// Whether `f` is shown for the chosen authentication.
pub open spec fn shown(f: SshField, use_private_key: bool) -> bool {
    match f {
        SshField::Password => !use_private_key,
        SshField::KeyPath => use_private_key,
        _ => true,
    }
}

/// Tab in the SSH form.
pub fn cycle_field(f: SshField, use_private_key: bool) -> (g: SshField)
    ensures
        g == next_ssh_field(f, use_private_key),
{
    if use_private_key {
        match f {
            SshField::Name => SshField::Host,
            SshField::Host => SshField::Port,
            SshField::Port => SshField::User,
            SshField::User => SshField::KeyPath,
            SshField::KeyPath | SshField::Password => SshField::Name,
        }
    } else {
        match f {
            SshField::Name => SshField::Host,
            SshField::Host => SshField::Port,
            SshField::Port => SshField::User,
            SshField::User => SshField::Password,
            SshField::Password | SshField::KeyPath => SshField::Name,
        }
    }
}

/// Position of a field in the form's layout table.
pub fn field_idx(f: SshField) -> (i: usize)
    ensures
        i == match f {
            SshField::Name => 0usize,
            SshField::Host => 1,
            SshField::Port => 2,
            SshField::User => 3,
            SshField::Password => 4,
            SshField::KeyPath => 5,
        },
{
    match f {
        SshField::Name => 0,
        SshField::Host => 1,
        SshField::Port => 2,
        SshField::User => 3,
        SshField::Password => 4,
        SshField::KeyPath => 5,
    }
}

/// Tab only ever lands on a shown field, and five presses from a shown
/// field come back to it.
pub proof fn law_tab_cycle(f: SshField, use_private_key: bool)
    ensures
        shown(next_ssh_field(f, use_private_key), use_private_key),
        shown(f, use_private_key) ==> next_ssh_field(
            next_ssh_field(
                next_ssh_field(next_ssh_field(next_ssh_field(f, use_private_key), use_private_key), use_private_key),
                use_private_key,
            ),
            use_private_key,
        ) == f,
{
}

// ---------------------------------------------------------------- SSH profile

/// The texts and switches of the SSH form when it is submitted.
pub struct SshFormInput {
    /// The profile being edited; `None` when creating one.
    pub editing: Option<u128>,
    pub name: String,
    pub host: String,
    pub port: String,
    pub user: String,
    pub password: String,
    pub key_path: String,
    pub use_private_key: bool,
    /// The keyring already holds a password for the edited profile.
    pub has_stored_password: bool,
    pub remember: bool,
}

#[derive(Clone, Copy, Debug, PartialEq, Eq, Structural)]
pub enum SshSubmitError {
    HostRequired,
    UserRequired,
    BadPort,
    KeyPathRequired,
    PasswordRequired,
}

impl SshSubmitError {
    /// The message shown under the form.
    pub fn message(self) -> (m: &'static str)
        ensures
            m@ == match self {
                SshSubmitError::HostRequired => "Host is required"@,
                SshSubmitError::UserRequired => "User is required"@,
                SshSubmitError::BadPort => "Port must be 1–65535"@,
                SshSubmitError::KeyPathRequired => "Private key path is required"@,
                SshSubmitError::PasswordRequired => "Password is required (saved to OS keyring if Remember is on)"@,
            },
    {
        match self {
            SshSubmitError::HostRequired => "Host is required",
            SshSubmitError::UserRequired => "User is required",
            SshSubmitError::BadPort => "Port must be 1–65535",
            SshSubmitError::KeyPathRequired => "Private key path is required",
            SshSubmitError::PasswordRequired => "Password is required (saved to OS keyring if Remember is on)",
        }
    }
}

#[derive(Debug)]
pub enum SshAuthChoice {
    Password { remember: bool },
    PrivateKey { path: String },
}

/// What happens to the keyring entry of the profile.
#[derive(Debug)]
pub enum KeyringStep {
    Store(String),
    Delete,
    Keep,
}

/// A checked SSH form: the profile fields, the keyring step, and the
/// password to use once when it is not remembered.
#[derive(Debug)]
pub struct SshSubmit {
    pub id: u128,
    pub creating: bool,
    pub name: String,
    pub host: String,
    pub port: u16,
    pub user: String,
    pub auth: SshAuthChoice,
    pub keyring: KeyringStep,
    pub oneshot_password: Option<String>,
}

/// A port text that the form accepts: a number from 1 to 65535 (after
/// trimming).
pub open spec fn form_port(text: Seq<char>) -> Option<u16> {
    match text::parse_u16_spec(text::spec_trim(text)) {
        Some(p) => if p == 0 {
            None
        } else {
            Some(p)
        },
        None => None,
    }
}

/// The first failed check of the SSH form, in the order the form checks.
pub open spec fn ssh_submit_error(i: SshFormInput) -> Option<SshSubmitError> {
    if text::spec_trim(i.host@).len() == 0 {
        Some(SshSubmitError::HostRequired)
    } else if text::spec_trim(i.user@).len() == 0 {
        Some(SshSubmitError::UserRequired)
    } else if form_port(i.port@) is None {
        Some(SshSubmitError::BadPort)
    } else if i.use_private_key {
        if text::spec_trim(i.key_path@).len() == 0 {
            Some(SshSubmitError::KeyPathRequired)
        } else {
            None
        }
    } else if i.password@.len() == 0 && (i.editing is None || !i.has_stored_password) {
        Some(SshSubmitError::PasswordRequired)
    } else {
        None
    }
}

/// The profile name: the trimmed name, or `"{user}@{host}"` without one.
pub open spec fn profile_name(i: SshFormInput) -> Seq<char> {
    if text::spec_trim(i.name@).len() == 0 {
        text::spec_trim(i.user@) + seq!['@'] + text::spec_trim(i.host@)
    } else {
        text::spec_trim(i.name@)
    }
}

/// The submission of a form that passed its checks, for profile `id`.
pub open spec fn ssh_plan_holds(p: SshSubmit, i: SshFormInput, id: u128) -> bool {
    &&& p.id == id
    &&& p.creating == (i.editing is None)
    &&& p.name@ == profile_name(i)
    &&& p.host@ == text::spec_trim(i.host@)
    &&& Some(p.port) == form_port(i.port@)
    &&& p.user@ == text::spec_trim(i.user@)
    &&& if i.use_private_key {
        &&& p.auth matches SshAuthChoice::PrivateKey { path } && path@ == text::spec_trim(i.key_path@)
        &&& p.keyring is Delete
        &&& p.oneshot_password is None
    } else {
        &&& p.auth == (SshAuthChoice::Password { remember: i.remember })
        &&& if i.password@.len() > 0 {
            if i.remember {
                p.keyring matches KeyringStep::Store(pw) && pw@ == i.password@
            } else {
                p.keyring is Delete
            }
        } else if !i.remember {
            p.keyring is Delete
        } else {
            p.keyring is Keep
        }
        &&& if i.password@.len() > 0 && !i.remember {
            p.oneshot_password matches Some(pw) && pw@ == i.password@
        } else {
            p.oneshot_password is None
        }
    }
}

/// The port number typed in a form field (`form_port`).
pub fn parse_form_port(text: &str) -> (p: Option<u16>)
    ensures
        p == form_port(text@),
{
    let t = text::trim_string(text);
    let chars = text::chars_of(t.as_str());
    match text::parse_u16(chars.as_slice()) {
        Some(p) => if p == 0 {
            None
        } else {
            Some(p)
        },
        None => None,
    }
}

/// Checks the SSH form and, for profile `id`, says what to save.
pub fn plan_ssh_submit(i: &SshFormInput, id: u128) -> (r: Result<SshSubmit, SshSubmitError>)
    ensures
        match r {
            Ok(p) => ssh_submit_error(*i) is None && ssh_plan_holds(p, *i, id),
            Err(e) => ssh_submit_error(*i) == Some(e),
        },
{
    let host = text::trim_string(i.host.as_str());
    if host.as_str().unicode_len() == 0 {
        return Err(SshSubmitError::HostRequired);
    }
    let user = text::trim_string(i.user.as_str());
    if user.as_str().unicode_len() == 0 {
        return Err(SshSubmitError::UserRequired);
    }
    let port = match parse_form_port(i.port.as_str()) {
        Some(p) => p,
        None => {
            return Err(SshSubmitError::BadPort);
        },
    };
    let trimmed_name = text::trim_string(i.name.as_str());
    let name = if trimmed_name.as_str().unicode_len() == 0 {
        let mut n = text::owned(user.as_str());
        text::push_char(&mut n, '@');
        let hc = text::chars_of(host.as_str());
        text::push_range(&mut n, hc.as_slice(), 0, hc.len());
        assert(hc@.subrange(0, hc@.len() as int) =~= hc@);
        assert(n@ =~= text::spec_trim(i.user@) + seq!['@'] + text::spec_trim(i.host@));
        n
    } else {
        trimmed_name
    };
    let creating = i.editing.is_none();
    if i.use_private_key {
        let path = text::trim_string(i.key_path.as_str());
        if path.as_str().unicode_len() == 0 {
            return Err(SshSubmitError::KeyPathRequired);
        }
        return Ok(
            SshSubmit {
                id,
                creating,
                name,
                host,
                port,
                user,
                auth: SshAuthChoice::PrivateKey { path },
                keyring: KeyringStep::Delete,
                oneshot_password: None,
            },
        );
    }
    let empty = i.password.as_str().unicode_len() == 0;
    if empty && (creating || !i.has_stored_password) {
        return Err(SshSubmitError::PasswordRequired);
    }
    let keyring = if !empty {
        if i.remember {
            KeyringStep::Store(i.password.clone())
        } else {
            KeyringStep::Delete
        }
    } else if !i.remember {
        KeyringStep::Delete
    } else {
        KeyringStep::Keep
    };
    let oneshot_password = if !empty && !i.remember {
        Some(i.password.clone())
    } else {
        None
    };
    Ok(
        SshSubmit {
            id,
            creating,
            name,
            host,
            port,
            user,
            auth: SshAuthChoice::Password { remember: i.remember },
            keyring,
            oneshot_password,
        },
    )
}

/// Submit of the SSH form: an edited profile keeps its id, a new one gets
/// a fresh random id.
pub fn submit_ssh(i: &SshFormInput) -> (r: Result<SshSubmit, SshSubmitError>)
    ensures
        match r {
            Ok(p) => ssh_submit_error(*i) is None && ssh_plan_holds(p, *i, p.id) && match i.editing {
                Some(id) => p.id == id,
                None => p.id & ids::V4_MARK == ids::V4_MARK,
            },
            Err(e) => ssh_submit_error(*i) == Some(e),
        },
{
    let id = match i.editing {
        Some(id) => id,
        None => ids::new_id(),
    };
    plan_ssh_submit(i, id)
}

/// After the workspace refused the profile: whether to take the password
/// that was just stored back out of the keyring.
pub fn undo_keyring_after_failed_save(creating: bool, remember: bool, use_private_key: bool) -> (undo: bool)
    ensures
        undo == (creating && remember && !use_private_key),
{
    creating && remember && !use_private_key
}

/// The message when the workspace refused the profile.
pub fn store_failure_message(creating: bool) -> (m: &'static str)
    ensures
        m@ == if creating {
            "No group available for the new profile"@
        } else {
            "Could not update SSH profile"@
        },
{
    if creating {
        "No group available for the new profile"
    } else {
        "Could not update SSH profile"
    }
}

/// User, host, port (22 when the field does not parse) and identity file
/// for an `ssh -L …` command built from the form.
pub fn open_ssh_target(user: &str, host: &str, port: &str, use_private_key: bool, key_path: &str) -> (t: (String, String, u16, Option<String>))
    ensures
        t.0@ == text::spec_trim(user@),
        t.1@ == text::spec_trim(host@),
        t.2 == match text::parse_u16_spec(text::spec_trim(port@)) {
            Some(p) => p,
            None => 22u16,
        },
        t.3 == if use_private_key && text::spec_trim(key_path@).len() > 0 {
            Some(t.3->0)
        } else {
            None::<String>
        },
        t.3 matches Some(k) ==> k@ == text::spec_trim(key_path@),
{
    let u = text::trim_string(user);
    let h = text::trim_string(host);
    let pt = text::trim_string(port);
    let pc = text::chars_of(pt.as_str());
    let p = match text::parse_u16(pc.as_slice()) {
        Some(p) => p,
        None => 22,
    };
    let identity = if use_private_key {
        let k = text::trim_string(key_path);
        if k.as_str().unicode_len() == 0 {
            None
        } else {
            Some(k)
        }
    } else {
        None
    };
    (u, h, p, identity)
}

// ---------------------------------------------------------------- port forwards

/// A local port forward (`ssh -L bind_host:bind_port:target_host:target_port`).
#[derive(Debug)]
pub struct ForwardRule {
    pub id: u128,
    pub name: String,
    pub bind_host: String,
    pub bind_port: u16,
    pub target_host: String,
    pub target_port: u16,
    pub enabled: bool,
}

impl Clone for ForwardRule {
    fn clone(&self) -> (c: Self)
        ensures
            c == *self,
    {
        ForwardRule {
            id: self.id,
            name: self.name.clone(),
            bind_host: self.bind_host.clone(),
            bind_port: self.bind_port,
            target_host: self.target_host.clone(),
            target_port: self.target_port,
            enabled: self.enabled,
        }
    }
}

/// The texts of the forward editor.
pub struct ForwardInput {
    /// The rule being edited; `None` when adding one.
    pub id: Option<u128>,
    pub name: String,
    pub bind_host: String,
    pub bind_port: String,
    pub target_host: String,
    pub target_port: String,
    pub enabled: bool,
}

#[derive(Clone, Copy, Debug, PartialEq, Eq, Structural)]
pub enum ForwardError {
    BadListenPort,
    BadTargetPort,
    TargetHostRequired,
}

impl ForwardError {
    pub open spec fn spec_message(self) -> Seq<char> {
        match self {
            ForwardError::BadListenPort => "Forward listen port must be 1–65535"@,
            ForwardError::BadTargetPort => "Forward target port must be 1–65535"@,
            ForwardError::TargetHostRequired => "Forward target host is required"@,
        }
    }

    pub fn message(self) -> (m: &'static str)
        ensures
            m@ == self.spec_message(),
    {
        match self {
            ForwardError::BadListenPort => "Forward listen port must be 1–65535",
            ForwardError::BadTargetPort => "Forward target port must be 1–65535",
            ForwardError::TargetHostRequired => "Forward target host is required",
        }
    }
}

/// The first failed check of the forward editor.
pub open spec fn forward_error(i: ForwardInput) -> Option<ForwardError> {
    if form_port(i.bind_port@) is None {
        Some(ForwardError::BadListenPort)
    } else if form_port(i.target_port@) is None {
        Some(ForwardError::BadTargetPort)
    } else if text::spec_trim(i.target_host@).len() == 0 {
        Some(ForwardError::TargetHostRequired)
    } else {
        None
    }
}

/// The rule an accepted editor saves under `id`; an empty listen host
/// means `127.0.0.1`.
pub open spec fn forward_rule_holds(r: ForwardRule, i: ForwardInput, id: u128) -> bool {
    &&& r.id == id
    &&& r.name@ == text::spec_trim(i.name@)
    &&& r.bind_host@ == if text::spec_trim(i.bind_host@).len() == 0 {
        "127.0.0.1"@
    } else {
        text::spec_trim(i.bind_host@)
    }
    &&& Some(r.bind_port) == form_port(i.bind_port@)
    &&& r.target_host@ == text::spec_trim(i.target_host@)
    &&& Some(r.target_port) == form_port(i.target_port@)
    &&& r.enabled == i.enabled
}

/// Checks the forward editor and builds its rule under `id`.
pub fn build_forward_rule(i: &ForwardInput, id: u128) -> (r: Result<ForwardRule, ForwardError>)
    ensures
        match r {
            Ok(rule) => forward_error(*i) is None && forward_rule_holds(rule, *i, id),
            Err(e) => forward_error(*i) == Some(e),
        },
{
    let bind_port = match parse_form_port(i.bind_port.as_str()) {
        Some(p) => p,
        None => {
            return Err(ForwardError::BadListenPort);
        },
    };
    let target_port = match parse_form_port(i.target_port.as_str()) {
        Some(p) => p,
        None => {
            return Err(ForwardError::BadTargetPort);
        },
    };
    let bh = text::trim_string(i.bind_host.as_str());
    let bind_host = if bh.as_str().unicode_len() == 0 {
        text::owned("127.0.0.1")
    } else {
        bh
    };
    let target_host = text::trim_string(i.target_host.as_str());
    if target_host.as_str().unicode_len() == 0 {
        return Err(ForwardError::TargetHostRequired);
    }
    Ok(
        ForwardRule {
            id,
            name: text::trim_string(i.name.as_str()),
            bind_host,
            bind_port,
            target_host,
            target_port,
            enabled: i.enabled,
        },
    )
}

/// Save in the forward editor: an edited rule keeps its id, a new one gets
/// a fresh random id.
pub fn save_forward(i: &ForwardInput) -> (r: Result<ForwardRule, ForwardError>)
    ensures
        match r {
            Ok(rule) => forward_error(*i) is None && forward_rule_holds(rule, *i, rule.id) && match i.id {
                Some(id) => rule.id == id,
                None => rule.id & ids::V4_MARK == ids::V4_MARK,
            },
            Err(e) => forward_error(*i) == Some(e),
        },
{
    let id = match i.id {
        Some(id) => id,
        None => ids::new_id(),
    };
    build_forward_rule(i, id)
}

/// `rules` with the first rule of the same id replaced by `rule`, or with
/// `rule` appended.
pub open spec fn upserted(rules: Seq<ForwardRule>, rule: ForwardRule) -> Seq<ForwardRule> {
    if exists|k: int| 0 <= k < rules.len() && (#[trigger] rules[k]).id == rule.id {
        let k = choose|k: int|
            0 <= k < rules.len() && (#[trigger] rules[k]).id == rule.id && forall|j: int|
                0 <= j < k ==> (#[trigger] rules[j]).id != rule.id;
        rules.update(k, rule)
    } else {
        rules.push(rule)
    }
}

/// Stores a saved rule in the profile's rule list.
pub fn upsert_forward(rules: &mut Vec<ForwardRule>, rule: ForwardRule)
    ensures
        final(rules)@ == upserted(old(rules)@, rule),
{
    let mut k: usize = 0;
    while k < rules.len()
        invariant
            0 <= k <= rules@.len(),
            rules@ == old(rules)@,
            forall|j: int| 0 <= j < k ==> (#[trigger] rules@[j]).id != rule.id,
        decreases rules@.len() - k,
    {
        if rules[k].id == rule.id {
            let ghost r = rule;
            proof {
                let c = choose|c: int|
                    0 <= c < old(rules)@.len() && (#[trigger] old(rules)@[c]).id == r.id && forall|j: int|
                        0 <= j < c ==> (#[trigger] old(rules)@[j]).id != r.id;
                assert(0 <= k < old(rules)@.len() && old(rules)@[k as int].id == r.id);
                if c < k {
                    assert(old(rules)@[c].id != r.id);
                }
                if c > k {
                    assert(old(rules)@[k as int].id != r.id);
                }
                assert(c == k);
            }
            rules.set(k, rule);
            return;
        }
        k += 1;
    }
    rules.push(rule);
}

/// The editor for a new rule: both hosts `127.0.0.1`, ports empty, on.
pub fn new_forward_input() -> (i: ForwardInput)
    ensures
        i.id is None,
        i.name@ == Seq::<char>::empty(),
        i.bind_host@ == "127.0.0.1"@,
        i.bind_port@ == Seq::<char>::empty(),
        i.target_host@ == "127.0.0.1"@,
        i.target_port@ == Seq::<char>::empty(),
        i.enabled,
{
    proof {
        reveal_strlit("");
    }
    ForwardInput {
        id: None,
        name: text::owned(""),
        bind_host: text::owned("127.0.0.1"),
        bind_port: text::owned(""),
        target_host: text::owned("127.0.0.1"),
        target_port: text::owned(""),
        enabled: true,
    }
}

fn port_text(p: u16) -> (s: String)
    ensures
        s@ == text::decimal(p as nat),
{
    let mut s = String::new();
    text::push_decimal(&mut s, p as u128);
    assert(s@ =~= text::decimal(p as nat));
    s
}

/// The editor for an existing rule.
pub fn forward_input_for(rule: &ForwardRule) -> (i: ForwardInput)
    ensures
        i.id == Some(rule.id),
        i.name@ == rule.name@,
        i.bind_host@ == rule.bind_host@,
        i.bind_port@ == text::decimal(rule.bind_port as nat),
        i.target_host@ == rule.target_host@,
        i.target_port@ == text::decimal(rule.target_port as nat),
        i.enabled == rule.enabled,
{
    ForwardInput {
        id: Some(rule.id),
        name: rule.name.clone(),
        bind_host: rule.bind_host.clone(),
        bind_port: port_text(rule.bind_port),
        target_host: rule.target_host.clone(),
        target_port: port_text(rule.target_port),
        enabled: rule.enabled,
    }
}

// ---------------------------------------------------------------- Local profile

#[derive(Clone, Copy, Debug, PartialEq, Eq, Structural)]
pub enum LocalSubmitError {
    NothingToSave,
    NameRequired,
}

impl LocalSubmitError {
    pub open spec fn spec_message(self) -> Seq<char> {
        match self {
            LocalSubmitError::NothingToSave => "Nothing to save"@,
            LocalSubmitError::NameRequired => "Name is required"@,
        }
    }

    pub fn message(self) -> (m: &'static str)
        ensures
            m@ == self.spec_message(),
    {
        match self {
            LocalSubmitError::NothingToSave => "Nothing to save",
            LocalSubmitError::NameRequired => "Name is required",
        }
    }
}

/// What the Local profile form saves: the profile, its trimmed name and
/// its start folder (none when the field is blank).
#[derive(Debug)]
pub struct LocalSave {
    pub id: u128,
    pub name: String,
    pub cwd: Option<String>,
}

/// Checks the Local profile form.
pub fn plan_local_submit(editing: Option<u128>, name: &str, cwd: &str) -> (r: Result<LocalSave, LocalSubmitError>)
    ensures
        match r {
            Ok(s) => editing == Some(s.id) && text::spec_trim(name@).len() > 0 && s.name@ == text::spec_trim(name@)
                && s.cwd == if text::spec_trim(cwd@).len() == 0 {
                None::<String>
            } else {
                Some(s.cwd->0)
            } && (s.cwd matches Some(c) ==> c@ == text::spec_trim(cwd@)),
            Err(e) => e == if editing is None {
                LocalSubmitError::NothingToSave
            } else {
                LocalSubmitError::NameRequired
            } && (editing is None || text::spec_trim(name@).len() == 0),
        },
{
    let id = match editing {
        Some(id) => id,
        None => {
            return Err(LocalSubmitError::NothingToSave);
        },
    };
    let n = text::trim_string(name);
    if n.as_str().unicode_len() == 0 {
        return Err(LocalSubmitError::NameRequired);
    }
    let c = text::trim_string(cwd);
    let cwd = if c.as_str().unicode_len() == 0 {
        None
    } else {
        Some(c)
    };
    Ok(LocalSave { id, name: n, cwd })
}

} // verus!
