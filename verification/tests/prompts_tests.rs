use loom::forms::LocalSubmitError;
use loom::local_form_state::{LocalField, LocalFormState};
use loom::password_prompt::{is_control, PasswordPrompt, PromptKey};
use loom::status::{cwd_segment_text, needs_reconnect, polls_cwd, session_target, session_tooltip, state_label, SessionIcon};
use loom::tab_manager::ConnectionState;
use loom::workspace_store::{Profile, ProfileKind};

#[test]
fn password_prompt_keys_and_submit() {
    let mut p = PasswordPrompt::new(5, String::from("ann@host"));
    assert!(p.remember);
    assert!(p.submit().is_none());
    assert_eq!(p.error.as_deref(), Some("Password required"));
    assert!(matches!(p.key("a", false, Some("ab\u{7}c")), PromptKey::Consumed(true)));
    assert_eq!(p.password, "abc");
    assert!(matches!(p.key("v", true, Some("zz")), PromptKey::Consumed(false)));
    assert!(matches!(p.key("x", false, Some("\u{1b}")), PromptKey::Consumed(false)));
    assert!(matches!(p.key("backspace", false, None), PromptKey::Consumed(true)));
    assert_eq!(p.password, "ab");
    assert_eq!(p.masked(), "••");
    assert!(matches!(p.key("enter", false, None), PromptKey::Submit));
    assert!(matches!(p.key("escape", false, None), PromptKey::Cancel));
    p.toggle_remember();
    let s = p.submit().expect("submits");
    assert_eq!(s.password, "ab");
    assert!(!s.store);
    assert_eq!(s.profile_id, 5);
    p.store_failed("locked");
    assert_eq!(p.error.as_deref(), Some("Could not store password: locked"));
    let mut long = PasswordPrompt::new(1, String::new());
    long.key("x", false, Some(&"y".repeat(40)));
    assert_eq!(long.masked().chars().count(), 32);
    assert!(is_control('\n') && is_control('\u{9f}') && !is_control('a') && !is_control('\u{a0}'));
}

#[test]
fn local_form_loads_edits_and_submits() {
    let mut f = LocalFormState::new();
    assert!(matches!(f.submit(), Err(LocalSubmitError::NothingToSave)));
    assert_eq!(f.error.as_deref(), Some("Nothing to save"));
    let p = Profile {
        id: 3,
        name: String::from("Shell 1"),
        kind: ProfileKind::Local { shell: None, cwd: Some(String::from("/home/ann")) },
        forwards: Vec::new(),
    };
    f.load_for_edit(Some(&p), false);
    assert_eq!(f.editing, Some(3));
    assert_eq!(f.cwd.text, "/home/ann");
    assert_eq!(f.field, LocalField::Name);
    f.cycle_field();
    assert_eq!(f.field, LocalField::Cwd);
    assert_eq!((f.cwd.anchor, f.cwd.cursor), (0, 9));
    f.handle_key("x", true, false, None, None);
    assert_eq!(f.cwd.text, "");
    assert_eq!(f.picker_start(), None);
    f.folder_picked("/srv/app");
    assert_eq!(f.picker_start().as_deref(), Some("/srv/app"));
    f.focus_field(LocalField::Name);
    f.handle_key("a", true, false, None, None);
    f.handle_key("t", false, false, None, Some("  Work  "));
    let save = f.submit().expect("saves");
    assert_eq!(save.name, "Work");
    assert_eq!(save.cwd.as_deref(), Some("/srv/app"));
    f.handle_key("a", true, false, None, None);
    f.handle_key("backspace", false, false, None, None);
    assert!(matches!(f.submit(), Err(LocalSubmitError::NameRequired)));
    f.update_refused();
    assert_eq!(f.error.as_deref(), Some("Could not update profile"));
    f.load_for_edit(None, false);
    assert_eq!(f.error.as_deref(), Some("Profile not found"));
}

#[test]
fn status_folder_segment() {
    let (label, tip) = cwd_segment_text("/home/ann");
    assert_eq!(label, "/home/ann");
    assert_eq!(tip, "/home/ann\nClick to copy");
    let long = format!("/{}", "a".repeat(80));
    let (label, _) = cwd_segment_text(&long);
    assert_eq!(label.chars().count(), 56);
    assert!(label.ends_with('…'));
    assert!(polls_cwd(true, false, true));
    assert!(!polls_cwd(true, true, true));
    assert!(!polls_cwd(false, false, true));
}

#[test]
fn local_form_input_method_text() {
    let mut f = LocalFormState::new();
    f.focus_field(LocalField::Cwd);
    assert!(f.replace_utf16(None, "/tmp"));
    assert_eq!(f.cwd.text, "/tmp");
    assert_eq!(f.name.text, "");
}

#[test]
fn status_session_segment() {
    use_session_segment();
}

fn use_session_segment() {
    assert_eq!(state_label(ConnectionState::Failed, true), "Failed");
    assert_eq!(state_label(ConnectionState::Failed, false), "Exited");
    assert_eq!(state_label(ConnectionState::Disconnected, false), "Exited");
    assert_eq!(state_label(ConnectionState::Connecting, true), "Connecting");
    assert!(needs_reconnect(ConnectionState::Disconnected));
    assert!(!needs_reconnect(ConnectionState::Connected));
    let ssh = ProfileKind::Ssh {
        host: String::from("h"),
        port: 22,
        user: String::from("u"),
        auth: loom::forms::SshAuthChoice::Password { remember: true },
    };
    let t = session_target(Some(&ssh), "tab");
    assert_eq!((t.icon, t.target.as_str(), t.is_ssh), (SessionIcon::Remote, "u@h:22", true));
    let local = ProfileKind::Local { shell: Some(String::from("/usr/bin/fish")), cwd: None };
    assert_eq!(session_target(Some(&local), "tab").target, "fish");
    let plain = ProfileKind::Local { shell: None, cwd: None };
    assert_eq!(session_target(Some(&plain), "tab").target, "Local");
    let none = session_target(None, "scratch");
    assert_eq!((none.icon, none.target.as_str()), (SessionIcon::Plain, "scratch"));
    assert_eq!(session_tooltip(false, true), "Edit Local Profile");
}
