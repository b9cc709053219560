use loom::forms::{submit_ssh, ForwardError, ForwardRule, SshAuthChoice, SshField, SshSubmitError};
use loom::ssh_form_state::{ForwardField, SshFormState};
use loom::workspace_store::{Profile, ProfileKind};

fn rule(id: u128, bind_port: u16) -> ForwardRule {
    ForwardRule {
        id,
        name: String::from("db"),
        bind_host: String::from("127.0.0.1"),
        bind_port,
        target_host: String::from("10.0.0.5"),
        target_port: 5432,
        enabled: true,
    }
}

fn ssh_profile(auth: SshAuthChoice) -> Profile {
    Profile {
        id: 77,
        name: String::from("prod"),
        kind: ProfileKind::Ssh { host: String::from("h.example"), port: 2200, user: String::from("ann"), auth },
        forwards: vec![rule(1, 15432)],
    }
}

#[test]
fn blank_form_and_typing_in_fields() {
    let mut f = SshFormState::new("bob");
    assert_eq!(f.port.text, "22");
    assert_eq!(f.user.text, "bob");
    assert_eq!(f.field, SshField::Host);
    assert!(f.remember);
    let out = f.handle_key("h", false, false, None, Some("example.org"));
    assert!(out.handled);
    assert_eq!(f.host.text, "example.org");
    f.cycle_field();
    assert_eq!(f.field, SshField::Port);
    f.handle_key("backspace", false, false, None, None);
    f.handle_key("backspace", false, false, None, None);
    f.handle_key("2", false, false, None, Some("2022"));
    assert_eq!(f.port.text, "2022");
    f.cycle_field();
    f.cycle_field();
    assert_eq!(f.field, SshField::Password);
    f.paste("se\ncret\r");
    assert_eq!(f.password.text, "secret");
    let input = f.begin_submit();
    assert_eq!(input.host, "example.org");
    let plan = submit_ssh(&input).expect("valid");
    assert_eq!(plan.name, "bob@example.org");
    assert_eq!(plan.port, 2022);
}

#[test]
fn loading_profiles_for_edit() {
    let mut f = SshFormState::new("bob");
    f.load_for_edit(None, false);
    assert_eq!(f.error.as_deref(), Some("Profile not found"));
    let local = Profile {
        id: 5,
        name: String::from("sh"),
        kind: ProfileKind::Local { shell: None, cwd: None },
        forwards: Vec::new(),
    };
    f.load_for_edit(Some(&local), false);
    assert_eq!(f.error.as_deref(), Some("Not an SSH profile"));
    let p = ssh_profile(SshAuthChoice::Password { remember: false });
    f.load_for_edit(Some(&p), true);
    assert_eq!(f.editing, Some(77));
    assert_eq!(f.name.text, "prod");
    assert_eq!(f.port.text, "2200");
    assert!(!f.remember);
    assert!(f.has_stored_password);
    assert!(f.forwards_open);
    assert_eq!(f.error, None);
    let k = ssh_profile(SshAuthChoice::PrivateKey { path: String::from("/k/id") });
    f.load_for_edit(Some(&k), true);
    assert!(f.use_private_key);
    assert!(!f.has_stored_password);
    assert_eq!(f.key_path.text, "/k/id");
    f.toggle_private_key();
    assert!(!f.use_private_key);
    assert_eq!(f.field, SshField::Password);
    let input = f.begin_submit();
    assert!(matches!(submit_ssh(&input), Err(SshSubmitError::PasswordRequired)));
    f.submit_refused(String::from("Password is required"));
    assert_eq!(f.error.as_deref(), Some("Password is required"));
}

#[test]
fn forward_editor_adds_edits_and_deletes_rules() {
    let mut f = SshFormState::new("bob");
    f.load_for_edit(Some(&ssh_profile(SshAuthChoice::Password { remember: true })), false);
    f.begin_add_forward();
    assert_eq!(f.forward_edit.as_ref().unwrap().focus, ForwardField::BindPort);
    // Keys go to the editor while it is open.
    f.handle_key("8", false, false, None, Some("8080"));
    assert_eq!(f.forward_edit.as_ref().unwrap().bind_port.text, "8080");
    assert!(matches!(f.save_forward_edit(), Some(Err(ForwardError::BadTargetPort))));
    assert_eq!(f.error.as_deref(), Some("Forward target port must be 1–65535"));
    f.focus_forward_field(ForwardField::TargetPort);
    f.handle_key("8", false, false, None, Some("80"));
    let saved = f.save_forward_edit();
    assert!(matches!(saved, Some(Ok(_))));
    assert_eq!(f.forwards.len(), 2);
    assert!(f.forward_edit.is_none());
    assert_eq!(f.error, None);
    assert_eq!(f.forwards[1].bind_port, 8080);

    f.begin_edit_forward(1);
    assert_eq!(f.forward_edit.as_ref().unwrap().bind_port.text, "15432");
    f.toggle_forward_enabled();
    assert!(matches!(f.save_forward_edit(), Some(Ok(_))));
    assert_eq!(f.forwards.len(), 2);
    assert!(!f.forwards[0].enabled);
    f.toggle_rule(1);
    assert!(f.forwards[0].enabled);
    f.begin_edit_forward(1);
    f.delete_rule(1);
    assert_eq!(f.forwards.len(), 1);
    assert!(f.forward_edit.is_none());
    f.begin_edit_forward(99);
    assert!(f.forward_edit.is_none());
    f.toggle_forwards_open();
    assert!(!f.forwards_open);
    assert!(f.save_forward_edit().is_none());
}

#[test]
fn focus_moves_caret_to_end() {
    let mut f = SshFormState::new("bob");
    f.handle_key("a", false, false, None, Some("abc"));
    f.handle_key("left", false, false, None, None);
    assert_eq!(f.host.cursor, 2);
    f.focus_field(SshField::Name);
    f.focus_field(SshField::Host);
    assert_eq!(f.host.cursor, 3);
    f.toggle_remember();
    assert!(!f.remember);
    f.reset("carol");
    assert_eq!(f.user.text, "carol");
    assert_eq!(f.host.text, "");
}

#[test]
fn keyring_failure_is_shown_in_the_form() {
    let mut f = SshFormState::new("bob");
    f.password_store_failed("no secret service");
    assert_eq!(f.error.as_deref(), Some("Could not store password: no secret service"));
}
