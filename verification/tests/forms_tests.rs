use loom::forms::{
    build_forward_rule, cycle_field, field_idx, forward_input_for, new_forward_input, open_ssh_target,
    parse_form_port, plan_local_submit, plan_ssh_submit, save_forward, store_failure_message, submit_ssh,
    undo_keyring_after_failed_save, upsert_forward, ForwardError, ForwardInput, ForwardRule, KeyringStep,
    LocalSubmitError, SshAuthChoice, SshField, SshFormInput, SshSubmitError,
};

fn input() -> SshFormInput {
    SshFormInput {
        editing: None,
        name: String::new(),
        host: String::from(" example.org "),
        port: String::from("22"),
        user: String::from("alice"),
        password: String::from("pw"),
        key_path: String::new(),
        use_private_key: false,
        has_stored_password: false,
        remember: true,
    }
}

fn rule(id: u128, port: u16) -> ForwardRule {
    ForwardRule {
        id,
        name: String::new(),
        bind_host: String::from("127.0.0.1"),
        bind_port: port,
        target_host: String::from("db"),
        target_port: 5432,
        enabled: true,
    }
}

#[test]
fn tab_skips_the_hidden_auth_field() {
    assert_eq!(cycle_field(SshField::User, false), SshField::Password);
    assert_eq!(cycle_field(SshField::User, true), SshField::KeyPath);
    assert_eq!(cycle_field(SshField::Password, true), SshField::Name);
    let mut f = SshField::Host;
    for _ in 0..5 {
        f = cycle_field(f, false);
    }
    assert_eq!(f, SshField::Host);
    assert_eq!(field_idx(SshField::KeyPath), 5);
    assert_eq!(field_idx(SshField::Name), 0);
}

#[test]
fn ssh_submit_checks_in_order() {
    let mut i = input();
    i.host = String::from("  ");
    i.user = String::new();
    assert_eq!(plan_ssh_submit(&i, 1).unwrap_err(), SshSubmitError::HostRequired);
    let mut i = input();
    i.user = String::from(" ");
    assert_eq!(plan_ssh_submit(&i, 1).unwrap_err(), SshSubmitError::UserRequired);
    for bad in ["0", "65536", "x", ""] {
        let mut i = input();
        i.port = String::from(bad);
        assert_eq!(plan_ssh_submit(&i, 1).unwrap_err(), SshSubmitError::BadPort);
    }
    let mut i = input();
    i.use_private_key = true;
    assert_eq!(plan_ssh_submit(&i, 1).unwrap_err(), SshSubmitError::KeyPathRequired);
    let mut i = input();
    i.password = String::new();
    assert_eq!(plan_ssh_submit(&i, 1).unwrap_err(), SshSubmitError::PasswordRequired);
    assert_eq!(SshSubmitError::BadPort.message(), "Port must be 1–65535");
}

#[test]
fn ssh_submit_defaults_name_and_stores_password() {
    let p = plan_ssh_submit(&input(), 7).unwrap();
    assert_eq!(p.id, 7);
    assert!(p.creating);
    assert_eq!(p.name, "alice@example.org");
    assert_eq!(p.host, "example.org");
    assert_eq!(p.port, 22);
    assert!(matches!(p.auth, SshAuthChoice::Password { remember: true }));
    assert!(matches!(p.keyring, KeyringStep::Store(ref pw) if pw == "pw"));
    assert!(p.oneshot_password.is_none());
}

#[test]
fn ssh_submit_one_shot_and_kept_passwords() {
    let mut i = input();
    i.remember = false;
    let p = plan_ssh_submit(&i, 1).unwrap();
    assert!(matches!(p.keyring, KeyringStep::Delete));
    assert_eq!(p.oneshot_password, Some(String::from("pw")));
    let mut i = input();
    i.editing = Some(3);
    i.password = String::new();
    i.has_stored_password = true;
    i.name = String::from(" prod ");
    let p = plan_ssh_submit(&i, 3).unwrap();
    assert!(!p.creating);
    assert_eq!(p.name, "prod");
    assert!(matches!(p.keyring, KeyringStep::Keep));
    let mut i = input();
    i.use_private_key = true;
    i.key_path = String::from(" ~/.ssh/id_ed25519 ");
    let p = plan_ssh_submit(&i, 1).unwrap();
    assert!(matches!(p.auth, SshAuthChoice::PrivateKey { ref path } if path == "~/.ssh/id_ed25519"));
    assert!(matches!(p.keyring, KeyringStep::Delete));
}

#[test]
fn submit_ssh_keeps_or_draws_ids() {
    let mut i = input();
    i.editing = Some(42);
    assert_eq!(submit_ssh(&i).unwrap().id, 42);
    let fresh = submit_ssh(&input()).unwrap().id;
    assert_eq!(fresh & 0x40008000000000000000, 0x40008000000000000000);
    assert!(undo_keyring_after_failed_save(true, true, false));
    assert!(!undo_keyring_after_failed_save(false, true, false));
    assert_eq!(store_failure_message(false), "Could not update SSH profile");
}

#[test]
fn ports_and_ssh_target() {
    assert_eq!(parse_form_port(" 8080 "), Some(8080));
    assert_eq!(parse_form_port("0"), None);
    let (u, h, p, k) = open_ssh_target(" bob ", " host ", "nope", true, " key ");
    assert_eq!((u.as_str(), h.as_str(), p), ("bob", "host", 22));
    assert_eq!(k, Some(String::from("key")));
    let (_, _, p, k) = open_ssh_target("a", "b", "2222", false, "key");
    assert_eq!(p, 2222);
    assert_eq!(k, None);
}

#[test]
fn forward_rules_are_checked_and_upserted() {
    let mut f = new_forward_input();
    assert_eq!(f.bind_host, "127.0.0.1");
    assert_eq!(build_forward_rule(&f, 1).unwrap_err(), ForwardError::BadListenPort);
    f.bind_port = String::from("8080");
    assert_eq!(build_forward_rule(&f, 1).unwrap_err(), ForwardError::BadTargetPort);
    f.target_port = String::from("80");
    f.target_host = String::from("  ");
    assert_eq!(build_forward_rule(&f, 1).unwrap_err(), ForwardError::TargetHostRequired);
    f.target_host = String::from("web");
    f.bind_host = String::new();
    let r = build_forward_rule(&f, 5).unwrap();
    assert_eq!((r.id, r.bind_host.as_str(), r.bind_port, r.target_port), (5, "127.0.0.1", 8080, 80));
    let saved = save_forward(&f).unwrap();
    assert_eq!(saved.id & 0x40008000000000000000, 0x40008000000000000000);

    let mut rules = vec![rule(1, 1000), rule(2, 2000)];
    upsert_forward(&mut rules, rule(2, 2500));
    assert_eq!(rules.iter().map(|r| r.bind_port).collect::<Vec<_>>(), vec![1000, 2500]);
    upsert_forward(&mut rules, rule(3, 3000));
    assert_eq!(rules.len(), 3);
    let back: ForwardInput = forward_input_for(&rules[1]);
    assert_eq!(back.id, Some(2));
    assert_eq!(back.bind_port, "2500");
    assert_eq!(ForwardError::TargetHostRequired.message(), "Forward target host is required");
}

#[test]
fn local_form_needs_profile_and_name() {
    assert_eq!(plan_local_submit(None, "a", "").unwrap_err(), LocalSubmitError::NothingToSave);
    assert_eq!(plan_local_submit(Some(1), "  ", "").unwrap_err(), LocalSubmitError::NameRequired);
    let s = plan_local_submit(Some(1), " dev ", " /srv ").unwrap();
    assert_eq!((s.id, s.name.as_str(), s.cwd.as_deref()), (1, "dev", Some("/srv")));
    let s = plan_local_submit(Some(1), "dev", "  ").unwrap();
    assert_eq!(s.cwd, None);
    assert_eq!(LocalSubmitError::NameRequired.message(), "Name is required");
}
