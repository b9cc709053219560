use loom::connect::{
    connect_outcome, connecting_message, keyring_auth, local_spawn_status, local_status, plan_auth,
    reconnect_status, split_failure_status, ssh_label, ssh_needs_password, AuthMaterial, AuthPlan,
    ConnectReply, ReconnectCheck, SplitFailure,
};
use loom::forms::SshAuthChoice;
use loom::pane_layout::SplitDirection;
use loom::tab_manager::{ConnectionState, TabManager};
use loom::workspace_store::{Profile, ProfileKind};

fn ssh(id: u128, auth: SshAuthChoice) -> Profile {
    Profile {
        id,
        name: String::from("prod"),
        kind: ProfileKind::Ssh { host: String::from("db.example"), port: 2222, user: String::from("ann"), auth },
        forwards: Vec::new(),
    }
}

fn local(id: u128) -> Profile {
    Profile {
        id,
        name: String::from("Shell 1"),
        kind: ProfileKind::Local { shell: None, cwd: None },
        forwards: Vec::new(),
    }
}

#[test]
fn labels_and_messages() {
    assert_eq!(ssh_label("ann", "db.example", 2222), "ann@db.example:2222");
    assert_eq!(connecting_message("root", "10.0.0.1", 22), "connecting to root@10.0.0.1:22…");
    let (s, m) = connect_outcome(ConnectReply::Connected, "ann", "h", 7);
    assert_eq!((s, m.as_str()), (ConnectionState::Connected, "ssh · ann@h:7"));
    let (s, m) = connect_outcome(ConnectReply::Failed(String::from("auth denied")), "ann", "h", 7);
    assert_eq!((s, m.as_str()), (ConnectionState::Failed, "auth denied"));
    let (s, m) = connect_outcome(ConnectReply::Cancelled, "ann", "h", 7);
    assert_eq!((s, m.as_str()), (ConnectionState::Failed, "SSH connect cancelled"));
    assert_eq!(local_status("/bin/bash", Some("/home/ann")), "bash · /home/ann");
    assert_eq!(local_status("/usr/bin/zsh", None), "zsh · .");
}

#[test]
fn credentials_come_from_override_key_or_keyring() {
    let pw = ssh(1, SshAuthChoice::Password { remember: true });
    match plan_auth(&pw.kind, Some(String::from("s3cret"))) {
        AuthPlan::Ready(AuthMaterial::Password(p)) => assert_eq!(p, "s3cret"),
        other => panic!("unexpected {other:?}"),
    }
    let plan = plan_auth(&pw.kind, None);
    assert!(matches!(plan, AuthPlan::AskKeyring));
    assert!(plan.resolved().is_none());
    let key = ssh(2, SshAuthChoice::PrivateKey { path: String::from("/k/id_ed25519") });
    match plan_auth(&key.kind, Some(String::from("ignored"))).resolved() {
        Some(Ok(Some(AuthMaterial::PrivateKey { path }))) => assert_eq!(path, "/k/id_ed25519"),
        other => panic!("unexpected {other:?}"),
    }
    match plan_auth(&local(3).kind, None).resolved() {
        Some(Err(e)) => assert_eq!(e, "not an SSH profile"),
        other => panic!("unexpected {other:?}"),
    }
    assert!(matches!(keyring_auth(Ok(Some(String::from("pw")))), Ok(Some(AuthMaterial::Password(_)))));
    assert!(matches!(keyring_auth(Ok(None)), Ok(None)));
    assert!(matches!(keyring_auth(Err(String::from("locked"))), Err(_)));
    assert!(ssh_needs_password(&pw.kind, true));
    assert!(!ssh_needs_password(&pw.kind, false));
    assert!(!ssh_needs_password(&key.kind, true));
    assert!(!ssh_needs_password(&local(3).kind, true));
}

#[test]
fn opening_ssh_profiles_makes_connecting_or_failed_tabs() {
    let mut m = TabManager::new(false);
    let p = ssh(9, SshAuthChoice::Password { remember: false });
    let started = m.open_ssh(&p, Ok(Some(AuthMaterial::Password(String::from("x")))));
    let (tab, pane, _) = started.expect("connects");
    assert_eq!(m.active, Some(tab));
    assert_eq!(m.tabs[0].panes[0].id, pane);
    assert_eq!(m.tabs[0].panes[0].state, ConnectionState::Connecting);
    assert_eq!(m.tabs[0].panes[0].status_message, "connecting to ann@db.example:2222…");
    assert_eq!(m.tabs[0].title, "prod");

    assert!(m.open_ssh(&p, Ok(None)).is_none());
    assert_eq!(m.tabs.len(), 2);
    assert_eq!(m.tabs[1].panes[0].state, ConnectionState::Failed);
    assert_eq!(m.tabs[1].panes[0].status_message, "password required");
    assert!(m.open_ssh(&p, Err(String::from("keyring locked"))).is_none());
    assert_eq!(m.tabs[2].panes[0].status_message, "keyring locked");
    assert!(m.open_ssh(&local(1), Ok(None)).is_none());
    assert_eq!(m.tabs.len(), 3);

    // The connection attempt ends: the pane is updated in place.
    let (state, msg) = connect_outcome(ConnectReply::Connected, "ann", "db.example", 2222);
    assert!(m.update_pane(tab, pane, state, msg));
    assert_eq!(m.tabs[0].panes[0].status_message, "ssh · ann@db.example:2222");
}

#[test]
fn local_tabs_reconnect_and_split() {
    let mut m = TabManager::new(false);
    let p = local(4);
    let (tab, pane) = m.open_local(&p, Ok((String::from("/bin/sh"), Some(String::from("/tmp")))));
    let pane = pane.expect("started");
    assert_eq!(m.tabs[0].panes[0].status_message, "sh · /tmp");
    assert_eq!(m.tabs[0].panes[0].state, ConnectionState::Connected);
    assert_eq!(m.reconnect_target(tab), Some((pane, 4)));
    assert_eq!(m.reconnect_target(12345), None);

    let (state, msg) = reconnect_status(&ReconnectCheck::Local);
    assert_eq!((state, msg.as_str()), (ConnectionState::Connecting, "reconnecting…"));
    assert!(m.set_focused_status(tab, state, msg));
    assert_eq!(m.tabs[0].panes[0].status_message, "reconnecting…");
    let (state, msg) = local_spawn_status(&Err(String::from("no pty")));
    m.set_focused_status(tab, state, msg);
    assert_eq!(m.tabs[0].panes[0].state, ConnectionState::Failed);
    assert_eq!(m.tabs[0].panes[0].status_message, "no pty");

    let new_pane = m
        .split_with_new_pane(SplitDirection::Right, 4, ConnectionState::Connecting, String::from("starting"))
        .expect("split");
    assert_eq!(m.tabs[0].panes.len(), 2);
    assert_eq!(m.tabs[0].focused, new_pane);

    let (failed, msg) = split_failure_status(SplitFailure::SpawnFailed(String::from("busy")));
    assert!(failed);
    assert_eq!(msg, "split failed: busy");
    let (failed, msg) = split_failure_status(SplitFailure::PasswordRequired);
    assert!(!failed);
    assert_eq!(msg, "password required for split");

    let (_, failed_pane) = m.open_local(&p, Err(String::from("spawn failed")));
    assert!(failed_pane.is_none());
    assert_eq!(m.tabs[1].panes[0].status_message, "spawn failed");
}

#[test]
fn reconnect_statuses() {
    let (s, m) = reconnect_status(&ReconnectCheck::ProfileMissing);
    assert_eq!((s, m.as_str()), (ConnectionState::Failed, "profile missing"));
    let check = ReconnectCheck::Ssh {
        user: String::from("u"),
        host: String::from("h"),
        port: 22,
        auth: Ok(Some(AuthMaterial::PrivateKey { path: String::from("/k") })),
    };
    let (s, m) = reconnect_status(&check);
    assert_eq!((s, m.as_str()), (ConnectionState::Connecting, "connecting to u@h:22…"));
    let check = ReconnectCheck::Ssh { user: String::from("u"), host: String::from("h"), port: 22, auth: Ok(None) };
    assert_eq!(reconnect_status(&check).1, "password required");
    let check = ReconnectCheck::Ssh {
        user: String::from("u"),
        host: String::from("h"),
        port: 22,
        auth: Err(String::from("bad key")),
    };
    assert_eq!(reconnect_status(&check), (ConnectionState::Failed, String::from("bad key")));
}

#[test]
fn one_time_password_is_reused_by_splits() {
    let mut m = TabManager::new(false);
    let pw = ssh(7, SshAuthChoice::Password { remember: false });
    assert!(matches!(m.split_auth(&pw), AuthPlan::AskKeyring));
    let started = m.open_ssh_with_password(&pw, String::from("once"));
    match started {
        Some((_, _, AuthMaterial::Password(p))) => assert_eq!(p, "once"),
        other => panic!("unexpected {other:?}"),
    }
    assert_eq!(m.tabs.len(), 1);
    assert_eq!(m.tabs[0].panes[0].state, ConnectionState::Connecting);
    match m.split_auth(&pw) {
        AuthPlan::Ready(AuthMaterial::Password(p)) => assert_eq!(p, "once"),
        other => panic!("unexpected {other:?}"),
    }
    let other = ssh(8, SshAuthChoice::Password { remember: false });
    assert!(matches!(m.split_auth(&other), AuthPlan::AskKeyring));
    let key = ssh(9, SshAuthChoice::PrivateKey { path: String::from("/k/id") });
    m.open_ssh_with_password(&key, String::from("unused"));
    assert_eq!(m.session_password(9), None);
}
