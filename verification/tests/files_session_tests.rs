use loom::files_panel::{FilesKind, FilesPrompt, FilesUi};
use loom::files_session::{
    entry_menu_actions, EntryAction, FocusedFiles, HomeReply, HomeStep, ListRefusal, ListReply, LoadStep, OpenStep,
};
use loom::listing::RemoteEntry;

fn entry(name: &str, is_dir: bool) -> RemoteEntry {
    RemoteEntry { name: name.to_string(), path: format!("/srv/{name}"), is_dir, size: 1, mtime: None }
}

fn sftp_pane(pane: u128) -> Option<FocusedFiles> {
    Some(FocusedFiles { pane, kind: FilesKind::Sftp, sftp_alive: true })
}

#[test]
fn binding_a_remote_pane_asks_for_home_then_lists_it() {
    let mut ui = FilesUi::new();
    assert_eq!(ui.sync_session(sftp_pane(1)), HomeStep::RequestSftpHome);
    assert_eq!(ui.bound_pane, Some(1));
    assert_eq!(ui.kind, Some(FilesKind::Sftp));
    assert_eq!(ui.list_gen, 1);
    ui.home_requested(true);
    assert!(ui.listing);
    match ui.home_reply(HomeReply::Found(String::from("/home/ann"))) {
        Some(LoadStep::ListSftp { path }) => assert_eq!(path, "/home/ann"),
        other => panic!("unexpected {other:?}"),
    }
    assert_eq!(ui.home.as_deref(), Some("/home/ann"));
    assert!(!ui.listing);
    let g = ui.begin_listing();
    assert_eq!(g, 2);
    assert!(ui.listing);
    let applied = ui.listing_reply(g, String::from("/home/ann"), ListReply::Listed(vec![entry("a", false)]));
    assert!(applied);
    assert_eq!(ui.cwd.as_deref(), Some("/home/ann"));
    assert_eq!(ui.entries.len(), 1);
    assert_eq!(ui.path_edit.text, "/home/ann");
    assert!(!ui.listing);
    assert_eq!(ui.error, None);
}

#[test]
fn same_pane_again_changes_nothing() {
    let mut ui = FilesUi::new();
    ui.sync_session(sftp_pane(1));
    let g = ui.list_gen;
    assert_eq!(ui.sync_session(sftp_pane(1)), HomeStep::Nothing);
    assert_eq!(ui.list_gen, g);
    // The channel went down: a re-bind without it.
    let down = Some(FocusedFiles { pane: 1, kind: FilesKind::Sftp, sftp_alive: false });
    assert_eq!(ui.sync_session(down), HomeStep::Nothing);
    assert_eq!(ui.error.as_deref(), Some("SFTP unavailable"));
    assert_eq!(ui.list_gen, g + 1);
}

#[test]
fn stale_listing_replies_are_dropped() {
    let mut ui = FilesUi::new();
    ui.sync_session(Some(FocusedFiles { pane: 3, kind: FilesKind::Local, sftp_alive: false }));
    let first = ui.begin_listing();
    let second = ui.begin_listing();
    assert_ne!(first, second);
    assert!(!ui.listing_reply(first, String::from("/old"), ListReply::Listed(vec![entry("x", true)])));
    assert_eq!(ui.cwd, None);
    assert!(ui.listing);
    assert!(ui.listing_reply(second, String::from("/new"), ListReply::Failed(String::from("denied"))));
    // A local failure shows the message as it came.
    assert_eq!(ui.error.as_deref(), Some("denied"));
    assert!(ui.editing_path);
    // A reset (losing the focus) makes the next reply stale too.
    let third = ui.begin_listing();
    ui.sync_session(None);
    assert!(!ui.listing_reply(third, String::from("/x"), ListReply::Cancelled));
    assert_eq!(ui.bound_pane, None);
}

#[test]
fn remote_listing_failure_and_cancel_messages() {
    let mut ui = FilesUi::new();
    ui.sync_session(sftp_pane(9));
    let g = ui.begin_listing();
    ui.listing_reply(g, String::from("/nope"), ListReply::Failed(String::from("no such file")));
    assert_eq!(ui.error.as_deref(), Some("no such file (path missing or not a directory)"));
    let g = ui.begin_listing();
    assert_eq!(ui.error, None);
    ui.listing_reply(g, String::from("/nope"), ListReply::Cancelled);
    assert_eq!(ui.error.as_deref(), Some("List cancelled"));
    ui.home_requested(false);
    assert_eq!(ui.error.as_deref(), Some("SFTP unavailable"));
    assert!(ui.home_reply(HomeReply::Cancelled).is_none());
    assert_eq!(ui.error.as_deref(), Some("SFTP home request cancelled"));
    assert!(ui.home_reply(HomeReply::Failed(String::from("boom"))).is_none());
    assert_eq!(ui.error.as_deref(), Some("boom"));
    ui.list_refused(ListRefusal::NoSshSession);
    assert_eq!(ui.error.as_deref(), Some("No SSH session"));
}

#[test]
fn losing_focus_keeps_the_kind_once() {
    let mut ui = FilesUi::new();
    ui.sync_session(sftp_pane(5));
    ui.sync_session(None);
    assert_eq!(ui.bound_pane, None);
    assert_eq!(ui.kind, Some(FilesKind::Sftp));
    let g = ui.list_gen;
    ui.sync_session(None);
    assert_eq!(ui.kind, None);
    assert_eq!(ui.list_gen, g + 1);
    match ui.load_dir(String::from("/tmp")) {
        LoadStep::NoSession => {}
        other => panic!("unexpected {other:?}"),
    }
    assert_eq!(ui.error.as_deref(), Some("No file session"));
    assert_eq!(ui.go_home(), HomeStep::Nothing);
}

#[test]
fn opening_entries_depends_on_the_session() {
    let mut ui = FilesUi::new();
    ui.sync_session(Some(FocusedFiles { pane: 2, kind: FilesKind::Local, sftp_alive: false }));
    assert_eq!(ui.go_home(), HomeStep::LocalHome);
    match ui.open_home(String::from("/home/bo")) {
        LoadStep::ListLocal { path } => assert_eq!(path, "/home/bo"),
        other => panic!("unexpected {other:?}"),
    }
    match ui.open_entry(entry("notes.txt", false)) {
        OpenStep::OpenLocal { path } => assert_eq!(path, "/srv/notes.txt"),
        other => panic!("unexpected {other:?}"),
    }
    match ui.open_entry(entry("logs", true)) {
        OpenStep::List(LoadStep::ListLocal { path }) => assert_eq!(path, "/srv/logs"),
        other => panic!("unexpected {other:?}"),
    }
    assert!(ui.download_target().is_none());

    let mut remote = FilesUi::new();
    remote.sync_session(sftp_pane(4));
    let g = remote.begin_listing();
    remote.listing_reply(g, String::from("/srv"), ListReply::Listed(vec![entry("a.txt", false), entry("logs", true)]));
    assert!(matches!(remote.open_selected(), OpenStep::Nothing));
    remote.selected = Some(String::from("/srv/a.txt"));
    assert_eq!(remote.download_target().map(|e| e.name), Some(String::from("a.txt")));
    assert!(matches!(remote.open_selected(), OpenStep::Nothing));
    match &remote.prompt {
        Some(FilesPrompt::ConfirmOpenRemote { entry }) => assert_eq!(entry.path, "/srv/a.txt"),
        other => panic!("unexpected {other:?}"),
    }
    remote.selected = Some(String::from("/srv/logs"));
    assert!(matches!(remote.open_selected(), OpenStep::List(LoadStep::ListSftp { .. })));
}

#[test]
fn clicks_and_menus_on_entries() {
    let mut ui = FilesUi::new();
    ui.sync_session(sftp_pane(1));
    ui.open_entry_menu(String::from("/srv/a"));
    assert_eq!(ui.entry_menu.as_deref(), Some("/srv/a"));
    assert_eq!(ui.selected.as_deref(), Some("/srv/a"));
    ui.open_transfer_menu(9);
    assert_eq!(ui.entry_menu, None);
    assert_eq!(ui.transfer_menu, Some(9));
    assert!(matches!(ui.click_entry(entry("b", false), false), OpenStep::Nothing));
    assert_eq!(ui.selected.as_deref(), Some("/srv/b"));
    assert!(ui.prompt.is_none());
    assert!(matches!(ui.click_entry(entry("b", false), true), OpenStep::Nothing));
    assert!(matches!(ui.prompt, Some(FilesPrompt::ConfirmOpenRemote { .. })));
    assert!(matches!(ui.click_entry(entry("d", true), true), OpenStep::List(LoadStep::ListSftp { .. })));
    ui.close_menus();
    assert_eq!(ui.transfer_menu, None);
    assert_eq!(
        entry_menu_actions(true, false),
        vec![EntryAction::CopyPath, EntryAction::NewFolder, EntryAction::Rename, EntryAction::Permissions, EntryAction::Delete]
    );
    assert_eq!(entry_menu_actions(false, true).len(), 7);
    assert_eq!(entry_menu_actions(false, true)[1], EntryAction::Open);
}

#[test]
fn drops_and_refresh() {
    let mut ui = FilesUi::new();
    ui.sync_session(sftp_pane(1));
    assert_eq!(ui.drop_target(true, 2), None);
    assert_eq!(ui.error.as_deref(), Some("Open a remote folder first"));
    assert!(ui.refresh().is_none());
    let g = ui.begin_listing();
    ui.listing_reply(g, String::from("/srv"), ListReply::Listed(vec![]));
    assert_eq!(ui.drop_target(false, 2), None);
    assert_eq!(ui.drop_target(true, 0), None);
    assert_eq!(ui.drop_target(true, 1).as_deref(), Some("/srv"));
    assert!(matches!(ui.refresh(), Some(LoadStep::ListSftp { .. })));
}
