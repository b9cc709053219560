use loom::files_panel::{FilesKey, FilesKind, FilesPrompt, FilesUi, PathAction, PromptAction};
use loom::listing::{RemoteEntry, SortState};
use loom::persistence::{Persistence, QuitStep};
use loom::rename_edit::RenameEdit;
use loom::status::{cached_cwd, shell_preset_selected, state_tone, StatusBar, Tone};
use loom::tab_bar::TabBar;
use loom::tab_manager::ConnectionState;
use loom::transfer_settings::{default_download_dir, default_preset_checks, TransferField, TransferSettingsForm};

fn entry(name: &str, is_dir: bool) -> RemoteEntry {
    RemoteEntry { name: name.to_string(), path: format!("/srv/{name}"), is_dir, size: 1, mtime: None }
}

fn ui() -> FilesUi {
    FilesUi {
        cwd: Some(String::from("/srv")),
        kind: Some(FilesKind::Sftp),
        entries: vec![entry("a.txt", false), entry("logs", true)],
        selected: Some(String::from("/srv/a.txt")),
        error: None,
        prompt: None,
        path_edit: RenameEdit::new("/srv"),
        editing_path: false,
        search_edit: RenameEdit::at_end(""),
        editing_search: false,
        search_open: false,
        sort: SortState::new(),
        home: Some(String::from("/srv")),
        listing: false,
        list_gen: 4,
        bound_pane: Some(7),
        bound_sftp_alive: true,
        entry_menu: None,
        transfer_menu: None,
    }
}

#[test]
fn debounce_generations_make_old_timers_stale() {
    let mut p = Persistence::new();
    let g1 = p.schedule_debounce().unwrap();
    let g2 = p.schedule_debounce().unwrap();
    assert!(!p.debounce_fired(g1));
    assert!(p.debounce_fired(g2));
    let g3 = p.schedule_debounce().unwrap();
    p.flush_now();
    assert!(!p.debounce_fired(g3));
    assert!(!p.allow_window_close());
    assert_eq!(p.on_will_quit(), QuitStep::FlushAndQuit);
    assert!(p.allow_window_close());
    assert_eq!(p.on_will_quit(), QuitStep::AlreadyFlushed);
    assert_eq!(p.schedule_debounce(), None);
}

#[test]
fn tab_bar_menus_are_exclusive() {
    let mut b = TabBar::new();
    assert!(!b.has_open_menu());
    b.toggle_split_menu(true);
    assert!(b.split_menu_open);
    b.open_context_menu(7);
    assert!(!b.split_menu_open);
    assert_eq!(b.context_menu, Some(7));
    assert!(b.close_all_menus());
    assert!(!b.close_all_menus());
    b.toggle_split_menu(false);
    assert!(!b.has_open_menu());
    assert!(!b.close_split_menu());
    assert!(!b.close_context_menu());
}

#[test]
fn toasts_clear_only_when_latest() {
    let mut s = StatusBar::new();
    let g1 = s.set_toast(String::from("one"));
    let g2 = s.set_toast(String::from("two"));
    assert!(!s.toast_expired(g1));
    assert_eq!(s.toast.as_deref(), Some("two"));
    assert!(s.toast_expired(g2));
    assert!(s.toast.is_none());
    s.set_toast(String::from("x"));
    s.clear_toast();
    assert!(s.toast.is_none());
}

#[test]
fn status_cwd_and_presets() {
    assert_eq!(cached_cwd(true, Some(String::from("C:\\x")), None), None);
    assert_eq!(cached_cwd(true, Some(String::from("/app")), None), Some(String::from("/app")));
    assert_eq!(cached_cwd(false, None, Some(String::from("/home"))), Some(String::from("/home")));
    assert_eq!(cached_cwd(false, Some(String::from("/t")), Some(String::from("/home"))), Some(String::from("/t")));
    assert!(shell_preset_selected(None, "auto"));
    assert!(!shell_preset_selected(None, "bash"));
    assert!(shell_preset_selected(Some("PowerShell"), "powershell"));
    assert_eq!(state_tone(ConnectionState::Failed), Tone::Danger);
    assert_eq!(state_tone(ConnectionState::Idle), Tone::Muted);
    assert_eq!(state_tone(ConnectionState::Connected), Tone::Good);
}

#[test]
fn transfer_settings_form_defaults_and_choices() {
    let presets = vec![String::from(".git"), String::from("node_modules")];
    let mut f = TransferSettingsForm::for_download(entry("a.txt", false), "/home/me/Downloads", true, &presets);
    assert!(f.is_download());
    assert_eq!(f.title(), "Download settings");
    assert_eq!(f.dest_label(), "Local folder");
    assert_eq!(f.focus, TransferField::Dest);
    assert!(f.dest.has_selection());
    f.cycle_focus(false);
    assert_eq!(f.focus, TransferField::Include);
    f.focused_edit_mut().insert("*.rs");
    f.cycle_focus(true);
    assert_eq!(f.focus, TransferField::Dest);
    f.cycle_focus(true);
    assert_eq!(f.focus, TransferField::ExcludeExtra);
    f.exclude_presets[1].1 = false;
    let c = f.build_options();
    assert_eq!(c.exclude_presets, vec![String::from(".git")]);
    assert_eq!(c.includes, "*.rs");
    assert!(c.compress);
    let u = TransferSettingsForm::for_upload(1, vec![String::from("/tmp/x")], "/srv", false, &presets);
    assert_eq!(u.title(), "Upload settings");
    assert_eq!(u.dest_label(), "Remote directory");
    assert_eq!(default_preset_checks(&presets), vec![(String::from(".git"), true), (String::from("node_modules"), true)]);
    assert_eq!(default_download_dir(None, Some(String::from("/home/me"))), "/home/me");
    assert_eq!(default_download_dir(None, None), ".");
    assert_eq!(default_download_dir(Some(String::from("/dl")), None), "/dl");
}

#[test]
fn files_prompts_validate_names() {
    let mut u = ui();
    assert!(u.begin_new_folder());
    match u.submit_prompt() {
        PromptAction::MakeDir { cwd, name, kind } => {
            assert_eq!((cwd.as_str(), name.as_str(), kind), ("/srv", "New folder", FilesKind::Sftp));
        }
        other => panic!("unexpected {other:?}"),
    }
    assert!(u.prompt.is_none());
    assert!(u.begin_new_folder());
    if let Some(FilesPrompt::NewFolder { edit }) = &mut u.prompt {
        edit.insert("bad/name");
    }
    assert!(matches!(u.submit_prompt(), PromptAction::Nothing));
    assert_eq!(u.error.as_deref(), Some("Invalid folder name"));
    assert!(u.prompt.is_some());
    u.cancel_prompt();
    assert!(u.begin_rename_selected());
    if let Some(FilesPrompt::Rename { edit, .. }) = &mut u.prompt {
        edit.insert(" b.txt ");
    }
    match u.submit_prompt() {
        PromptAction::Rename { path, name, kind } => {
            assert_eq!((path.as_str(), name.as_str(), kind), ("/srv/a.txt", "b.txt", FilesKind::Sftp));
        }
        other => panic!("unexpected {other:?}"),
    }
    assert!(u.begin_chmod_selected());
    assert!(matches!(u.submit_prompt(), PromptAction::Chmod { ref path, ref mode } if path == "/srv/a.txt" && mode.text == "755"));
    assert!(u.begin_delete_selected());
    assert!(matches!(u.handle_prompt_key("x", false, false, None, Some("x")), FilesKey::Ignored));
    assert!(matches!(u.handle_prompt_key("enter", false, false, None, None), FilesKey::Submitted(PromptAction::Remove { is_dir: false, .. })));
    u.cwd = None;
    assert!(!u.begin_new_folder());
    assert_eq!(u.error.as_deref(), Some("Open a folder first"));
}

#[test]
fn files_prompt_keys_edit_and_cancel() {
    let mut u = ui();
    u.begin_new_folder();
    assert!(matches!(u.handle_prompt_key("a", false, false, None, Some("x")), FilesKey::Edited { copy: None }));
    assert!(matches!(&u.prompt, Some(FilesPrompt::NewFolder { edit }) if edit.text == "x"));
    assert!(matches!(u.handle_prompt_key("escape", false, false, None, None), FilesKey::Cancelled));
    assert!(u.prompt.is_none());
    assert!(matches!(u.handle_prompt_key("enter", false, false, None, None), FilesKey::Ignored));
}

#[test]
fn address_bar_navigates_clean_paths() {
    let mut u = ui();
    u.begin_path_edit();
    assert!(u.editing_path);
    u.path_edit.insert(" \"/var/log\" ");
    match u.handle_path_key("enter", false, false, None, None) {
        FilesKey::Navigate(PathAction::LoadDir { path }) => assert_eq!(path, "/var/log"),
        other => panic!("unexpected {other:?}"),
    }
    assert!(!u.editing_path);
    u.begin_path_edit();
    u.path_edit.insert("  ");
    assert!(matches!(u.submit_path_edit(), PathAction::Nothing));
    assert_eq!(u.error.as_deref(), Some("Path is empty"));
    assert!(matches!(u.handle_path_key("escape", false, false, None, None), FilesKey::Cancelled));
    assert_eq!(u.path_edit.text, "/srv");
    u.kind = Some(FilesKind::Local);
    assert!(matches!(u.submit_path_edit(), PathAction::ResolveLocal { ref raw } if raw == "/srv"));
    u.local_path_refused(String::from("no such folder"));
    assert!(u.editing_path);
}

#[test]
fn filter_bar_opens_edits_and_closes() {
    let mut u = ui();
    assert!(matches!(u.handle_search_key("x", false, false, None, Some("x")), FilesKey::Ignored));
    assert!(matches!(u.handle_search_key("F", true, false, None, None), FilesKey::Edited { .. }));
    assert!(u.search_open && u.editing_search);
    u.handle_search_key("l", false, false, None, Some("l"));
    assert_eq!(u.search_edit.text, "l");
    u.handle_search_key("escape", false, false, None, None);
    assert_eq!(u.search_edit.text, "");
    assert!(u.search_open);
    u.handle_search_key("escape", false, false, None, None);
    assert!(!u.search_open);
    u.toggle_search();
    assert!(u.search_open);
    u.handle_search_key("enter", false, false, None, None);
    assert!(!u.editing_search);
    u.toggle_search();
    assert!(!u.search_open);
    u.begin_search_edit();
    u.clear_search_text();
    u.close_search();
    assert!(!u.search_open);
}

#[test]
fn tab_menu_close_entries() {
    use_close_entries();
}

fn use_close_entries() {
    let e = loom::tab_bar::close_entries(Some(0), 3);
    assert!(!e.left && e.right && e.others && e.all);
    let e = loom::tab_bar::close_entries(Some(2), 3);
    assert!(e.left && !e.right);
    let e = loom::tab_bar::close_entries(Some(0), 1);
    assert!(!e.others && e.all);
    let e = loom::tab_bar::close_entries(None, 0);
    assert!(!e.left && !e.right && !e.others && !e.all);
}
