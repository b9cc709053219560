use loom::workspace_view::{export_toast, DialogEnd, PasswordUse, SshOpen, ViewState};

fn dialogs(v: &ViewState) -> usize {
    [v.show_settings, v.show_ssh_form, v.password_prompt.is_some()].iter().filter(|b| **b).count()
}

#[test]
fn dialogs_replace_each_other() {
    let mut v = ViewState::new(true, false);
    v.open_settings();
    assert!(v.show_settings);
    v.open_ssh_form();
    assert!(v.show_ssh_form && !v.show_settings);
    v.show_password_prompt(7);
    assert_eq!(v.password_prompt, Some(7));
    assert_eq!(dialogs(&v), 1);
    v.open_settings();
    assert_eq!(v.password_prompt, None);
    assert_eq!(dialogs(&v), 1);
    v.close_settings();
    assert_eq!(dialogs(&v), 0);
    assert!(!v.toggle_sidebar());
    assert!(v.toggle_context_panel());
}

#[test]
fn saving_and_connecting_ssh_profiles() {
    let mut v = ViewState::new(true, true);
    v.open_ssh_form();
    assert_eq!(v.ssh_form_saved(3, false, false, true), None);
    assert!(!v.show_ssh_form);
    v.open_ssh_form();
    assert_eq!(v.ssh_form_saved(3, true, true, true), Some(SshOpen::WithPassword));
    assert_eq!(v.password_prompt, None);
    v.open_ssh_form();
    assert_eq!(v.ssh_form_saved(3, true, false, true), Some(SshOpen::AskPassword));
    assert_eq!(v.password_prompt, Some(3));
    assert!(!v.show_ssh_form);
    assert_eq!(v.prompt_submitted(), PasswordUse::Open);
    assert_eq!(v.connect_ssh(4, false, false), SshOpen::Stored);
    assert_eq!(v.password_prompt, None);
}

#[test]
fn reconnect_asks_for_a_password_and_remembers_the_tab() {
    let mut v = ViewState::new(true, true);
    assert!(v.reconnect_requested(10, Some(3), false));
    assert!(v.reconnect_requested(10, None, true));
    assert!(!v.reconnect_requested(10, Some(3), true));
    assert_eq!(v.pending_reconnect_tab, Some(10));
    assert_eq!(v.password_prompt, Some(3));
    assert_eq!(v.prompt_submitted(), PasswordUse::Reconnect(10));
    assert_eq!(v.pending_reconnect_tab, None);
    assert!(!v.reconnect_requested(11, Some(3), true));
    v.prompt_cancelled();
    assert_eq!(v.pending_reconnect_tab, None);
    assert_eq!(v.password_prompt, None);
}

#[test]
fn export_toasts() {
    assert_eq!(export_toast(&DialogEnd::Cancelled), "Export cancelled");
    assert_eq!(export_toast(&DialogEnd::Done("/tmp/w.json".to_string())), "Exported to /tmp/w.json");
    assert_eq!(export_toast(&DialogEnd::Failed("disk full".to_string())), "Export failed: disk full");
}

#[test]
fn import_closes_settings_only_when_read() {
    let mut v = ViewState::new(true, true);
    v.open_settings();
    let (toast, replace) = v.import_finished(&DialogEnd::Failed("bad json".to_string()));
    assert_eq!(toast, "Import failed: bad json");
    assert!(!replace);
    assert!(v.show_settings);
    let (toast, replace) = v.import_finished(&DialogEnd::Cancelled);
    assert_eq!(toast, "Import cancelled");
    assert!(!replace && v.show_settings);
    let (toast, replace) = v.import_finished(&DialogEnd::Done("/tmp/w.json".to_string()));
    assert_eq!(toast, "Imported from /tmp/w.json");
    assert!(replace);
    assert!(!v.show_settings);
}
