use loom::settings_edit::{SettingsEditor, SettingsKey, TextSettings};
use loom::sidebar::{tree_key, SidebarSearch, TreeKey};
use loom::workspace_store::Selection;

fn settings() -> TextSettings {
    TextSettings {
        default_shell: None,
        font_family: String::from("Mono"),
        local_proxy_url: Some(String::from("h")),
        local_proxy_no_proxy: None,
    }
}

#[test]
fn shell_field_types_erases_and_unsets() {
    let mut e = SettingsEditor::new();
    let mut s = settings();
    assert_eq!(e.key(&mut s, "a"), SettingsKey::Ignored);
    e.begin_shell();
    assert_eq!(e.key(&mut s, "z"), SettingsKey::Edited);
    assert_eq!(e.key(&mut s, "s"), SettingsKey::Edited);
    assert_eq!(s.default_shell.as_deref(), Some("zs"));
    assert_eq!(e.key(&mut s, "é"), SettingsKey::Ignored);
    assert_eq!(e.key(&mut s, "tab"), SettingsKey::Ignored);
    e.key(&mut s, "backspace");
    e.key(&mut s, "backspace");
    assert_eq!(s.default_shell, None);
    assert_eq!(e.key(&mut s, "backspace"), SettingsKey::Edited);
    assert_eq!(e.key(&mut s, "enter"), SettingsKey::Commit);
    assert!(!e.editing_shell);
    assert_eq!(e.key(&mut s, "escape"), SettingsKey::Close);
}

#[test]
fn other_fields_and_presets() {
    let mut e = SettingsEditor::new();
    let mut s = settings();
    e.begin_font();
    e.key(&mut s, "backspace");
    e.key(&mut s, "X");
    assert_eq!(s.font_family, "MonX");
    e.begin_proxy_url();
    assert!(!e.editing_font);
    e.key(&mut s, "backspace");
    assert_eq!(s.local_proxy_url, None);
    e.key(&mut s, ":");
    assert_eq!(s.local_proxy_url.as_deref(), Some(":"));
    e.begin_no_proxy();
    assert!(!e.editing_proxy_url);
    e.key(&mut s, "*");
    assert_eq!(s.local_proxy_no_proxy.as_deref(), Some("*"));
    e.proxy_mode_chosen();
    e.begin_shell();
    e.choose_shell_preset(&mut s, "pwsh");
    assert_eq!(s.default_shell.as_deref(), Some("pwsh"));
    assert!(!e.editing_shell);
    e.choose_shell_preset(&mut s, "auto");
    assert_eq!(s.default_shell, None);
}

#[test]
fn sidebar_filter_keys() {
    let mut f = SidebarSearch::new();
    assert!(!f.key("a", false));
    f.focus();
    assert!(f.key("w", false));
    assert!(f.key("e", false));
    assert!(!f.key("b", true));
    assert!(!f.key("enter", false));
    assert_eq!(f.query, "we");
    assert!(f.key("backspace", false));
    assert_eq!(f.query, "w");
    assert!(f.key("escape", false));
    assert_eq!(f.query, "");
    assert!(!f.focused);
}

#[test]
fn tree_escape_closes_menu_then_filter() {
    assert_eq!(tree_key("escape", true, true, true, Selection::Nothing), TreeKey::CloseMenu);
    assert_eq!(tree_key("escape", false, true, true, Selection::Nothing), TreeKey::ClearSearch);
    assert_eq!(tree_key("escape", false, false, true, Selection::Nothing), TreeKey::CancelRename);
    assert_eq!(tree_key("escape", false, false, false, Selection::Profile(3)), TreeKey::Ignore);
}

#[test]
fn tree_keys_go_to_the_rename() {
    assert_eq!(tree_key("enter", false, false, true, Selection::Profile(3)), TreeKey::CommitRename);
    assert_eq!(tree_key("backspace", false, false, true, Selection::Profile(3)), TreeKey::RenameBackspace);
    assert_eq!(tree_key("x", false, false, true, Selection::Profile(3)), TreeKey::RenameType('x'));
    assert_eq!(tree_key("é", false, false, true, Selection::Profile(3)), TreeKey::Ignore);
    assert_eq!(tree_key("delete", false, false, true, Selection::Profile(3)), TreeKey::Ignore);
}

#[test]
fn tree_keys_act_on_the_selection() {
    assert_eq!(tree_key("delete", false, false, false, Selection::Group(2)), TreeKey::DeleteSelection);
    assert_eq!(tree_key("backspace", true, false, false, Selection::Nothing), TreeKey::DeleteSelection);
    assert_eq!(tree_key("enter", false, false, false, Selection::Profile(7)), TreeKey::OpenProfile(7));
    assert_eq!(tree_key("enter", false, false, false, Selection::Group(7)), TreeKey::Ignore);
    assert_eq!(tree_key("delete", false, true, false, Selection::Group(2)), TreeKey::Ignore);
    assert_eq!(tree_key("a", false, false, false, Selection::Group(2)), TreeKey::Ignore);
}
