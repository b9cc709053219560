use loom::forms::SshAuthChoice;
use loom::workspace_store::{Group, InsertTarget, Profile, ProfileKind, Selection, Workspace, WorkspaceStore};

fn local(id: u128, name: &str) -> Profile {
    Profile { id, name: name.to_string(), kind: ProfileKind::Local { shell: None, cwd: None }, forwards: Vec::new() }
}

fn ssh(id: u128, name: &str) -> Profile {
    Profile {
        id,
        name: name.to_string(),
        kind: ProfileKind::Ssh {
            host: String::from("h"),
            port: 22,
            user: String::from("u"),
            auth: SshAuthChoice::Password { remember: true },
        },
        forwards: Vec::new(),
    }
}

fn group(id: u128, name: &str, parent: Option<u128>) -> Group {
    Group { id, name: name.to_string(), collapsed: true, parent }
}

fn store() -> WorkspaceStore {
    WorkspaceStore::load(Workspace {
        groups: vec![group(1, "Servers", None), group(2, "Prod", Some(1)), group(3, "Lab", None)],
        profiles: vec![(None, local(10, "Shell 1")), (Some(1), ssh(11, "web")), (Some(2), ssh(12, "db")), (Some(1), ssh(13, "cache"))],
    })
}

fn order(s: &WorkspaceStore) -> Vec<(Option<u128>, u128)> {
    s.workspace.profiles.iter().map(|(g, p)| (*g, p.id)).collect()
}

#[test]
fn insert_target_follows_selection() {
    let mut s = store();
    assert_eq!(s.insert_target(), InsertTarget::Root);
    s.select_profile(11);
    assert_eq!(s.insert_target(), InsertTarget::Group(1));
    s.select_profile(10);
    assert_eq!(s.insert_target(), InsertTarget::Root);
    s.select_group(3);
    assert_eq!(s.insert_target(), InsertTarget::Group(3));
    assert_eq!(s.group_id_for_profile(12), Some(2));
    assert_eq!(s.group_id_for_profile(99), None);
}

#[test]
fn new_group_goes_into_selected_group_with_fresh_name() {
    let mut s = store();
    s.select_group(1);
    let id = s.add_group().unwrap();
    let g = s.workspace.groups.last().unwrap();
    assert_eq!(g.id, id);
    assert_eq!(g.name, "Group 1");
    assert_eq!(g.parent, Some(1));
    assert!(!s.workspace.groups[0].collapsed);
    assert_eq!(s.selection, Selection::Group(id));
    assert!(s.persist_if_dirty());
    s.persisted();
    assert!(!s.persist_if_dirty());
}

#[test]
fn new_shell_takes_first_free_number() {
    let mut s = store();
    let id = s.add_local_profile().unwrap();
    let (g, p) = s.workspace.profiles.last().unwrap();
    assert_eq!(*g, None);
    assert_eq!(p.id, id);
    assert_eq!(p.name, "Shell 2");
    assert_eq!(s.selection, Selection::Profile(id));
}

#[test]
fn place_and_add_ssh_profiles() {
    let mut s = store();
    assert_eq!(s.place_profile(ssh(20, "new"), InsertTarget::Group(3)), Some(20));
    assert_eq!(order(&s).last(), Some(&(Some(3), 20)));
    assert_eq!(s.place_profile(ssh(20, "again"), InsertTarget::Root), None);
    assert_eq!(s.place_profile(ssh(21, "lost"), InsertTarget::Group(99)), Some(21));
    assert_eq!(order(&s).last(), Some(&(None, 21)));
    s.select_group(2);
    assert!(s.add_ssh_profile(ssh(22, "x")));
    assert_eq!(order(&s).last(), Some(&(Some(2), 22)));
    assert!(!s.add_ssh_profile(ssh(22, "y")));
}

#[test]
fn move_before_lands_in_front_in_target_group() {
    let mut s = store();
    assert!(s.move_profile_before(10, 13));
    assert_eq!(order(&s), vec![(Some(1), 11), (Some(2), 12), (Some(1), 10), (Some(1), 13)]);
    assert_eq!(s.selection, Selection::Profile(10));
    assert!(!s.move_profile_before(12, 12));
    assert!(!s.move_profile_before(99, 12));
    assert!(s.move_profile_before(13, 99));
    assert_eq!(order(&s).last(), Some(&(None, 13)));
}

#[test]
fn move_to_group_and_root() {
    let mut s = store();
    assert!(s.move_profile_to_group(10, 3));
    assert_eq!(order(&s).last(), Some(&(Some(3), 10)));
    assert!(!s.workspace.groups[2].collapsed);
    assert!(s.move_profile_to_root(12));
    assert_eq!(order(&s).last(), Some(&(None, 12)));
    assert!(!s.move_profile_to_root(99));
    assert!(s.move_profile_to_group(11, 77));
    assert_eq!(order(&s).last(), Some(&(None, 11)));
}

#[test]
fn delete_group_removes_its_subtree() {
    let mut s = store();
    s.select_group(1);
    let d = s.delete_selection().unwrap();
    assert_eq!(d.profiles, vec![11, 12, 13]);
    assert!(!d.emptied);
    assert_eq!(s.workspace.groups.iter().map(|g| g.id).collect::<Vec<_>>(), vec![3]);
    assert_eq!(order(&s), vec![(None, 10)]);
    assert_eq!(s.selection, Selection::Nothing);
    assert!(s.delete_selection().is_none());
}

#[test]
fn delete_profile_and_empty_workspace() {
    let mut s = WorkspaceStore::load(Workspace { groups: vec![group(1, "g", None)], profiles: vec![(Some(1), local(5, "a"))] });
    s.select_profile(5);
    let d = s.delete_selection().unwrap();
    assert_eq!(d.profiles, vec![5]);
    assert!(s.workspace.profiles.is_empty());
    s.select_group(1);
    let d = s.delete_selection().unwrap();
    assert!(d.emptied);
}

#[test]
fn rename_commits_trimmed_names_only() {
    let mut s = store();
    s.select_group(3);
    assert!(s.begin_rename());
    s.rename.as_mut().unwrap().insert("  Staging ");
    assert!(s.commit_rename());
    assert_eq!(s.workspace.groups[2].name, "Staging");
    s.select_profile(11);
    assert!(s.begin_rename());
    assert_eq!(s.rename.as_ref().unwrap().text, "web");
    s.rename.as_mut().unwrap().insert("   ");
    assert!(!s.commit_rename());
    assert_eq!(s.workspace.profiles[1].1.name, "web");
    assert!(s.rename.is_none());
    s.select_profile(11);
    s.begin_rename();
    s.toggle_rename_caret();
    assert!(!s.rename.as_ref().unwrap().caret_visible);
    s.cancel_rename();
    assert!(s.rename.is_none());
}

#[test]
fn rename_typing_replaces_selection_and_backspace_pops() {
    let mut s = store();
    s.pop_rename_char();
    s.push_rename_char('x');
    assert!(s.rename.is_none());
    s.select_profile(11);
    assert!(s.begin_rename());
    s.push_rename_char('a');
    s.push_rename_char('p');
    s.push_rename_char('i');
    assert_eq!(s.rename.as_ref().unwrap().text, "api");
    s.pop_rename_char();
    assert_eq!(s.rename.as_ref().unwrap().text, "ap");
    assert!(s.commit_rename());
    assert_eq!(s.workspace.profiles[1].1.name, "ap");
}

#[test]
fn toggle_and_update_profiles() {
    let mut s = store();
    assert!(s.toggle_group(3));
    assert!(!s.workspace.groups[2].collapsed);
    assert!(!s.toggle_group(99));
    assert!(s.update_ssh_profile(11, String::from("web2"), String::from("h2"), 2222, String::from("u2"), SshAuthChoice::Password { remember: false }, Vec::new()));
    assert_eq!(s.workspace.profiles[1].1.name, "web2");
    assert!(!s.update_ssh_profile(10, String::from("x"), String::new(), 1, String::new(), SshAuthChoice::Password { remember: false }, Vec::new()));
    assert!(s.update_local_profile_cwd(10, String::from("/home")));
    assert!(!s.update_local_profile_cwd(10, String::from("/home")));
    assert!(!s.update_local_profile_cwd(11, String::from("/home")));
    assert!(matches!(s.profile_kind(10), Some(ProfileKind::Local { cwd: Some(ref c), .. }) if c == "/home"));
    assert!(s.profile_kind(99).is_none());
    s.sync_open_tabs(vec![(10, None)], 0);
    assert_eq!(s.open_tabs.len(), 1);
    s.sync_open_tabs(vec![(11, Some(String::from("web"))), (10, None), (11, None)], 2);
    assert_eq!(s.restore_profiles(), vec![11, 10, 11]);
    assert_eq!(s.active_tab_index, 2);
}

#[test]
fn save_tab_as_profile_uses_live_folder_and_unique_name() {
    let mut s = store();
    let id = s.save_as_profile("web", ProfileKind::Local { shell: None, cwd: None }, Some(String::from("/srv")), Some(3)).unwrap();
    let (g, p) = s.workspace.profiles.last().unwrap();
    assert_eq!((*g, p.id, p.name.as_str()), (Some(3), id, "web (2)"));
    assert!(matches!(p.kind, ProfileKind::Local { cwd: Some(ref c), .. } if c == "/srv"));
    assert!(s.replace_workspace(Workspace { groups: Vec::new(), profiles: Vec::new() }));
    assert_eq!(s.selection, Selection::Nothing);
    assert!(s.all_profile_names().is_empty());
}

#[test]
fn duplicate_goes_right_after_its_source() {
    let mut s = store();
    assert_eq!(s.duplicate_profile(11, ssh(30, "web copy")), Some(30));
    assert_eq!(order(&s), vec![(None, 10), (Some(1), 11), (Some(1), 30), (Some(2), 12), (Some(1), 13)]);
    assert_eq!(s.selection, Selection::Profile(30));
    assert_eq!(s.duplicate_profile(99, ssh(31, "x")), None);
    assert_eq!(s.duplicate_profile(10, ssh(30, "again")), None);
}

#[test]
fn emptied_workspace_gets_the_default() {
    let mut s = WorkspaceStore::load(Workspace {
        groups: vec![group(1, "Servers", None)],
        profiles: vec![(Some(1), ssh(11, "web"))],
    });
    assert!(!s.reset_if_emptied(Workspace { groups: Vec::new(), profiles: vec![(None, local(50, "Shell 1"))] }));
    assert_eq!(s.workspace.groups.len(), 1);
    s.select_group(1);
    let d = s.delete_selection().unwrap();
    assert!(d.emptied);
    assert!(s.reset_if_emptied(Workspace { groups: Vec::new(), profiles: vec![(None, local(50, "Shell 1"))] }));
    assert_eq!(order(&s), vec![(None, 50)]);
}
