use loom::docker_picker::{
    sort_ssh_profiles, ContainerList, ContainerRow, DockerPicker, HostMode, SshProfileRow,
};

fn row(id: &str, label: &str) -> ContainerRow {
    ContainerRow {
        id: id.to_string(),
        short_id: id[..4].to_string(),
        label: label.to_string(),
        image: String::from("alpine"),
    }
}

fn prof(id: u128, name: &str) -> SshProfileRow {
    SshProfileRow { id, name: name.to_string(), summary: String::new() }
}

#[test]
fn ssh_profiles_sort_by_lowercase_name_stably() {
    let sorted = sort_ssh_profiles(vec![prof(1, "beta"), prof(2, "Alpha"), prof(3, "BETA"), prof(4, "alpha")]);
    let ids: Vec<u128> = sorted.iter().map(|r| r.id).collect();
    assert_eq!(ids, vec![2, 4, 1, 3]);
}

#[test]
fn first_container_names_the_profile_until_edited() {
    let existing = vec![String::from("web")];
    let mut p = DockerPicker::new(vec![]);
    assert!(matches!(p.containers, ContainerList::Loading));
    p.containers_reply(Some(Ok(vec![row("aaaa1111", "web"), row("bbbb2222", "db")])), &existing);
    assert_eq!(p.selected_container.as_deref(), Some("aaaa1111"));
    assert_eq!(p.name.text, "web 2");
    assert_eq!(p.name.cursor, 5);
    p.select_container(String::from("bbbb"), &existing);
    assert_eq!(p.name.text, "db");
    assert_eq!(p.selected_container.as_deref(), Some("bbbb"));
    // Typing makes the name the user's.
    let out = p.handle_name_key("x", false, false, None, Some("!"));
    assert!(out.handled);
    assert!(p.name_touched);
    assert_eq!(p.name.text, "db!");
    p.select_container(String::from("aaaa1111"), &existing);
    assert_eq!(p.name.text, "db!");
    // Arrow keys do not.
    let mut q = DockerPicker::new(vec![]);
    q.handle_name_key("left", false, false, None, None);
    assert!(!q.name_touched);
    q.handle_name_key("c", true, false, None, None);
    assert!(!q.name_touched);
    q.handle_name_key("v", true, false, Some("\r\n"), None);
    assert!(!q.name_touched);
    q.handle_name_key("a", true, false, None, None);
    assert!(q.name_touched);
}

#[test]
fn saving_checks_mode_list_selection_and_name() {
    let existing = vec![String::from("db")];
    let mut p = DockerPicker::new(vec![]);
    assert!(p.save(true, &existing).is_none());
    assert_eq!(p.error.as_deref(), Some("Wait for the container list to load."));
    p.containers_reply(Some(Ok(vec![])), &existing);
    assert!(!p.enter_saves());
    assert!(p.save(true, &existing).is_none());
    assert_eq!(p.error.as_deref(), Some("Select a container"));
    p.begin_refresh();
    p.containers_reply(Some(Ok(vec![row("cccc3333", "db")])), &existing);
    assert!(p.enter_saves());
    let saved = p.save(false, &existing).expect("saves");
    assert_eq!(saved.name, "db 2");
    assert_eq!(saved.container_id, "cccc3333");
    assert!(!saved.connect);
    p.set_mode(HostMode::Ssh);
    assert!(p.save(true, &existing).is_none());
    assert_eq!(p.error.as_deref(), Some("Remote Docker over SSH is not available yet."));
    assert!(!p.refresh());
    p.set_mode(HostMode::Local);
    assert!(p.refresh());
    assert!(matches!(p.containers, ContainerList::Loading));
    p.containers_reply(Some(Err(String::from("docker not running"))), &existing);
    assert!(matches!(&p.containers, ContainerList::Error(e) if e == "docker not running"));
    p.containers_reply(None, &existing);
    assert!(matches!(&p.containers, ContainerList::Error(e) if e == "List cancelled"));
}

#[test]
fn empty_label_and_blank_name_is_refused() {
    let mut p = DockerPicker::new(vec![]);
    p.containers_reply(Some(Ok(vec![row("dddd4444", "")])), &Vec::new());
    p.handle_name_key("x", false, false, None, Some("  "));
    assert!(p.save(true, &Vec::new()).is_none());
    assert_eq!(p.error.as_deref(), Some("Name is required"));
    p.reset(vec![prof(9, "b"), prof(8, "a")]);
    assert_eq!(p.ssh_profiles[0].id, 8);
    assert!(!p.name_touched);
    p.select_ssh(9);
    assert_eq!(p.selected_ssh, Some(9));
}

#[test]
fn input_method_text_marks_the_name() {
    let mut p = DockerPicker::new(vec![]);
    assert!(!p.replace_name_utf16(None, ""));
    assert!(!p.name_touched);
    assert!(p.replace_name_utf16(None, "web"));
    assert!(p.name_touched);
    assert_eq!(p.name.text, "web");
}
