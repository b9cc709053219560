use loom::files::{
    chars_eq_ci, clean_remote_path, docker_cwd_plausible, match_ranges, name_matches, truncate_path_end,
    valid_entry_name,
};
use loom::naming::{resolve_save_name, unique_copy_name, unique_name, unique_profile_name};
use loom::rename_edit::RenameEdit;
use loom::text::{char_to_utf16, parse_u16, trim_string, utf16_range_text, utf16_to_char};

fn strings(v: &[&str]) -> Vec<String> {
    v.iter().map(|s| s.to_string()).collect()
}

fn chars(s: &str) -> Vec<char> {
    s.chars().collect()
}

#[test]
fn trim_removes_unicode_whitespace() {
    assert_eq!(trim_string("  a b \t\n"), "a b");
    assert_eq!(trim_string("\u{3000}x\u{a0}"), "x");
    assert_eq!(trim_string("   "), "");
}

#[test]
fn parse_u16_follows_from_str() {
    assert_eq!(parse_u16(&chars("22")), Some(22));
    assert_eq!(parse_u16(&chars("+443")), Some(443));
    assert_eq!(parse_u16(&chars("65535")), Some(65535));
    assert_eq!(parse_u16(&chars("65536")), None);
    assert_eq!(parse_u16(&chars("")), None);
    assert_eq!(parse_u16(&chars("+")), None);
    assert_eq!(parse_u16(&chars("-1")), None);
    assert_eq!(parse_u16(&chars("2 2")), None);
    assert_eq!(parse_u16(&chars("0007")), Some(7));
}

#[test]
fn utf16_offsets_round_trip() {
    let text = "a😀b";
    assert_eq!(char_to_utf16(text, 0), 0);
    assert_eq!(char_to_utf16(text, 1), 1);
    assert_eq!(char_to_utf16(text, 2), 3);
    assert_eq!(char_to_utf16(text, 9), 4);
    assert_eq!(utf16_to_char(text, 0), 0);
    assert_eq!(utf16_to_char(text, 2), 2);
    assert_eq!(utf16_to_char(text, 3), 2);
    assert_eq!(utf16_to_char(text, 4), 3);
    assert_eq!(utf16_to_char(text, 10), 3);
}

#[test]
fn unique_name_takes_first_free_number() {
    assert_eq!(unique_name("Group", &strings(&[])), "Group 1");
    assert_eq!(unique_name("Group", &strings(&["Group 1", "Group 3"])), "Group 2");
    assert_eq!(unique_name("Shell", &strings(&["Shell 1", "Shell 2"])), "Shell 3");
}

#[test]
fn unique_profile_name_keeps_free_base() {
    assert_eq!(unique_profile_name("web", &strings(&["db"])), "web");
    assert_eq!(unique_profile_name("web", &strings(&["web"])), "web 2");
    assert_eq!(unique_profile_name("web", &strings(&["web", "web 2"])), "web 3");
}

#[test]
fn resolve_save_name_prefers_typed_name() {
    assert_eq!(resolve_save_name("  api  ", "nginx", &strings(&[])), "api");
    assert_eq!(resolve_save_name("   ", "nginx", &strings(&["nginx"])), "nginx 2");
}

#[test]
fn unique_copy_name_adds_parenthesized_number() {
    assert_eq!(unique_copy_name("bash", &strings(&["zsh"])), "bash");
    assert_eq!(unique_copy_name("bash", &strings(&["bash"])), "bash (2)");
    assert_eq!(unique_copy_name("bash", &strings(&["bash", "bash (2)"])), "bash (3)");
}

#[test]
fn case_insensitive_char_match() {
    assert!(chars_eq_ci('a', 'A'));
    assert!(chars_eq_ci('Ä', 'ä'));
    assert!(!chars_eq_ci('a', 'b'));
}

#[test]
fn match_ranges_are_non_overlapping() {
    assert_eq!(match_ranges("aaaa", "aa"), vec![(0, 2), (2, 4)]);
    assert_eq!(match_ranges("ReadMe.md", "me"), vec![(4, 6)]);
    assert_eq!(match_ranges("abc", ""), Vec::<(usize, usize)>::new());
    assert_eq!(match_ranges("ab", "abc"), Vec::<(usize, usize)>::new());
}

#[test]
fn name_matches_trims_query() {
    assert!(name_matches("Cargo.toml", "  cargo "));
    assert!(name_matches("anything", "   "));
    assert!(!name_matches("src", "lib"));
}

#[test]
fn truncate_path_keeps_head_with_ellipsis() {
    assert_eq!(truncate_path_end("/home/me", 20), "/home/me");
    assert_eq!(truncate_path_end("/home/me/projects", 8), "/home/m…");
    assert_eq!(truncate_path_end("/home", 1), "…");
}

#[test]
fn docker_paths_reject_windows_forms() {
    assert!(docker_cwd_plausible("/app"));
    assert!(!docker_cwd_plausible("C:\\Users"));
    assert!(!docker_cwd_plausible("\\\\server\\share"));
    assert!(docker_cwd_plausible("é:x"));
}

#[test]
fn entry_names_reject_separators() {
    assert_eq!(valid_entry_name("  notes "), Some(String::from("notes")));
    assert_eq!(valid_entry_name("a/b"), None);
    assert_eq!(valid_entry_name("a\\b"), None);
    assert_eq!(valid_entry_name("   "), None);
}

#[test]
fn remote_paths_lose_quotes() {
    assert_eq!(clean_remote_path(" \"/var/log\" "), Some(String::from("/var/log")));
    assert_eq!(clean_remote_path("\"\""), None);
    assert_eq!(clean_remote_path("/tmp"), Some(String::from("/tmp")));
}

#[test]
fn rename_edit_typing_and_selection() {
    let mut e = RenameEdit::new("hello");
    assert!(e.has_selection());
    assert_eq!(e.selected_text(), "hello");
    e.insert("bye");
    assert_eq!(e.text, "bye");
    assert_eq!(e.cursor, 3);
    e.move_left(false);
    e.backspace();
    assert_eq!(e.text, "be");
    e.move_home(true);
    assert_eq!(e.sel_range(), (0, 1));
    e.delete_forward();
    assert_eq!(e.text, "e");
    e.move_end(false);
    e.move_right(false);
    assert_eq!(e.cursor, 1);
}

#[test]
fn rename_edit_keys_copy_cut_and_paste() {
    let mut e = RenameEdit::new("abc");
    let out = e.handle_key("c", true, false, None, None);
    assert!(out.handled);
    assert_eq!(out.copy, Some(String::from("abc")));
    e.move_end(false);
    let out = e.handle_key("x", true, false, None, None);
    assert_eq!(out.copy, Some(String::from("abc")));
    assert_eq!(e.text, "");
    let out = e.handle_key("v", true, false, Some("x\r\ny"), None);
    assert!(out.handled);
    assert_eq!(e.text, "xy");
    let out = e.handle_key("q", false, false, None, Some("q"));
    assert!(out.handled);
    assert_eq!(e.text, "xyq");
    let out = e.handle_key("f5", false, false, None, None);
    assert!(!out.handled);
}

#[test]
fn editor_pieces_show_selection_and_caret() {
    use_pieces();
}

fn spelled(p: &[loom::rename_edit::EditPiece]) -> String {
    let mut s = String::new();
    for x in p {
        match x {
            loom::rename_edit::EditPiece::Text(t) | loom::rename_edit::EditPiece::Selected(t) => s.push_str(t),
            loom::rename_edit::EditPiece::Caret => s.push('|'),
        }
    }
    s
}

fn use_pieces() {
    let mut e = loom::rename_edit::RenameEdit::at_end("hello");
    assert_eq!(spelled(&e.pieces()), "hello|");
    e.move_left(false);
    e.move_left(true);
    let p = e.pieces();
    assert_eq!(spelled(&p), "hel|lo");
    assert!(matches!(&p[3], loom::rename_edit::EditPiece::Selected(t) if t == "l"));
    let all = loom::rename_edit::RenameEdit::new("abc");
    let p = all.pieces();
    assert_eq!(spelled(&p), "abc|");
    assert!(matches!(&p[1], loom::rename_edit::EditPiece::Selected(t) if t == "abc"));
}

#[test]
fn utf16_ranges_map_to_text() {
    let t = "a\u{1F600}b";
    assert_eq!(utf16_range_text(t, 1, 3), (Some(String::from("\u{1F600}")), 1, 3));
    assert_eq!(utf16_range_text(t, 2, 3), (None, 2, 3));
    assert_eq!(utf16_range_text(t, 0, 2), (None, 0, 2));
    assert_eq!(utf16_range_text(t, 0, 4), (Some(String::from(t)), 0, 4));
    assert_eq!(utf16_range_text(t, 5, 9), (Some(String::new()), 4, 4));
    assert_eq!(utf16_range_text(t, 2, 2), (Some(String::new()), 2, 2));
    for (s, e) in [(0usize, 1usize), (1, 3), (0, 4), (3, 4)] {
        let expected = {
            let u: Vec<u16> = t.encode_utf16().collect();
            String::from_utf16(&u[s..e]).ok()
        };
        assert_eq!(utf16_range_text(t, s, e).0, expected);
    }
}

#[test]
fn input_method_text_replaces_utf16_ranges() {
    let mut e = RenameEdit::at_end("a\u{1F600}bc");
    // Replace the emoji (UTF-16 units 1..3) with "x".
    assert!(e.replace_utf16_range(Some((1, 3)), "x"));
    assert_eq!(e.text, "axbc");
    assert_eq!(e.cursor, 2);
    // A range and no text deletes the range.
    assert!(e.replace_utf16_range(Some((2, 4)), "\n"));
    assert_eq!(e.text, "ax");
    // No range and nothing typed changes nothing.
    assert!(!e.replace_utf16_range(None, "\r\n"));
    assert!(e.replace_utf16_range(None, "y\nz"));
    assert_eq!(e.text, "axyz");
    let (s, t, rev) = e.selected_utf16();
    assert_eq!((s, t, rev), (4, 4, false));
}

#[test]
fn clamp_cursor_pulls_caret_into_text() {
    let mut e = RenameEdit { text: "ab".to_string(), cursor: 5, anchor: 1, caret_visible: true };
    e.clamp_cursor();
    assert_eq!((e.cursor, e.anchor), (2, 1));
    let mut e = RenameEdit { text: "ab".to_string(), cursor: 0, anchor: 9, caret_visible: false };
    e.clamp_cursor();
    assert_eq!((e.cursor, e.anchor), (0, 2));
    assert!(!e.caret_visible);
}
