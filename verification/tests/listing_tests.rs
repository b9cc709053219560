use loom::files::highlight_segments;
use loom::file_icon::{basename_lower, color_channels, color_value, ext_lower, ext_of_base, icon_for, icon_for_parts};
use loom::listing::{entry_extension, entry_kind_label, filtered_entries, format_mtime, RemoteEntry, SortField, SortState};

fn entry(name: &str, is_dir: bool, size: u64, mtime: Option<u64>) -> RemoteEntry {
    RemoteEntry { name: name.to_string(), path: format!("/srv/{name}"), is_dir, size, mtime }
}

fn names(v: &[RemoteEntry]) -> Vec<String> {
    v.iter().map(|e| e.name.clone()).collect()
}

fn chars(s: &str) -> Vec<char> {
    s.chars().collect()
}

fn sample() -> Vec<RemoteEntry> {
    vec![
        entry("b.txt", false, 30, Some(5)),
        entry("Docs", true, 0, Some(9)),
        entry("a.rs", false, 10, None),
        entry("C.md", false, 20, Some(1)),
        entry("bin", true, 0, Some(2)),
    ]
}

#[test]
fn sort_by_name_puts_folders_first() {
    let out = filtered_entries(&sample(), "", SortState::new());
    assert_eq!(names(&out), vec!["bin", "Docs", "a.rs", "b.txt", "C.md"]);
}

#[test]
fn sort_by_name_descending_keeps_folders_first() {
    let out = filtered_entries(&sample(), "", SortState { field: SortField::Name, asc: false });
    assert_eq!(names(&out), vec!["Docs", "bin", "C.md", "b.txt", "a.rs"]);
}

#[test]
fn sort_by_size_then_name() {
    let out = filtered_entries(&sample(), "", SortState { field: SortField::Size, asc: true });
    assert_eq!(names(&out), vec!["bin", "Docs", "a.rs", "C.md", "b.txt"]);
}

#[test]
fn sort_by_kind_and_mtime() {
    let out = filtered_entries(&sample(), "", SortState { field: SortField::Kind, asc: false });
    assert_eq!(names(&out), vec!["a.rs", "b.txt", "C.md", "bin", "Docs"]);
    let out = filtered_entries(&sample(), "", SortState { field: SortField::Mtime, asc: true });
    assert_eq!(names(&out), vec!["a.rs", "C.md", "bin", "b.txt", "Docs"]);
}

#[test]
fn sort_by_extension() {
    let out = filtered_entries(&sample(), "", SortState { field: SortField::Ext, asc: true });
    assert_eq!(names(&out), vec!["bin", "Docs", "C.md", "a.rs", "b.txt"]);
}

#[test]
fn filter_keeps_matching_names() {
    let out = filtered_entries(&sample(), " B ", SortState::new());
    assert_eq!(names(&out), vec!["bin", "b.txt"]);
    let out = filtered_entries(&sample(), "zzz", SortState::new());
    assert!(out.is_empty());
}

#[test]
fn toggle_sort_flips_or_resets() {
    let mut s = SortState::new();
    s.toggle_sort(SortField::Name);
    assert_eq!(s, SortState { field: SortField::Name, asc: false });
    s.toggle_sort(SortField::Size);
    assert_eq!(s, SortState { field: SortField::Size, asc: true });
    assert_eq!(SortField::Mtime.label(), "Modified");
    assert_eq!(SortField::Kind.label(), "Type");
}

#[test]
fn extension_and_kind_labels() {
    assert_eq!(entry_extension("Main.RS"), ".rs");
    assert_eq!(entry_extension("Makefile"), "");
    assert_eq!(entry_extension("archive.tar.GZ"), ".gz");
    assert_eq!(entry_extension(".bashrc"), "");
    assert_eq!(entry_extension(".config.TOML"), ".toml");
    assert_eq!(entry_extension("notes."), ".");
    assert_eq!(entry_kind_label(&entry("x", true, 0, None)), "Folder");
    assert_eq!(entry_kind_label(&entry("x", false, 0, None)), "File");
}

#[test]
fn mtime_text_is_empty_without_time() {
    assert_eq!(format_mtime(None), "");
    let t = format_mtime(Some(1_431_648_000));
    assert_eq!(t.chars().count(), 16);
    assert!(t.starts_with("2015/05/1"));
    let t = format_mtime(Some(0));
    assert_eq!(t.chars().count(), 16);
    assert_eq!((&t[4..5], &t[7..8], &t[10..11], &t[13..14]), ("/", "/", " ", ":"));
}

#[test]
fn icons_by_name_and_extension() {
    let i = icon_for("Dockerfile", false);
    assert_eq!((i.glyph, i.color), ("docker", "#519aba"));
    let i = icon_for("docker-compose.yml", false);
    assert_eq!((i.glyph, i.color), ("docker", "#f55385"));
    let i = icon_for("src/main.rs", false);
    assert_eq!((i.glyph, i.color), ("rust", "#6d8086"));
    let i = icon_for("App.test.tsx", false);
    assert_eq!((i.glyph, i.color), ("react", "#e37933"));
    let i = icon_for("types.d.ts", false);
    assert_eq!((i.glyph, i.color), ("default", "#d4d7d6"));
    let i = icon_for("index.cts", false);
    assert_eq!((i.glyph, i.color), ("typescript", "#519aba"));
    let i = icon_for("photo.JPG", false);
    assert_eq!((i.glyph, i.color), ("image", "#a074c4"));
    let i = icon_for("notes", false);
    assert_eq!((i.glyph, i.color), ("default", "#d4d7d6"));
    let i = icon_for("anything", true);
    assert_eq!((i.glyph, i.color), ("folder", "#dcb67a"));
    let i = icon_for(".env.local", false);
    assert_eq!((i.glyph, i.color), ("config", "#6d8086"));
    let i = icon_for("README.md", false);
    assert_eq!((i.glyph, i.color), ("info", "#519aba"));
}

#[test]
fn icon_parts_and_extensions() {
    let i = icon_for_parts(&chars("cargo.toml"), &chars("toml"), false);
    assert_eq!(i.glyph, "config");
    let i = icon_for_parts(&chars("x"), &chars("r"), false);
    assert_eq!((i.glyph, i.color), ("R", "#519aba"));
    assert_eq!(ext_of_base(&chars("app.spec.ts"), Some("ts")), chars("spec.ts"));
    assert_eq!(ext_of_base(&chars("photo.jpeg"), Some("JPEG")), chars("jpeg"));
    assert_eq!(ext_of_base(&chars("makefile"), None), Vec::<char>::new());
    assert_eq!(ext_lower("Lib/Types.D.TS"), chars("d.ts"));
    assert_eq!(basename_lower("/Users/Me/Notes.TXT"), chars("notes.txt"));
}

#[test]
fn tint_values_parse_as_hex() {
    assert_eq!(color_value("#519aba"), 0x519aba);
    assert_eq!(color_value("##FFFFFF"), 0xffffff);
    assert_eq!(color_value("#+10"), 0x10);
    assert_eq!(color_value("#xyz"), 0xd4d7d6);
    assert_eq!(color_value(""), 0xd4d7d6);
    assert_eq!(color_value("#123456789"), 0xd4d7d6);
    assert_eq!(color_channels("#dcb67a"), (0xdc, 0xb6, 0x7a));
}

#[test]
fn highlight_cuts_names_at_matches() {
    let segs = highlight_segments("README.md", " read ");
    assert_eq!(segs, vec![(String::from("READ"), true), (String::from("ME.md"), false)]);
    let segs = highlight_segments("a-log-log", "LOG");
    assert_eq!(
        segs,
        vec![
            (String::from("a-"), false),
            (String::from("log"), true),
            (String::from("-"), false),
            (String::from("log"), true),
        ]
    );
    assert_eq!(highlight_segments("notes", ""), vec![(String::from("notes"), false)]);
    assert_eq!(highlight_segments("notes", "zz"), vec![(String::from("notes"), false)]);
    let joined: String = highlight_segments("aaaa", "aa").into_iter().map(|s| s.0).collect();
    assert_eq!(joined, "aaaa");
}

#[test]
fn compound_extensions_count_only_after_a_dot() {
    let i = icon_for("app.test.ts", false);
    assert_eq!((i.glyph, i.color), ("typescript", "#e37933"));
    let i = icon_for("latest.ts", false);
    assert_eq!((i.glyph, i.color), ("typescript", "#519aba"));
    assert_eq!(ext_of_base(&chars("latest.ts"), Some("ts")), chars("ts"));
    assert_eq!(ext_lower("contest.js"), chars("js"));
}
