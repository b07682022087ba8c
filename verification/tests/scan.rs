use hearth::scan::{scan_dir, should_descend, DirNode};

fn dir(root: &str, name: &str, children: Vec<DirNode>) -> DirNode {
    DirNode {
        path: format!("{root}/{name}"),
        name: Some(name.to_string()),
        is_dir: true,
        children,
    }
}

#[test]
fn scan_reports_subdirs_and_flags_existing() {
    let root = "/tmp/scan";
    let entries = vec![dir(root, "proj_a", vec![]), dir(root, "proj_b", vec![])];
    let existing = vec![format!("{root}/proj_a")];
    let hits = scan_dir(&entries, 1, &existing);
    assert_eq!(hits.len(), 2);
    let a = hits.iter().find(|h| h.name == "proj_a").unwrap();
    assert!(a.already_registered);
    let b = hits.iter().find(|h| h.name == "proj_b").unwrap();
    assert!(!b.already_registered);
}

#[test]
fn scan_skips_hidden_files_and_respects_depth() {
    let root = "/w";
    let file = DirNode { path: "/w/notes.txt".into(), name: Some("notes.txt".into()), is_dir: false, children: vec![] };
    let hidden = dir(root, ".git", vec![dir("/w/.git", "objects", vec![])]);
    let nested = dir(root, "a", vec![dir("/w/a", "b", vec![dir("/w/a/b", "c", vec![])])]);
    let unreadable = DirNode { path: "/w/\u{fffd}".into(), name: None, is_dir: true, children: vec![] };
    let entries = vec![file, hidden, nested, unreadable];
    let hits = scan_dir(&entries, 2, &vec![]);
    let paths: Vec<&str> = hits.iter().map(|h| h.path.as_str()).collect();
    assert_eq!(paths, vec!["/w/a", "/w/a/b"]);
    assert!(scan_dir(&entries, 0, &vec![]).is_empty());
    assert!(should_descend(Some("src"), true));
    assert!(!should_descend(Some(".cache"), true));
    assert!(!should_descend(Some("src"), false));
    assert!(!should_descend(None, true));
}
