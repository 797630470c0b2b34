use codespace::workspace::{
    build_cache, check_open_status, dedupe_paths, drive_roots, full_scan, merge_quick_scan,
    order_workspaces, populate_colors, populate_open_status, sort_by_name, WorkspaceInfo,
};

fn ws(path: &str, name: &str) -> WorkspaceInfo {
    WorkspaceInfo {
        path: path.to_string(),
        name: name.to_string(),
        display_path: String::new(),
        color: None,
        is_open: false,
    }
}

fn paths(v: &[WorkspaceInfo]) -> Vec<&str> {
    v.iter().map(|w| w.path.as_str()).collect()
}

#[test]
fn sort_by_name_ignores_case_and_is_stable() {
    let v = vec![ws("1", "beta"), ws("2", "Alpha"), ws("3", "alpha"), ws("4", "Gamma")];
    let s = sort_by_name(v);
    assert_eq!(paths(&s), vec!["2", "3", "1", "4"]);
}

#[test]
fn dedupe_keeps_first_of_each_path() {
    let v = vec![ws("a", "x"), ws("b", "y"), ws("a", "z")];
    let d = dedupe_paths(v);
    assert_eq!(paths(&d), vec!["a", "b"]);
    assert_eq!(d[0].name, "x");
}

#[test]
fn workspace_order_sorted_and_unique() {
    let v = vec![ws("C:\\p\\b.code-workspace", "b"), ws("C:\\p\\a.code-workspace", "A"), ws("C:\\p\\b.code-workspace", "b")];
    let o = order_workspaces(v);
    assert_eq!(paths(&o), vec!["C:\\p\\a.code-workspace", "C:\\p\\b.code-workspace"]);
}

#[test]
fn quick_scan_merge_adds_only_new_paths() {
    let existing = vec![ws("a", "a"), ws("b", "b")];
    let found = vec![ws("b", "b2"), ws("c", "c"), ws("c", "c")];
    let r = merge_quick_scan(existing, found);
    assert_eq!(paths(&r), vec!["a", "b", "c", "c"]);
    assert_eq!(r[1].name, "b");
}

#[test]
fn drive_roots_a_to_z() {
    let r = drive_roots();
    assert_eq!(r.len(), 26);
    assert_eq!(r[0], "A:\\");
    assert_eq!(r[2], "C:\\");
    assert_eq!(r[25], "Z:\\");
}

#[test]
fn full_scan_concatenates_drives() {
    let r = full_scan(vec![vec![ws("c1", "x")], vec![], vec![ws("d1", "y"), ws("d2", "z")]]);
    assert_eq!(paths(&r), vec!["c1", "d1", "d2"]);
    assert!(full_scan(Vec::new()).is_empty());
}

#[test]
fn populate_colors_from_contents() {
    let mut v = vec![ws("a", "a"), ws("b", "b"), ws("c", "c")];
    let contents = vec![
        Some(r##"{"settings":{"workbench.colorCustomizations":{"titleBar.activeBackground":"#123456"}}}"##.to_string()),
        None,
        Some("{}".to_string()),
    ];
    populate_colors(&mut v, &contents);
    assert_eq!(v[0].color.as_deref(), Some("#123456"));
    assert_eq!(v[1].color, None);
    assert_eq!(v[2].color, None);
    assert_eq!(paths(&v), vec!["a", "b", "c"]);
}

#[test]
fn open_status_by_stem() {
    let stems = vec!["Alpha".to_string(), "beta".to_string()];
    let open = vec!["Alpha".to_string(), "Beta".to_string()];
    assert_eq!(check_open_status(&stems, &open), vec![true, false]);
    let mut v = vec![ws("x/Alpha.code-workspace", "Alpha"), ws("x/beta.code-workspace", "beta")];
    populate_open_status(&mut v, &stems, &open);
    assert!(v[0].is_open);
    assert!(!v[1].is_open);
}

#[test]
fn cache_of_a_scan() {
    let v = vec![ws("a", "A"), ws("b", "B")];
    let c = build_cache(&v, &vec![10, 20], 99);
    assert_eq!(c.last_scan, 99);
    assert_eq!(c.entries.len(), 2);
    assert_eq!(c.entries[1].path, "b");
    assert_eq!(c.entries[1].name, "B");
    assert_eq!(c.entries[1].modified, 20);
}
