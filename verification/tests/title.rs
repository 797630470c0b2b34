use codespace::title::{
    contains_string, extract_ws_name_from_title, get_open_workspace_names, is_vscode_title,
    window_title_pattern,
};

#[test]
fn name_after_file_and_dash() {
    assert_eq!(
        extract_ws_name_from_title("file.ts - MyProj (Workspace) - Visual Studio Code").as_deref(),
        Some("MyProj")
    );
}

#[test]
fn name_after_dirty_marker() {
    assert_eq!(
        extract_ws_name_from_title("file.ts ● WorkspaceName (Workspace) - Visual Studio Code").as_deref(),
        Some("WorkspaceName")
    );
    assert_eq!(
        extract_ws_name_from_title("● MyProj (Workspace) - Visual Studio Code").as_deref(),
        Some("MyProj")
    );
}

#[test]
fn name_alone_in_title() {
    assert_eq!(
        extract_ws_name_from_title("  MyProj (Workspace) - Visual Studio Code").as_deref(),
        Some("MyProj")
    );
}

#[test]
fn titles_without_workspace() {
    assert_eq!(extract_ws_name_from_title("main.rs - Visual Studio Code"), None);
    assert_eq!(extract_ws_name_from_title(" (Workspace) - Visual Studio Code"), None);
    assert_eq!(extract_ws_name_from_title("a -  (Workspace)"), None);
    assert_eq!(extract_ws_name_from_title(""), None);
}

#[test]
fn last_dash_separator_wins() {
    assert_eq!(
        extract_ws_name_from_title("a - b - My Proj (Workspace) - Visual Studio Code").as_deref(),
        Some("My Proj")
    );
}

#[test]
fn open_names_are_distinct_in_order() {
    let titles = vec![
        "a.rs - Alpha (Workspace) - Visual Studio Code".to_string(),
        "Explorer".to_string(),
        "b.rs - Alpha (Workspace) - Visual Studio Code".to_string(),
        "Beta (Workspace) - Visual Studio Code".to_string(),
    ];
    assert_eq!(get_open_workspace_names(&titles), vec!["Alpha".to_string(), "Beta".to_string()]);
    assert!(get_open_workspace_names(&Vec::new()).is_empty());
}

#[test]
fn window_title_pattern_and_vscode_title() {
    let p = window_title_pattern("Alpha");
    assert_eq!(p, "Alpha (Workspace) - Visual Studio Code");
    assert!(is_vscode_title(&p));
    assert!(!is_vscode_title("Notepad"));
    assert_eq!(extract_ws_name_from_title(&p).as_deref(), Some("Alpha"));
}

#[test]
fn contains_string_compares_text() {
    let names = vec!["a".to_string(), "b".to_string()];
    assert!(contains_string(&names, &"b".to_string()));
    assert!(!contains_string(&names, &"c".to_string()));
}
