use codespace::scan::{
    distinct_texts, scan_area, should_skip_dir, should_skip_name, split_file_name, workspace_from_entry,
};
use codespace::workspace::WorkspaceInfo;

#[test]
fn skipped_directory_names() {
    for n in [".git", ".vscode", "$Recycle.Bin", "node_modules", "target", "Windows", "Program Files",
        "Program Files (x86)", "ProgramData", "AppData", "msys64", "build", "dist"] {
        assert!(should_skip_name(n), "{}", n);
    }
    for n in ["src", "Build", "projects", "windows", "", "my.git"] {
        assert!(!should_skip_name(n), "{}", n);
    }
}

#[test]
fn skip_dir_by_entry_name() {
    let dot = walkdir::WalkDir::new(".").max_depth(0).into_iter().next().unwrap().unwrap();
    assert!(should_skip_dir(&dot));
    let src = walkdir::WalkDir::new("src").max_depth(0).into_iter().next().unwrap().unwrap();
    assert!(!should_skip_dir(&src));
}

#[test]
fn file_name_parts_match_std() {
    for n in ["a.code-workspace", ".bashrc", "a.b.c", "noext", "..", ".", "a.", "..x", "", "x.y.", ".a.b"] {
        let (ext, stem) = split_file_name(n);
        let p = std::path::Path::new(n);
        if n.is_empty() || n == "." || n == ".." {
            assert_eq!(ext, None, "{}", n);
        } else {
            assert_eq!(ext.as_deref(), p.extension().map(|e| e.to_str().unwrap()), "{}", n);
            assert_eq!(Some(stem.as_str()), p.file_stem().map(|e| e.to_str().unwrap()), "{}", n);
        }
    }
    assert_eq!(split_file_name("a.b.c"), (Some("c".to_string()), "a.b".to_string()));
    assert_eq!(split_file_name(".bashrc"), (None, ".bashrc".to_string()));
}

#[test]
fn workspace_files_recognized() {
    let w = workspace_from_entry(true, "/p/My.code-workspace".to_string(), "My.code-workspace", "/p".to_string());
    assert_eq!(
        w,
        Some(WorkspaceInfo {
            path: "/p/My.code-workspace".to_string(),
            name: "My".to_string(),
            display_path: "/p".to_string(),
            color: None,
            is_open: false,
        })
    );
    assert_eq!(workspace_from_entry(false, "d".to_string(), "d.code-workspace", "/".to_string()), None);
    assert_eq!(workspace_from_entry(true, "x".to_string(), "x.json", "/".to_string()), None);
    assert_eq!(workspace_from_entry(true, "x".to_string(), ".code-workspace", "/".to_string()), None);
    assert_eq!(workspace_from_entry(true, "x".to_string(), "a.Code-Workspace", "/".to_string()), None);
}

#[test]
fn quick_scan_areas() {
    assert_eq!(scan_area("/a/b/c/d/e/x.code-workspace").as_deref(), Some("/a/b"));
    assert_eq!(scan_area("/a/x.code-workspace").as_deref(), Some("/"));
    assert_eq!(scan_area("x.code-workspace").as_deref(), Some(""));
    assert_eq!(scan_area(""), None);
    assert_eq!(scan_area("a/b/c/d/e/f.code-workspace").as_deref(), Some("a/b"));
    assert_eq!(scan_area("a/b/c/d/x.code-workspace").as_deref(), Some("a"));
    assert_eq!(scan_area("a/b/c/x.code-workspace").as_deref(), Some(""));
    assert_eq!(scan_area("a/x.code-workspace").as_deref(), Some(""));
    let v: Vec<String> = ["/a", "/b", "/a", "/c", "/b"].iter().map(|s| s.to_string()).collect();
    assert_eq!(distinct_texts(&v), vec!["/a".to_string(), "/b".to_string(), "/c".to_string()]);
}
