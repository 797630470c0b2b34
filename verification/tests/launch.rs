use codespace::jsonc::workspace_json_text;
use codespace::launch::{
    new_workspace_document, new_workspace_file_name, new_workspace_text, scan_info, task_launch_plan,
    update_script,
};
use codespace::workspace::{Cache, CacheEntry};

fn strings(v: &[&str]) -> Vec<String> {
    v.iter().map(|s| s.to_string()).collect()
}

#[test]
fn task_console_plans() {
    assert_eq!(
        task_launch_plan("npm run dev", &Vec::new()),
        ("powershell".to_string(), strings(&["-NoExit", "-Command", "npm run dev"]))
    );
    assert_eq!(
        task_launch_plan("npm", &strings(&["run", "dev"])),
        ("cmd".to_string(), strings(&["/k", "npm", "run", "dev"]))
    );
    assert_eq!(
        task_launch_plan("npm run", &strings(&["x"])),
        ("cmd".to_string(), strings(&["/k", "npm run", "x"]))
    );
}

#[test]
fn new_workspace_file() {
    assert_eq!(
        new_workspace_text().unwrap(),
        "{\n  \"folders\": [\n    {\n      \"path\": \".\"\n    }\n  ],\n  \"settings\": {}\n}"
    );
    assert_eq!(workspace_json_text(&new_workspace_document()), new_workspace_text());
    assert_eq!(new_workspace_file_name(Some("proj")), "proj.code-workspace");
    assert_eq!(new_workspace_file_name(None), "workspace.code-workspace");
}

#[test]
fn scan_info_with_and_without_cache() {
    let entry = |p: &str| CacheEntry { path: p.to_string(), name: p.to_string(), modified: 1 };
    let cache = Cache { entries: vec![entry("a"), entry("b"), entry("c")], last_scan: 1700000000 };
    assert_eq!(
        workspace_json_text(&scan_info(&Some(cache))).unwrap(),
        "{\n  \"count\": 3,\n  \"has_cache\": true,\n  \"last_scan\": 1700000000\n}"
    );
    assert_eq!(
        workspace_json_text(&scan_info(&None)).unwrap(),
        "{\n  \"count\": 0,\n  \"has_cache\": false,\n  \"last_scan\": 0\n}"
    );
}

#[test]
fn update_script_text() {
    assert_eq!(
        update_script("C:\\a\\CodeSpace.exe", "C:\\a\\CodeSpace_new.exe"),
        "@echo off\r\ntimeout /t 2 /nobreak >nul\r\ndel /f \"C:\\a\\CodeSpace.exe\"\r\nmove /y \"C:\\a\\CodeSpace_new.exe\" \"C:\\a\\CodeSpace.exe\"\r\nstart \"\" \"C:\\a\\CodeSpace.exe\"\r\ndel /f \"%~f0\"\r\n"
    );
}
