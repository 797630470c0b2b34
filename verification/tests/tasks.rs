use codespace::prompts::parse_workspace_document;
use codespace::tasks::{
    collect_tasks, first_folder_path, get_task_icon, substitute_workspace_folder, CodeSpaceSettings,
    TaskOptions, TasksJson, VsCodeTask, ICON_DEFAULT, ICON_LIVE_SERVER, ICON_NPM, ICON_POWERSHELL,
};

fn task(label: Option<&str>, ty: Option<&str>, command: Option<&str>) -> VsCodeTask {
    VsCodeTask {
        label: label.map(String::from),
        task_type: ty.map(String::from),
        command: command.map(String::from),
        args: None,
        options: None,
        code_space: None,
    }
}

#[test]
fn task_icons_by_type() {
    assert_eq!(get_task_icon("npm"), ICON_NPM);
    assert_eq!(get_task_icon("live-server"), ICON_LIVE_SERVER);
    assert_eq!(get_task_icon("powershell"), ICON_POWERSHELL);
    assert_eq!(get_task_icon("echo"), "M4 6h16 M4 12h10 M4 18h8");
    assert_eq!(get_task_icon(""), ICON_DEFAULT);
    assert_eq!(get_task_icon("NPM"), "M9 8L5 11.6923L9 16M15 8L19 11.6923L15 16");
}

#[test]
fn only_shell_tasks_with_label_and_command_are_listed() {
    let tasks = TasksJson {
        tasks: Some(vec![
            task(Some("build"), Some("shell"), Some("cargo")),
            task(Some("proc"), Some("process"), Some("x")),
            task(None, Some("shell"), Some("x")),
            task(Some("nocmd"), Some("shell"), None),
            task(Some("test"), Some("shell"), Some("npm")),
        ]),
    };
    let r = collect_tasks(tasks, "/proj");
    let labels: Vec<&str> = r.iter().map(|t| t.label.as_str()).collect();
    assert_eq!(labels, vec!["build", "test"]);
    assert_eq!(r[0].command, "cargo");
    assert_eq!(r[0].cwd.as_deref(), Some("/proj"));
    assert_eq!(r[0].task_type, "");
    assert_eq!(r[0].icon, ICON_DEFAULT);
    assert!(r[0].args.is_empty());
}

#[test]
fn task_settings_carry_over() {
    let mut t = task(Some("serve"), Some("shell"), Some("live-server"));
    t.args = Some(vec!["--port".to_string(), "8080".to_string()]);
    t.code_space = Some(CodeSpaceSettings {
        task_type: Some("live-server".to_string()),
        url: Some("http://localhost:8080".to_string()),
        confirmation_request: Some(true),
    });
    let r = collect_tasks(TasksJson { tasks: Some(vec![t]) }, "/proj");
    assert_eq!(r.len(), 1);
    assert_eq!(r[0].args, vec!["--port".to_string(), "8080".to_string()]);
    assert_eq!(r[0].task_type, "live-server");
    assert_eq!(r[0].icon, ICON_LIVE_SERVER);
    assert_eq!(r[0].url.as_deref(), Some("http://localhost:8080"));
    assert_eq!(r[0].confirm_before_run, Some(true));
}

#[test]
fn task_cwd_resolution() {
    let mut a = task(Some("a"), Some("shell"), Some("x"));
    a.options = Some(TaskOptions { cwd: Some("${workspaceFolder}/sub".to_string()) });
    let mut b = task(Some("b"), Some("shell"), Some("x"));
    b.options = Some(TaskOptions { cwd: Some("rel/dir".to_string()) });
    let mut c = task(Some("c"), Some("shell"), Some("x"));
    c.options = Some(TaskOptions { cwd: None });
    let r = collect_tasks(TasksJson { tasks: Some(vec![a, b, c]) }, "/proj");
    assert_eq!(r[0].cwd.as_deref(), Some("/proj/sub"));
    assert_eq!(r[1].cwd.as_deref(), Some("/proj/rel/dir"));
    assert_eq!(r[2].cwd.as_deref(), Some("/proj"));
}

#[test]
fn no_tasks_listed_without_tasks() {
    assert!(collect_tasks(TasksJson { tasks: None }, "/p").is_empty());
}

#[test]
fn workspace_folder_substitution() {
    assert_eq!(substitute_workspace_folder("${workspaceFolder}\\a\\${workspaceFolder}", "R"), "R\\a\\R");
    assert_eq!(substitute_workspace_folder("none", "R"), "none");
}

#[test]
fn first_folder_of_workspace() {
    let d = parse_workspace_document(r#"{"folders":[{"path":"../app"},{"path":"x"}]}"#).unwrap();
    assert_eq!(first_folder_path(&d).as_deref(), Some("../app"));
    let d = parse_workspace_document(r#"{"folders":[]}"#).unwrap();
    assert_eq!(first_folder_path(&d), None);
    let d = parse_workspace_document(r#"{"folders":[{"name":"x"}]}"#).unwrap();
    assert_eq!(first_folder_path(&d), None);
    let d = parse_workspace_document(r#"{"folders":{"path":"x"}}"#).unwrap();
    assert_eq!(first_folder_path(&d), None);
}

/// The numbers of an SVG path, in order.
fn path_numbers(d: &str) -> Vec<f64> {
    let mut out = Vec::new();
    let mut cur = String::new();
    for c in d.chars() {
        let starts_new = c == '-' || (c == '.' && cur.contains('.'));
        if c.is_ascii_digit() || c == '.' || c == '-' {
            if starts_new && !cur.is_empty() && cur != "-" {
                out.push(cur.parse::<f64>().unwrap());
                cur.clear();
            }
            cur.push(c);
        } else {
            if !cur.is_empty() {
                out.push(cur.parse::<f64>().unwrap());
                cur.clear();
            }
        }
    }
    if !cur.is_empty() {
        out.push(cur.parse::<f64>().unwrap());
    }
    out
}

#[test]
fn task_icons_fit_a_24_unit_box() {
    for t in ["live-server", "php-server", "npm", "echo", "ftp-mount", "upload", "add-user", "test", "powershell", "other"] {
        let d = get_task_icon(t);
        let nums = path_numbers(d);
        assert!(!nums.is_empty(), "{}", t);
        for n in nums {
            assert!((-24.0..=24.0).contains(&n), "{} has {}", t, n);
        }
    }
}
