use codespace::prompts::parse_workspace_document;
use codespace::tester::{
    check, judge_output, keep_reading, tester_plan, tester_tasks, ReadEvent, READ_LIMIT_SECS, READ_WAIT_MS,
};

fn strings(v: &[&str]) -> Vec<String> {
    v.iter().map(|s| s.to_string()).collect()
}

#[test]
fn echo_runs_through_cmd() {
    assert_eq!(tester_plan("echo", &strings(&["hi"])), ("cmd".to_string(), strings(&["/c", "echo", "hi"])));
    assert_eq!(tester_plan("echo", &Vec::new()), ("cmd".to_string(), strings(&["/c", "echo"])));
}

#[test]
fn powershell_script_gets_all_streams() {
    assert_eq!(
        tester_plan("powershell", &strings(&["-Command", "Write-Host hi"])),
        ("powershell".to_string(), strings(&["-Command", "Write-Host hi *>&1"]))
    );
    assert_eq!(
        tester_plan("PowerShell", &strings(&["-Command", "& { Write-Host hi }"])),
        ("PowerShell".to_string(), strings(&["-Command", "& { Write-Host hi  *>&1 }"]))
    );
}

#[test]
fn powershell_flags_and_files_unchanged() {
    assert_eq!(
        tester_plan("pwsh", &strings(&["-file", "x.ps1"])),
        ("pwsh".to_string(), strings(&["-file", "x.ps1"]))
    );
    assert_eq!(
        tester_plan("powershell", &strings(&["-NoExit"])),
        ("powershell".to_string(), strings(&["-NoExit"]))
    );
    assert_eq!(tester_plan("powershell", &Vec::new()), ("powershell".to_string(), Vec::new()));
}

#[test]
fn bare_command_line_runs_in_powershell() {
    assert_eq!(
        tester_plan("npm run build", &Vec::new()),
        ("powershell".to_string(), strings(&["-NoProfile", "-Command", "npm run build *>&1"]))
    );
    assert_eq!(tester_plan("npm", &strings(&["run"])), ("npm".to_string(), strings(&["run"])));
}

#[test]
fn check_empty_output() {
    assert_eq!(check("t", "", "default"), vec!["has-output", "has-output"]);
    assert_eq!(check("t", "", "other"), vec!["has-output", "has-output"]);
}

#[test]
fn check_sees_errors_in_any_case() {
    assert_eq!(
        check("t", "PARSERERROR: something went wrong in the script here", "default"),
        vec!["no-parse-error"]
    );
    assert_eq!(
        check("t", "Percorso non valido: C:\\x and more text here", "npm"),
        vec!["no-bad-path", "has-node"]
    );
    assert_eq!(
        check("t", "'foo' non riconosciuto come nome di cmdlet, funzione", "default"),
        vec!["no-cmdlet-err"]
    );
}

#[test]
fn check_by_task_type() {
    assert!(check("t", "[1/2] syncing...\n[OK] sync complete", "sync").is_empty());
    assert_eq!(check("t", "Pushing to origin... done", "push"), vec!["has-[OK]"]);
    assert!(check("t", "Server started on port 8000 ok", "php-server").is_empty());
    assert!(check("t", "[UPLOAD] file.txt [OK]", "upload").is_empty());
    assert_eq!(check("t", "mounted", "ftp-mount"), vec!["has-output", "has-output"]);
    assert!(check("t", "> node server.js listening on 3000", "npm").is_empty());
}

#[test]
fn check_counts_bytes() {
    assert_eq!(check("t", "ééééééééééé", "live-server"), vec!["has-output"]);
    assert_eq!(judge_output("[ok]", 100, "push"), vec!["has-push"]);
    assert_eq!(judge_output("", 41, "default"), Vec::<&str>::new());
}

#[test]
fn tester_tasks_from_document() {
    let doc = parse_workspace_document(
        r#"{"tasks":[
            {"label":"Avvia CodeSpace","command":"npm"},
            {"label":"Echo","command":"echo","args":["a",1,"b"],"codeSpace":{"taskType":"echo"},"options":{"cwd":"${workspaceFolder}/x"}},
            {"command":"ls","options":{"cwd":""}}
        ]}"#,
    )
    .unwrap();
    let ts = tester_tasks(&doc, "/ws");
    assert_eq!(ts.len(), 2);
    assert_eq!(ts[0].label, "Echo");
    assert_eq!(ts[0].command, "echo");
    assert_eq!(ts[0].args, strings(&["a", "b"]));
    assert_eq!(ts[0].task_type, "echo");
    assert_eq!(ts[0].cwd.as_deref(), Some("/ws/x"));
    assert_eq!(ts[1].label, "?");
    assert_eq!(ts[1].command, "ls");
    assert!(ts[1].args.is_empty());
    assert_eq!(ts[1].task_type, "default");
    assert_eq!(ts[1].cwd, None);
}

#[test]
fn tester_tasks_without_task_list() {
    let doc = parse_workspace_document(r#"{"version":"2.0.0"}"#).unwrap();
    assert!(tester_tasks(&doc, "/ws").is_empty());
}

#[test]
fn passing_needs_more_than_twenty_bytes() {
    assert_eq!("[OK] [1/2] sync done".len(), 20);
    assert_eq!(check("t", "[OK] [1/2] sync done", "sync"), vec!["has-output"]);
    assert!(check("t", "[OK] [1/2] sync done!", "sync").is_empty());
}

#[test]
fn reading_stops_when_output_closes_or_time_is_up() {
    assert!(keep_reading(ReadEvent::Line, true, true));
    assert!(keep_reading(ReadEvent::Quiet, false, false));
    assert!(!keep_reading(ReadEvent::Quiet, true, false));
    assert!(!keep_reading(ReadEvent::Quiet, false, true));
    assert!(!keep_reading(ReadEvent::Closed, false, false));
    assert_eq!(READ_WAIT_MS, 300);
    assert_eq!(READ_LIMIT_SECS, 6);
}
