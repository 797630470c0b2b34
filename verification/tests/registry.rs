use codespace::monitor::{
    init_live_terminals, keep_live_handles, monitor_step, payload_changed, prune_live_terminals,
    record_live_terminal, same_live_terminals, should_track_live_terminal, MonitorPayload,
};
use codespace::table::Table;
use codespace::terminal::{
    find_session, init_terminals, is_powershell, register_session, spawn_plan, take_session,
};

fn strings(v: &[&str]) -> Vec<String> {
    v.iter().map(|s| s.to_string()).collect()
}

#[test]
fn table_insert_get_remove() {
    let mut t: Table<u32> = Table::new();
    assert_eq!(t.get("a"), None);
    t.insert("a".to_string(), 1);
    t.insert("b".to_string(), 2);
    t.insert("a".to_string(), 3);
    assert_eq!(t.get("a"), Some(&3));
    assert_eq!(t.get("b"), Some(&2));
    assert_eq!(t.entries().len(), 2);
    assert_eq!(t.remove("a"), Some(3));
    assert_eq!(t.get("a"), None);
    assert!(!t.contains_key("a"));
    assert!(t.contains_key("b"));
    assert_eq!(t.remove("a"), None);
}

#[test]
fn init_terminals_once() {
    let mut r: Option<Table<u8>> = None;
    init_terminals(&mut r);
    assert!(r.as_ref().unwrap().entries().is_empty());
    r.as_mut().unwrap().insert("t".to_string(), 7);
    init_terminals(&mut r);
    assert_eq!(r.as_ref().unwrap().get("t"), Some(&7));
}

#[test]
fn lookup_before_first_use() {
    let r: Option<Table<u8>> = None;
    assert_eq!(find_session(&r, "t1"), Err("No terminals".to_string()));
}

#[test]
fn lookup_after_register_and_take() {
    let mut r: Option<Table<&str>> = None;
    register_session(&mut r, "t1".to_string(), "one");
    register_session(&mut r, "t2".to_string(), "two");
    assert_eq!(find_session(&r, "t1"), Ok(&"one"));
    assert_eq!(find_session(&r, "t3"), Err("Not found".to_string()));
    assert_eq!(take_session(&mut r, "t1"), Some("one"));
    assert_eq!(find_session(&r, "t1"), Err("Not found".to_string()));
    assert_eq!(find_session(&r, "t2"), Ok(&"two"));
    assert_eq!(take_session(&mut r, "t1"), None);
}

#[test]
fn take_sets_registry_up() {
    let mut r: Option<Table<u8>> = None;
    assert_eq!(take_session(&mut r, "x"), None);
    assert!(r.is_some());
}

#[test]
fn spawn_plan_bare_command_line_runs_in_powershell() {
    let (cmd, args) = spawn_plan("npm run dev".to_string(), Vec::new());
    assert_eq!(cmd, "powershell");
    assert_eq!(args, strings(&["-NoProfile", "-Command", "npm run dev *>&1"]));
}

#[test]
fn spawn_plan_powershell_gets_all_streams() {
    let (cmd, args) = spawn_plan("PwSh".to_string(), strings(&["-File", "x.ps1"]));
    assert_eq!(cmd, "PwSh");
    assert_eq!(args, strings(&["-File", "x.ps1 *>&1"]));
}

#[test]
fn spawn_plan_other_commands_unchanged() {
    let (cmd, args) = spawn_plan("npm".to_string(), strings(&["run", "dev"]));
    assert_eq!(cmd, "npm");
    assert_eq!(args, strings(&["run", "dev"]));
    let (cmd, args) = spawn_plan("powershell".to_string(), Vec::new());
    assert_eq!(cmd, "powershell");
    assert!(args.is_empty());
    assert!(is_powershell("POWERSHELL"));
    assert!(!is_powershell("powershell.exe"));
}

#[test]
fn live_terminals_recorded_per_workspace() {
    let mut live: Option<Table<Vec<isize>>> = None;
    assert!(should_track_live_terminal("live-server"));
    assert!(!should_track_live_terminal("npm"));
    record_live_terminal(&mut live, "W".to_string(), 11);
    record_live_terminal(&mut live, "W".to_string(), 12);
    record_live_terminal(&mut live, "V".to_string(), 13);
    let t = live.as_ref().unwrap();
    assert_eq!(t.get("W"), Some(&vec![11, 12]));
    assert_eq!(t.get("V"), Some(&vec![13]));
    let mut none: Option<Table<Vec<isize>>> = None;
    init_live_terminals(&mut none);
    assert!(none.unwrap().entries().is_empty());
}

#[test]
fn prune_drops_dead_windows_and_empty_workspaces() {
    let mut t: Table<Vec<isize>> = Table::new();
    t.insert("W".to_string(), vec![1, 2, 3]);
    t.insert("V".to_string(), vec![4]);
    let p = prune_live_terminals(&t, &vec![3, 1, 9]);
    assert_eq!(p.get("W"), Some(&vec![1, 3]));
    assert_eq!(p.get("V"), None);
    let again = prune_live_terminals(&p, &vec![3, 1, 9]);
    assert!(same_live_terminals(&p, &again));
    assert_eq!(keep_live_handles(&vec![5, 6, 5], &vec![5]), vec![5, 5]);
}

fn payload(names: &[&str], active: Option<&str>, live: Table<Vec<isize>>) -> MonitorPayload {
    MonitorPayload {
        open_names: strings(names),
        active_name: active.map(String::from),
        live_terminals: live,
    }
}

#[test]
fn monitor_announces_changes_once() {
    let mut last: Option<MonitorPayload> = None;
    assert!(monitor_step(&mut last, payload(&["A"], Some("A"), Table::new())));
    assert!(!monitor_step(&mut last, payload(&["A"], Some("A"), Table::new())));
    assert!(monitor_step(&mut last, payload(&["A", "B"], Some("A"), Table::new())));
    assert!(monitor_step(&mut last, payload(&["A", "B"], Some("B"), Table::new())));
    let mut live = Table::new();
    live.insert("B".to_string(), vec![5]);
    assert!(monitor_step(&mut last, payload(&["A", "B"], Some("B"), live.clone())));
    assert!(!monitor_step(&mut last, payload(&["A", "B"], Some("B"), live)));
    assert_eq!(last.as_ref().unwrap().active_name.as_deref(), Some("B"));
}

#[test]
fn payload_comparison() {
    assert!(payload_changed(&None, &payload(&[], None, Table::new())));
    let a = Some(payload(&["x"], None, Table::new()));
    assert!(!payload_changed(&a, &payload(&["x"], None, Table::new())));
    assert!(payload_changed(&a, &payload(&["x"], Some("x"), Table::new())));
    let mut t1 = Table::new();
    t1.insert("k".to_string(), vec![1]);
    let mut t2 = Table::new();
    t2.insert("k".to_string(), vec![2]);
    assert!(!same_live_terminals(&t1, &t2));
    let mut t3 = Table::new();
    t3.insert("j".to_string(), vec![1]);
    assert!(!same_live_terminals(&t1, &t3));
    assert!(!same_live_terminals(&t1, &Table::new()));
    assert!(!same_live_terminals(&Table::new(), &t1));
}
