use codespace::window::{
    console_placement, console_poll_step, find_window_by_title, placement_computable, ConsoleStep, is_new_console_window, launch_poll_step,
    toggle_show_command, window_not_found, windows_to_minimize, LaunchStep, Placement, Rect,
    SW_MINIMIZE, SW_RESTORE,
};

fn wins(v: &[(isize, &str)]) -> Vec<(isize, String)> {
    v.iter().map(|(h, t)| (*h, t.to_string())).collect()
}

#[test]
fn first_window_with_title() {
    let w = wins(&[
        (1, "a"),
        (2, "x.rs - X (Workspace) - Visual Studio Code"),
        (3, "X (Workspace) - Visual Studio Code"),
    ]);
    assert_eq!(find_window_by_title(&w, "X (Workspace) - Visual Studio Code"), 2);
    assert_eq!(find_window_by_title(&w, "Y (Workspace)"), 0);
    assert_eq!(find_window_by_title(&Vec::new(), "a"), 0);
}

#[test]
fn other_vscode_windows_are_minimized() {
    let w = wins(&[(1, "a - Visual Studio Code"), (2, "Notepad"), (3, "b - Visual Studio Code")]);
    assert_eq!(windows_to_minimize(&w, 3), vec![1]);
    assert_eq!(windows_to_minimize(&w, 9), vec![1, 3]);
}

#[test]
fn toggle_live_terminal_command() {
    assert_eq!(toggle_show_command(true), SW_RESTORE);
    assert_eq!(toggle_show_command(false), SW_MINIMIZE);
    assert_eq!(SW_RESTORE, 9);
    assert_eq!(SW_MINIMIZE, 6);
}

#[test]
fn launch_polling() {
    assert_eq!(launch_poll_step(1, 0), LaunchStep::Wait);
    assert_eq!(launch_poll_step(3, 42), LaunchStep::Focus(42));
    assert_eq!(launch_poll_step(149, 0), LaunchStep::Wait);
    assert_eq!(launch_poll_step(150, 0), LaunchStep::GiveUp);
    assert_eq!(launch_poll_step(150, 7), LaunchStep::Focus(7));
}

#[test]
fn console_goes_right_of_launcher() {
    let launcher = Rect { left: 0, top: 0, right: 800, bottom: 600 };
    let console = Rect { left: 10, top: 10, right: 500, bottom: 400 };
    assert_eq!(
        console_placement(launcher, console),
        Some(Placement { x: 793, y: 0, width: 600, height: 600 })
    );
    let launcher = Rect { left: 100, top: 20, right: 1101, bottom: 720 };
    assert_eq!(
        console_placement(launcher, console),
        Some(Placement { x: 1094, y: 20, width: 750, height: 700 })
    );
}

#[test]
fn narrow_window_is_not_the_console() {
    let launcher = Rect { left: 0, top: 0, right: 800, bottom: 600 };
    assert_eq!(console_placement(launcher, Rect { left: 0, top: 0, right: 200, bottom: 100 }), None);
    assert_eq!(console_placement(launcher, Rect { left: 0, top: 0, right: 201, bottom: 100 }).is_some(), true);
}

#[test]
fn console_width_rounds_toward_zero() {
    let launcher = Rect { left: 100, top: 0, right: 50, bottom: 10 };
    let console = Rect { left: 0, top: 0, right: 300, bottom: 100 };
    assert_eq!(
        console_placement(launcher, console),
        Some(Placement { x: 43, y: 0, width: -37, height: 10 })
    );
}

#[test]
fn new_console_window_candidates() {
    assert!(!is_new_console_window(0, 5));
    assert!(!is_new_console_window(5, 5));
    assert!(is_new_console_window(6, 5));
}

#[test]
fn window_not_found_message() {
    assert_eq!(window_not_found("Alpha"), "Window not found for: Alpha");
}

#[test]
fn placement_overflow_detected() {
    let launcher = Rect { left: 0, top: 0, right: 800, bottom: 600 };
    let console = Rect { left: 10, top: 10, right: 500, bottom: 400 };
    assert!(placement_computable(launcher, console));
    assert!(!placement_computable(launcher, Rect { left: i32::MIN, top: 0, right: i32::MAX, bottom: 0 }));
    let huge = Rect { left: 0, top: 0, right: 100_000_000, bottom: 10 };
    assert!(!placement_computable(huge, console));
    assert!(placement_computable(huge, Rect { left: 0, top: 0, right: 100, bottom: 10 }));
    let low = Rect { left: 0, top: 0, right: i32::MIN, bottom: 10 };
    assert!(!placement_computable(low, console));
}

#[test]
fn console_polling() {
    let launcher = Rect { left: 0, top: 0, right: 800, bottom: 600 };
    let wide = Rect { left: 10, top: 10, right: 500, bottom: 400 };
    let narrow = Rect { left: 0, top: 0, right: 100, bottom: 100 };
    assert_eq!(
        console_poll_step(1, 7, launcher, 9, wide),
        ConsoleStep::Place(Placement { x: 793, y: 0, width: 600, height: 600 })
    );
    assert_eq!(console_poll_step(1, 7, launcher, 7, wide), ConsoleStep::Wait);
    assert_eq!(console_poll_step(1, 7, launcher, 0, wide), ConsoleStep::Wait);
    assert_eq!(console_poll_step(5, 7, launcher, 9, narrow), ConsoleStep::Wait);
    assert_eq!(console_poll_step(40, 7, launcher, 9, narrow), ConsoleStep::GiveUp);
    assert!(matches!(console_poll_step(40, 7, launcher, 9, wide), ConsoleStep::Place(_)));
}
