//! Decisions about desktop windows: which window shows a workspace, which to
//! minimize, what a launch does while it waits for its window, and where a
//! task's new console goes.
//!
//! The window system is asked by the caller; these functions take its
//! answers (handles, titles, rectangles) as plain values.
use vstd::prelude::*;
use crate::text::{concat_str, contains, str_contains};

verus! {

broadcast use vstd::string::group_string_axioms;

/// `ShowWindow` command that maximizes a window.
pub const SW_MAXIMIZE: i32 = 3;

/// `ShowWindow` command that minimizes a window.
pub const SW_MINIMIZE: i32 = 6;

/// `ShowWindow` command that restores a minimized window.
pub const SW_RESTORE: i32 = 9;

/// How many times a launch looks for its workspace window before it gives up.
pub const LAUNCH_POLL_ATTEMPTS: u32 = 150;

/// The first window, in the order given, whose title contains `p`; 0 when none does.
pub open spec fn first_window_with(ws: Seq<(isize, String)>, p: Seq<char>) -> isize
    decreases ws.len(),
{
    if ws.len() == 0 {
        0
    } else if contains(ws[0].1@, p) {
        ws[0].0
    } else {
        first_window_with(ws.drop_first(), p)
    }
}

/// The first of the visible, titled `windows` whose title contains
/// `partial_title`; 0 when there is none.
pub fn find_window_by_title(windows: &Vec<(isize, String)>, partial_title: &str) -> (r: isize)
    ensures
        r == first_window_with(windows@, partial_title@),
{
    let mut i: usize = 0;
    assert(windows@.skip(0) =~= windows@);
    while i < windows.len()
        invariant
            i <= windows.len(),
            first_window_with(windows@, partial_title@) == first_window_with(
                windows@.skip(i as int),
                partial_title@,
            ),
        decreases windows.len() - i,
    {
        assert(windows@.skip(i as int)[0] == windows@[i as int]);
        if str_contains(windows[i].1.as_str(), partial_title) {
            return windows[i].0;
        }
        assert(windows@.skip(i as int).drop_first() =~= windows@.skip(i + 1));
        i += 1;
    }
    0
}

/// The VS Code windows among `ws` other than `exclude`, in order.
pub open spec fn windows_to_minimize_spec(ws: Seq<(isize, String)>, exclude: isize) -> Seq<isize>
    decreases ws.len(),
{
    if ws.len() == 0 {
        Seq::empty()
    } else {
        let prev = windows_to_minimize_spec(ws.drop_last(), exclude);
        if ws.last().0 != exclude && contains(ws.last().1@, "Visual Studio Code"@) {
            prev.push(ws.last().0)
        } else {
            prev
        }
    }
}

/// The visible VS Code windows to minimize so that `exclude` stands alone.
pub fn windows_to_minimize(windows: &Vec<(isize, String)>, exclude: isize) -> (r: Vec<isize>)
    ensures
        r@ == windows_to_minimize_spec(windows@, exclude),
{
    let mut r: Vec<isize> = Vec::new();
    let mut i: usize = 0;
    while i < windows.len()
        invariant
            i <= windows.len(),
            r@ == windows_to_minimize_spec(windows@.take(i as int), exclude),
        decreases windows.len() - i,
    {
        assert(windows@.take(i + 1).drop_last() =~= windows@.take(i as int));
        if windows[i].0 != exclude && str_contains(windows[i].1.as_str(), "Visual Studio Code") {
            r.push(windows[i].0);
        }
        i += 1;
    }
    assert(windows@.take(i as int) =~= windows@);
    r
}

/// Minimizing "all visible VS Code windows except the given one": the given
/// window is never among them, and each of them is a VS Code window of the list.
pub proof fn law_minimize_spares_target(ws: Seq<(isize, String)>, exclude: isize)
    ensures
        !windows_to_minimize_spec(ws, exclude).contains(exclude),
        forall|i: int|
            0 <= i < windows_to_minimize_spec(ws, exclude).len() ==> exists|j: int|
                0 <= j < ws.len() && ws[j].0 == #[trigger] windows_to_minimize_spec(ws, exclude)[i]
                    && contains(ws[j].1@, "Visual Studio Code"@),
    decreases ws.len(),
{
    if ws.len() > 0 {
        let d = ws.drop_last();
        law_minimize_spares_target(d, exclude);
        let prev = windows_to_minimize_spec(d, exclude);
        let r = windows_to_minimize_spec(ws, exclude);
        assert forall|i: int| 0 <= i < r.len() implies exists|j: int|
            0 <= j < ws.len() && ws[j].0 == #[trigger] r[i] && contains(ws[j].1@, "Visual Studio Code"@) by {
            if i < prev.len() {
                assert(r[i] == prev[i]);
                let j = choose|j: int|
                    0 <= j < d.len() && d[j].0 == prev[i] && contains(d[j].1@, "Visual Studio Code"@);
                assert(ws[j] == d[j]);
            } else {
                assert(ws[ws.len() - 1] == ws.last());
            }
        }
        if r.contains(exclude) {
            let i = choose|i: int| 0 <= i < r.len() && r[i] == exclude;
            if i < prev.len() {
                assert(r[i] == prev[i]);
            }
        }
    }
}

/// Every VS Code window of the list other than the given one is minimized,
/// wherever it stands in the list.
pub proof fn law_minimize_all_others(ws: Seq<(isize, String)>, exclude: isize)
    ensures
        forall|j: int|
            0 <= j < ws.len() && ws[j].0 != exclude && contains(#[trigger] ws[j].1@, "Visual Studio Code"@)
                ==> windows_to_minimize_spec(ws, exclude).contains(ws[j].0),
    decreases ws.len(),
{
    if ws.len() > 0 {
        let d = ws.drop_last();
        law_minimize_all_others(d, exclude);
        let prev = windows_to_minimize_spec(d, exclude);
        let r = windows_to_minimize_spec(ws, exclude);
        assert forall|j: int|
            0 <= j < ws.len() && ws[j].0 != exclude && contains(#[trigger] ws[j].1@, "Visual Studio Code"@)
            implies r.contains(ws[j].0) by {
            if j < ws.len() - 1 {
                assert(d[j] == ws[j]);
                assert(prev.contains(d[j].0));
                let m = choose|m: int| 0 <= m < prev.len() && prev[m] == d[j].0;
                assert(r[m] == prev[m]);
            } else {
                assert(ws[j] == ws.last());
                assert(r[r.len() - 1] == ws.last().0);
            }
        }
    }
}

/// The message for a workspace whose window is not found.
pub fn window_not_found(name: &str) -> (r: String)
    ensures
        r@ == "Window not found for: "@ + name@,
{
    concat_str("Window not found for: ", name)
}

/// The `ShowWindow` command that toggles a live-server terminal: a
/// minimized one is restored, any other is minimized.
pub fn toggle_show_command(is_iconic: bool) -> (r: i32)
    ensures
        r == if is_iconic {
            SW_RESTORE
        } else {
            SW_MINIMIZE
        },
{
    if is_iconic {
        SW_RESTORE
    } else {
        SW_MINIMIZE
    }
}

/// What a launch does after a look for its workspace window.
#[derive(Debug, Clone, Copy, PartialEq, Eq, Structural)]
pub enum LaunchStep {
    /// The window is there: maximize it and bring it to the front.
    Focus(isize),
    /// Not yet: look again later.
    Wait,
    /// The last look found nothing: report that the launch failed.
    GiveUp,
}

/// What a launch does after look number `attempt` (counted from 1) found
/// window `found` (0 for none).
pub open spec fn launch_next(attempt: u32, found: isize) -> LaunchStep {
    if found != 0 {
        LaunchStep::Focus(found)
    } else if attempt >= LAUNCH_POLL_ATTEMPTS {
        LaunchStep::GiveUp
    } else {
        LaunchStep::Wait
    }
}

/// What a launch does after look number `attempt` (counted from 1) found
/// window `found` (0 for none).
pub fn launch_poll_step(attempt: u32, found: isize) -> (r: LaunchStep)
    ensures
        r == launch_next(attempt, found),
{
    if found != 0 {
        LaunchStep::Focus(found)
    } else if attempt >= LAUNCH_POLL_ATTEMPTS {
        LaunchStep::GiveUp
    } else {
        LaunchStep::Wait
    }
}

/// A launch ends by the last look: it never waits after it.
pub proof fn law_launch_ends(attempt: u32, found: isize)
    requires
        attempt >= LAUNCH_POLL_ATTEMPTS,
    ensures
        launch_next(attempt, found) != LaunchStep::Wait,
{
}

/// A window rectangle in screen coordinates.
#[derive(Debug, Clone, Copy, PartialEq, Eq, Structural)]
pub struct Rect {
    pub left: i32,
    pub top: i32,
    pub right: i32,
    pub bottom: i32,
}

/// Where a window goes and how large it is.
#[derive(Debug, Clone, Copy, PartialEq, Eq, Structural)]
pub struct Placement {
    pub x: i32,
    pub y: i32,
    pub width: i32,
    pub height: i32,
}

/// Integer division rounding toward zero, as Rust's `/` does.
pub open spec fn div_toward_zero(a: int, b: int) -> int {
    if a >= 0 {
        a / b
    } else {
        -((-a) / b)
    }
}

/// The arithmetic of a placement beside `launcher` fits in `i32`.
pub open spec fn placement_fits(launcher: Rect) -> bool {
    &&& i32::MIN <= launcher.right - launcher.left <= i32::MAX
    &&& i32::MIN <= (launcher.right - launcher.left) * 75 <= i32::MAX
    &&& i32::MIN <= launcher.right - 7
    &&& i32::MIN <= launcher.bottom - launcher.top <= i32::MAX
}

/// Where a task's new console goes: just right of the launcher, as high as it
/// and three quarters as wide; only a window wider than 200 pixels is taken
/// for the console.
pub open spec fn console_place(launcher: Rect, console: Rect) -> Option<Placement> {
    if console.right - console.left > 200 {
        Some(
            Placement {
                x: (launcher.right - 7) as i32,
                y: launcher.top,
                width: div_toward_zero((launcher.right - launcher.left) * 75, 100) as i32,
                height: (launcher.bottom - launcher.top) as i32,
            },
        )
    } else {
        None
    }
}

/// Whether the window in front can be a task's new console: a window, and
/// not the launcher's own.
pub fn is_new_console_window(hwnd: isize, launcher: isize) -> (r: bool)
    ensures
        r == (hwnd != 0 && hwnd != launcher),
{
    hwnd != 0 && hwnd != launcher
}

/// Whether `console_placement` can compute a placement for these rectangles
/// within `i32` (the arithmetic the launcher does on them would overflow otherwise).
pub fn placement_computable(launcher: Rect, console: Rect) -> (r: bool)
    ensures
        r == (i32::MIN <= console.right - console.left <= i32::MAX && (console.right - console.left
            > 200 ==> placement_fits(launcher))),
{
    let min = i32::MIN as i64;
    let max = i32::MAX as i64;
    let w = console.right as i64 - console.left as i64;
    if w < min || w > max {
        return false;
    }
    if w <= 200 {
        return true;
    }
    let cs_w = launcher.right as i64 - launcher.left as i64;
    let cs_h = launcher.bottom as i64 - launcher.top as i64;
    let x = launcher.right as i64 - 7;
    min <= cs_w && cs_w <= max && min <= cs_w * 75 && cs_w * 75 <= max && min <= x && min <= cs_h
        && cs_h <= max
}

/// Where a task's new console goes, given the launcher's rectangle and that
/// of the window in front; `None` when that window is too narrow to be it.
pub fn console_placement(launcher: Rect, console: Rect) -> (r: Option<Placement>)
    requires
        i32::MIN <= console.right - console.left <= i32::MAX,
        console.right - console.left > 200 ==> placement_fits(launcher),
    ensures
        r == console_place(launcher, console),
{
    let w = console.right - console.left;
    if w > 200 {
        let cs_w = launcher.right - launcher.left;
        let cs_h = launcher.bottom - launcher.top;
        let scaled = cs_w * 75;
        let term_w: i32 = if scaled >= 0 {
            scaled / 100
        } else {
            let pos: i64 = -(scaled as i64);
            let q: i64 = pos / 100;
            (-q) as i32
        };
        Some(Placement { x: launcher.right - 7, y: launcher.top, width: term_w, height: cs_h })
    } else {
        None
    }
}

/// How many times a task's launch looks for its new console window.
pub const CONSOLE_POLL_ATTEMPTS: u32 = 40;

/// What a task's launch does after a look for its new console window.
#[derive(Debug, Clone, Copy, PartialEq, Eq, Structural)]
pub enum ConsoleStep {
    /// The window in front is the console: place it so.
    Place(Placement),
    /// Not yet: look again later.
    Wait,
    /// The last look found no console: leave it where it is.
    GiveUp,
}

/// What a task's launch does after look number `attempt` (counted from 1),
/// given the launcher's window and rectangle and the window in front with
/// its rectangle.
pub open spec fn console_next(
    attempt: u32,
    launcher: isize,
    launcher_rect: Rect,
    front: isize,
    front_rect: Rect,
) -> ConsoleStep {
    if front != 0 && front != launcher && console_place(launcher_rect, front_rect) is Some {
        ConsoleStep::Place(console_place(launcher_rect, front_rect)->Some_0)
    } else if attempt >= CONSOLE_POLL_ATTEMPTS {
        ConsoleStep::GiveUp
    } else {
        ConsoleStep::Wait
    }
}

/// What a task's launch does after look number `attempt` (counted from 1) for
/// its new console: place the window in front when it is a new console wide
/// enough to be it, else look again, up to the last look.
pub fn console_poll_step(
    attempt: u32,
    launcher: isize,
    launcher_rect: Rect,
    front: isize,
    front_rect: Rect,
) -> (r: ConsoleStep)
    requires
        front != 0 && front != launcher ==> i32::MIN <= front_rect.right - front_rect.left
            <= i32::MAX && (front_rect.right - front_rect.left > 200 ==> placement_fits(
            launcher_rect,
        )),
    ensures
        r == console_next(attempt, launcher, launcher_rect, front, front_rect),
{
    if is_new_console_window(front, launcher) {
        if let Some(p) = console_placement(launcher_rect, front_rect) {
            return ConsoleStep::Place(p);
        }
    }
    if attempt >= CONSOLE_POLL_ATTEMPTS {
        ConsoleStep::GiveUp
    } else {
        ConsoleStep::Wait
    }
}

/// A task's launch stops looking for its console by the last look.
pub proof fn law_console_poll_ends(
    attempt: u32,
    launcher: isize,
    launcher_rect: Rect,
    front: isize,
    front_rect: Rect,
)
    requires
        attempt >= CONSOLE_POLL_ATTEMPTS,
    ensures
        console_next(attempt, launcher, launcher_rect, front, front_rect) != ConsoleStep::Wait,
{
}

} // verus!
