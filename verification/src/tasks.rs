//! The tasks of a workspace's `.vscode/tasks.json` that the launcher offers.
use vstd::prelude::*;
use crate::json::{get_member, lemma_models_of, Json, JsonModel};
use crate::text::{chars_of, ends_with, owned, replace, replace_chars, starts_with, str_eq, string_of};

verus! {

broadcast use vstd::string::group_string_axioms;

/// Icon of a live server task (Lucide SVG path, 24x24 viewBox, stroke-based).
pub const ICON_LIVE_SERVER: &'static str = "M6.34277267,4.93867691 C6.73329697,5.3292012 6.73329697,5.96236618 6.34277267,6.35289047 C3.21757171,9.47809143 3.21757171,14.5450433 6.34277267,17.6702443 C6.73329697,18.0607686 6.73329697,18.6939336 6.34277267,19.0844579 C5.95224838,19.4749821 5.3190834,19.4749821 4.92855911,19.0844579 C1.02230957,15.1782083 1.02230957,8.84492646 4.92855911,4.93867691 C5.3190834,4.54815262 5.95224838,4.54815262 6.34277267,4.93867691 Z M19.0743401,4.93867691 C22.9805896,8.84492646 22.9805896,15.1782083 19.0743401,19.0844579 C18.6838158,19.4749821 18.0506508,19.4749821 17.6601265,19.0844579 C17.2696022,18.6939336 17.2696022,18.0607686 17.6601265,17.6702443 C20.7853275,14.5450433 20.7853275,9.47809143 17.6601265,6.35289047 C17.2696022,5.96236618 17.2696022,5.3292012 17.6601265,4.93867691 C18.0506508,4.54815262 18.6838158,4.54815262 19.0743401,4.93867691 Z M9.3094225,7.81205295 C9.69994679,8.20257725 9.69994679,8.83574222 9.3094225,9.22626652 C7.77845993,10.7572291 7.77845993,13.2394099 9.3094225,14.7703724 C9.69994679,15.1608967 9.69994679,15.7940617 9.3094225,16.184586 C8.91889821,16.5751103 8.28573323,16.5751103 7.89520894,16.184586 C5.58319778,13.8725748 5.58319778,10.1240641 7.89520894,7.81205295 C8.28573323,7.42152866 8.91889821,7.42152866 9.3094225,7.81205295 Z M16.267742,7.81205295 C18.5797531,10.1240641 18.5797531,13.8725748 16.267742,16.184586 C15.8772177,16.5751103 15.2440527,16.5751103 14.8535284,16.184586 C14.4630041,15.7940617 14.4630041,15.1608967 14.8535284,14.7703724 C16.384491,13.2394099 16.384491,10.7572291 14.8535284,9.22626652 C14.4630041,8.83574222 14.4630041,8.20257725 14.8535284,7.81205295 C15.2440527,7.42152866 15.8772177,7.42152866 16.267742,7.81205295 Z M12.0814755,10.5814755 C12.9099026,10.5814755 13.5814755,11.2530483 13.5814755,12.0814755 C13.5814755,12.9099026 12.9099026,13.5814755 12.0814755,13.5814755 C11.2530483,13.5814755 10.5814755,12.9099026 10.5814755,12.0814755 C10.5814755,11.2530483 11.2530483,10.5814755 12.0814755,10.5814755 Z";
/// Icon of a PHP server task.
pub const ICON_PHP_SERVER: &'static str = "M12 2 2 7l10 5 10-5-10-5z M2 17l10 5 10-5 M2 12l10 5 10-5";
/// Icon of an npm task.
pub const ICON_NPM: &'static str = "M12 2l10 5v10l-10 5-10-5V7z M12 22V12 M4 7l8 4 8-4";
/// Icon of an echo task.
pub const ICON_ECHO: &'static str = "M4 6h16 M4 12h10 M4 18h8";
/// Icon of an FTP mount task: a drive.
pub const ICON_FTP_MOUNT: &'static str = "M22 12H2 M5.45 5.11 2 12v6a2 2 0 0 0 2 2h16a2 2 0 0 0 2-2v-6l-3.45-6.89A2 2 0 0 0 16.76 4H7.24a2 2 0 0 0-1.79 1.11z M6 16h.01 M10 16h.01";
/// Icon of an upload task: an arrow out of a tray.
pub const ICON_UPLOAD: &'static str = "M21 15v4a2 2 0 0 1-2 2H5a2 2 0 0 1-2-2v-4 M17 8l-5-5-5 5 M12 3v12";
/// Icon of an add-user task.
pub const ICON_ADD_USER: &'static str = "M12 12a5 5 0 1 0 0-10 5 5 0 0 0 0 10z M4 20c0-4.42 3.58-8 8-8s8 3.58 8 8";
/// Icon of a test task.
pub const ICON_TEST: &'static str = "M8 2v6a6 6 0 0 0 8 0V2 M6 14h12 M10 18h4";
/// Icon of a PowerShell task.
pub const ICON_POWERSHELL: &'static str = "M4 17l6-6-6-6 M12 19h8";
/// Icon of any other task: a generic double arrow.
pub const ICON_DEFAULT: &'static str = "M9 8L5 11.6923L9 16M15 8L19 11.6923L15 16";

/// The icon (an SVG path) for a task type.
pub open spec fn task_icon(task_type: Seq<char>) -> Seq<char> {
    if task_type == "live-server"@ {
        ICON_LIVE_SERVER@
    } else if task_type == "php-server"@ {
        ICON_PHP_SERVER@
    } else if task_type == "npm"@ {
        ICON_NPM@
    } else if task_type == "echo"@ {
        ICON_ECHO@
    } else if task_type == "ftp-mount"@ {
        ICON_FTP_MOUNT@
    } else if task_type == "upload"@ {
        ICON_UPLOAD@
    } else if task_type == "add-user"@ {
        ICON_ADD_USER@
    } else if task_type == "test"@ {
        ICON_TEST@
    } else if task_type == "powershell"@ {
        ICON_POWERSHELL@
    } else {
        ICON_DEFAULT@
    }
}

/// Icon mapping: task type → Lucide SVG path (24x24 viewBox, stroke-based).
pub fn get_task_icon(task_type: &str) -> (r: &'static str)
    ensures
        r@ == task_icon(task_type@),
{
    if str_eq(task_type, "live-server") {
        ICON_LIVE_SERVER
    } else if str_eq(task_type, "php-server") {
        ICON_PHP_SERVER
    } else if str_eq(task_type, "npm") {
        ICON_NPM
    } else if str_eq(task_type, "echo") {
        ICON_ECHO
    } else if str_eq(task_type, "ftp-mount") {
        ICON_FTP_MOUNT
    } else if str_eq(task_type, "upload") {
        ICON_UPLOAD
    } else if str_eq(task_type, "add-user") {
        ICON_ADD_USER
    } else if str_eq(task_type, "test") {
        ICON_TEST
    } else if str_eq(task_type, "powershell") {
        ICON_POWERSHELL
    } else {
        ICON_DEFAULT
    }
}


// ---------------------------------------------------------------- tasks.json

/// The `options` of a task in `tasks.json`.
#[derive(Debug, Clone, PartialEq, Eq)]
pub struct TaskOptions {
    pub cwd: Option<String>,
}

/// The launcher's own settings of a task (`codeSpace` in `tasks.json`).
#[derive(Debug, Clone, PartialEq, Eq)]
pub struct CodeSpaceSettings {
    /// `taskType`
    pub task_type: Option<String>,
    pub url: Option<String>,
    /// `confirmationRequest`
    pub confirmation_request: Option<bool>,
}

/// A task as `tasks.json` writes it.
#[derive(Debug, Clone, PartialEq, Eq)]
pub struct VsCodeTask {
    pub label: Option<String>,
    /// `type`
    pub task_type: Option<String>,
    pub command: Option<String>,
    pub args: Option<Vec<String>>,
    pub options: Option<TaskOptions>,
    /// `codeSpace`
    pub code_space: Option<CodeSpaceSettings>,
}

/// The content of `tasks.json`.
#[derive(Debug, Clone, PartialEq, Eq)]
pub struct TasksJson {
    pub tasks: Option<Vec<VsCodeTask>>,
}

/// A task the launcher can run.
#[derive(Debug, Clone, PartialEq, Eq)]
pub struct TaskInfo {
    pub label: String,
    pub command: String,
    pub args: Vec<String>,
    pub cwd: Option<String>,
    pub icon: String,
    pub task_type: String,
    pub url: Option<String>,
    pub confirm_before_run: Option<bool>,
}

/// The placeholder that a task's `cwd` may hold for the project folder.
pub open spec fn workspace_folder_var() -> Seq<char> {
    "${workspaceFolder}"@
}

/// A shell task with a label and a command: the tasks the launcher lists.
pub open spec fn is_listed_task(t: VsCodeTask) -> bool {
    &&& t.task_type matches Some(tt) && tt@ == "shell"@
    &&& t.label is Some
    &&& t.command is Some
}

/// The tasks that the launcher lists, in file order.
pub open spec fn listed_tasks(ts: Seq<VsCodeTask>) -> Seq<VsCodeTask>
    decreases ts.len(),
{
    if ts.len() == 0 {
        ts
    } else if is_listed_task(ts.last()) {
        listed_tasks(ts.drop_last()).push(ts.last())
    } else {
        listed_tasks(ts.drop_last())
    }
}

/// The launcher's task type of a task (`codeSpace.taskType`), empty by default.
pub open spec fn codespace_task_type(t: VsCodeTask) -> Seq<char> {
    match t.code_space {
        Some(cs) => match cs.task_type {
            Some(tt) => tt@,
            None => Seq::empty(),
        },
        None => Seq::empty(),
    }
}

/// `c` is how the launcher resolves a task's `cwd` `d` for the project at
/// `root`: with `${workspaceFolder}` replaced by the root, and, when that is a
/// relative path, joined onto the root. For a plainly relative directory (see
/// `plainly_relative`) and a root without a verbatim prefix, `c` starts with
/// the root and ends with the directory, with at most a separator between;
/// a directory that starts at the root (`/...`), with a root path without a
/// prefix, is taken as it is. (Which other directories are absolute, and the
/// separator, depend on the platform.)
pub open spec fn resolved_cwd(c: Seq<char>, d: Seq<char>, root: Seq<char>) -> bool {
    let s = replace(d, workspace_folder_var(), root);
    &&& plainly_relative(s) && !starts_with(root, "\\"@) ==> starts_with(c, root) && ends_with(c, s)
        && root.len() + s.len() <= c.len() <= root.len() + s.len() + 1
    &&& rooted(s) && without_prefix(root) ==> c == s
}

/// A task directory that starts at the root (as `/var/www/site` does, once
/// `${workspaceFolder}` is replaced) is used as it is, not replaced by or
/// joined onto the project root; a plainly relative one lies under the root.
pub proof fn law_task_cwd_kept_or_under_root(c: Seq<char>, d: Seq<char>, root: Seq<char>)
    requires
        resolved_cwd(c, d, root),
    ensures
        rooted(replace(d, workspace_folder_var(), root)) && without_prefix(root) ==> c == replace(
            d,
            workspace_folder_var(),
            root,
        ),
        plainly_relative(replace(d, workspace_folder_var(), root)) && !starts_with(root, "\\"@)
            ==> starts_with(c, root) && ends_with(c, replace(d, workspace_folder_var(), root)),
{
}

/// `info` is what the launcher lists for task `t` of the project at `root`.
pub open spec fn describes_task(info: TaskInfo, t: VsCodeTask, root: Seq<char>) -> bool {
    &&& t.label == Some(info.label)
    &&& t.command == Some(info.command)
    &&& info.args@ == match t.args {
        Some(a) => a@,
        None => Seq::empty(),
    }
    &&& info.task_type@ == codespace_task_type(t)
    &&& info.icon@ == task_icon(info.task_type@)
    &&& info.url == match t.code_space {
        Some(cs) => cs.url,
        None => None,
    }
    &&& info.confirm_before_run == match t.code_space {
        Some(cs) => cs.confirmation_request,
        None => None,
    }
    &&& match t.options {
        Some(o) => match o.cwd {
            Some(d) => info.cwd matches Some(c) && resolved_cwd(c@, d@, root),
            None => info.cwd matches Some(c) && c@ == root,
        },
        None => info.cwd matches Some(c) && c@ == root,
    }
}

/// A path that is relative on every platform: it starts with neither `/`
/// nor `\\` (no root) and has no `:` as its second character (no drive
/// prefix such as `C:`).
pub open spec fn plainly_relative(p: Seq<char>) -> bool {
    &&& !starts_with(p, "/"@)
    &&& !starts_with(p, "\\"@)
    &&& !(p.len() >= 2 && p[1] == ':')
}

/// `Path::new(p).is_relative()`: true for a path that is not absolute. An
/// absolute path has a root (on Windows also a prefix, which starts with
/// `\\` or is a drive letter and `:`), so a plainly relative path is
/// relative; which other paths are is a matter of the platform, and is not
/// stated.
#[verifier::external_body]
fn path_is_relative(p: &str) -> (r: bool)
    ensures
        plainly_relative(p@) ==> r,
{
    std::path::Path::new(p).is_relative()
}

/// A path without a prefix on every platform: it does not start with two
/// separators (`\\` or `/`, as a UNC or verbatim prefix does) and has no
/// `:` as its second character (as a drive prefix `C:` does).
pub open spec fn without_prefix(p: Seq<char>) -> bool {
    &&& !(p.len() >= 2 && (p[0] == '/' || p[0] == '\\') && (p[1] == '/' || p[1] == '\\'))
    &&& !(p.len() >= 2 && p[1] == ':')
}

/// A path that starts at the root: a single leading `/`.
pub open spec fn rooted(p: Seq<char>) -> bool {
    p.len() > 0 && p[0] == '/' && !(p.len() >= 2 && (p[1] == '/' || p[1] == '\\'))
}

/// `Path::new(base).join(p)`, as a string (lossily). Joining a relative
/// path (without root or prefix) extends `base` by it: the result starts
/// with `base` and ends with `p`, with at most the platform's separator
/// between them. Joining a path that starts at the root (`/...`) onto a
/// base without a prefix gives that path: it is absolute on Unix, so it
/// replaces the base, and on Windows a path with a root but no prefix
/// replaces everything but the base's prefix, which it has none of. The
/// separator, and what happens for other paths or for a `base` with a
/// verbatim prefix (`\\?\`), depend on the platform and are not stated.
#[verifier::external_body]
fn path_join(base: &str, p: &str) -> (r: String)
    ensures
        plainly_relative(p@) && !starts_with(base@, "\\"@) ==> starts_with(r@, base@) && ends_with(
            r@,
            p@,
        ) && base@.len() + p@.len() <= r@.len() <= base@.len() + p@.len() + 1,
        rooted(p@) && without_prefix(base@) ==> r@ == p@,
{
    std::path::Path::new(base).join(p).to_string_lossy().to_string()
}

/// A task directory with `${workspaceFolder}` replaced by the project root.
pub fn substitute_workspace_folder(dir: &str, root: &str) -> (r: String)
    ensures
        r@ == replace(dir@, workspace_folder_var(), root@),
{
    let d = chars_of(dir);
    let var = chars_of("${workspaceFolder}");
    let rt = chars_of(root);
    proof {
        reveal_strlit("${workspaceFolder}");
    }
    let out = replace_chars(d.as_slice(), var.as_slice(), rt.as_slice());
    string_of(out.as_slice())
}

/// The directory a task runs in: its `cwd` with `${workspaceFolder}`
/// replaced by the project root, taken as it is when that is an absolute
/// path, and joined onto the root when it is relative. A plainly relative
/// directory thus lies under the root: the result starts with the root and
/// ends with the directory. (Which other directories count as relative, and
/// the separator, depend on the platform.)
fn resolve_task_cwd(dir: &str, root: &str) -> (r: String)
    ensures
        resolved_cwd(r@, dir@, root@),
{
    let resolved = substitute_workspace_folder(dir, root);
    if path_is_relative(resolved.as_str()) {
        path_join(root, resolved.as_str())
    } else {
        resolved
    }
}

/// What the launcher lists for a listed task.
fn task_info(t: VsCodeTask, root: &str) -> (info: TaskInfo)
    requires
        is_listed_task(t),
    ensures
        describes_task(info, t, root@),
{
    let ghost t0 = t;
    let VsCodeTask { label, task_type: _, command, args, options, code_space } = t;
    let label = match label {
        Some(l) => l,
        None => String::new(),
    };
    let command = match command {
        Some(c) => c,
        None => String::new(),
    };
    let args = match args {
        Some(a) => a,
        None => Vec::new(),
    };
    let cwd = match options {
        Some(o) => match o.cwd {
            Some(d) => Some(resolve_task_cwd(d.as_str(), root)),
            None => Some(owned(root)),
        },
        None => Some(owned(root)),
    };
    let (ct, url, confirm) = match code_space {
        Some(cs) => (cs.task_type, cs.url, cs.confirmation_request),
        None => (None, None, None),
    };
    let task_type = match ct {
        Some(tt) => tt,
        None => String::new(),
    };
    let icon = owned(get_task_icon(task_type.as_str()));
    TaskInfo { label, command, args, cwd, icon, task_type, url, confirm_before_run: confirm }
}

/// The tasks the launcher offers for a project at `root`: the shell tasks of
/// its `tasks.json` that have a label and a command, in file order.
pub fn collect_tasks(tasks_json: TasksJson, root: &str) -> (r: Vec<TaskInfo>)
    ensures
        r@.len() == listed_tasks(
            match tasks_json.tasks {
                Some(ts) => ts@,
                None => Seq::empty(),
            },
        ).len(),
        forall|i: int|
            0 <= i < r@.len() ==> describes_task(
                #[trigger] r@[i],
                listed_tasks(
                    match tasks_json.tasks {
                        Some(ts) => ts@,
                        None => Seq::empty(),
                    },
                )[i],
                root@,
            ),
{
    let mut result: Vec<TaskInfo> = Vec::new();
    let mut rest = match tasks_json.tasks {
        Some(ts) => ts,
        None => Vec::new(),
    };
    let _ = rest.len();
    let ghost all = rest@;
    let mut i: usize = 0;
    while rest.len() > 0
        invariant
            rest@ == all.skip(i as int),
            i <= all.len(),
            all.len() <= usize::MAX,
            result@.len() == listed_tasks(all.take(i as int)).len(),
            forall|k: int|
                0 <= k < result@.len() ==> describes_task(
                    #[trigger] result@[k],
                    listed_tasks(all.take(i as int))[k],
                    root@,
                ),
        decreases rest.len(),
    {
        let t = rest.remove(0);
        assert(all.take(i + 1).drop_last() =~= all.take(i as int));
        assert(all.take(i + 1).last() == t);
        assert(rest@ =~= all.skip(i + 1));
        let listed = match &t.task_type {
            Some(tt) => str_eq(tt.as_str(), "shell") && t.label.is_some() && t.command.is_some(),
            None => false,
        };
        if listed {
            result.push(task_info(t, root));
        }
        i += 1;
    }
    assert(all.take(i as int) =~= all);
    result
}

/// The path of the first folder of a workspace document
/// (`folders[0].path`), when it is there and a string.
pub open spec fn first_folder(ws: JsonModel) -> Option<Seq<char>> {
    match ws.get("folders"@) {
        Some(JsonModel::Array(fs)) => if fs.len() > 0 {
            match fs[0].get("path"@) {
                Some(JsonModel::Str(p)) => Some(p),
                _ => None,
            }
        } else {
            None
        },
        _ => None,
    }
}

/// The path of the first folder of a workspace, which holds the project.
pub fn first_folder_path(ws_json: &Json) -> (r: Option<String>)
    ensures
        match r {
            Some(p) => first_folder(ws_json.model()) == Some(p@),
            None => first_folder(ws_json.model()) is None,
        },
{
    let folders = match get_member(ws_json, "folders") {
        Some(f) => f,
        None => return None,
    };
    match folders {
        Json::Array(fs) => {
            proof {
                lemma_models_of(fs@);
            }
            if fs.len() == 0 {
                return None;
            }
            match get_member(&fs[0], "path") {
                Some(Json::Str(p)) => Some(p.clone()),
                _ => None,
            }
        },
        _ => None,
    }
}

} // verus!
