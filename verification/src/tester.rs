//! The task tester: which tasks of a `tasks.json` it runs, the program line
//! it runs each with, and how it judges what a task printed.
use vstd::prelude::*;
use crate::json::{as_str, get_member, lemma_models_of, models_of, Json, JsonModel};
use crate::tasks::{substitute_workspace_folder, workspace_folder_var};
use crate::terminal::{all_streams, copy_strings, is_powershell, is_powershell_name};
use crate::title::views;
use crate::text::{
    chars_of, concat_str, contains, ends_with, ends_with_chars, eq_ignore_ascii_case,
    eq_ignore_ascii_case_chars, lowercase, owned, replace, slice_range, starts_with,
    starts_with_chars, str_contains, str_eq, string_of, to_lowercase,
};

verus! {

broadcast use vstd::string::group_string_axioms;

// ------------------------------------------------------------ program line

/// `echo` runs through `cmd /c`; any other command runs as it is.
pub open spec fn tester_command(cmd: Seq<char>, args: Seq<Seq<char>>) -> (Seq<char>, Seq<Seq<char>>) {
    if cmd == "echo"@ {
        ("cmd"@, seq!["/c"@, "echo"@] + args)
    } else {
        (cmd, args)
    }
}

/// Some argument before the last is `-File`, in any ASCII case.
pub open spec fn names_file_flag(a: Seq<Seq<char>>) -> bool {
    exists|i: int| 0 <= i < a.len() - 1 && eq_ignore_ascii_case(#[trigger] a[i], "-File"@)
}

/// A PowerShell script argument with all its output streams sent to standard
/// output; a script block keeps its closing brace last.
pub open spec fn with_all_streams(last: Seq<char>) -> Seq<char> {
    if ends_with(last, "}"@) {
        last.drop_last() + " *>&1 }"@
    } else {
        last + all_streams()
    }
}

/// The program and arguments the tester runs a task with.
pub open spec fn tester_line(cmd: Seq<char>, args: Seq<Seq<char>>) -> (Seq<char>, Seq<Seq<char>>) {
    let (exe, a) = tester_command(cmd, args);
    if is_powershell_name(exe) && a.len() > 0 {
        if !starts_with(a.last(), "-"@) && !names_file_flag(a) {
            (exe, a.update(a.len() - 1, with_all_streams(a.last())))
        } else {
            (exe, a)
        }
    } else if a.len() == 0 && contains(exe, " "@) {
        ("powershell"@, seq!["-NoProfile"@, "-Command"@, exe + all_streams()])
    } else {
        (exe, a)
    }
}

/// Whether some argument before the last is `-File`, in any ASCII case.
fn has_file_flag(a: &Vec<String>) -> (r: bool)
    ensures
        r == names_file_flag(views(a@)),
{
    let flag = chars_of("-File");
    let mut i: usize = 0;
    while a.len() > 0 && i < a.len() - 1
        invariant
            i <= a.len(),
            flag@ == "-File"@,
            forall|j: int| 0 <= j < i ==> !eq_ignore_ascii_case(#[trigger] views(a@)[j], "-File"@),
        decreases a.len() - i,
    {
        let c = chars_of(a[i].as_str());
        if eq_ignore_ascii_case_chars(c.as_slice(), flag.as_slice()) {
            assert(eq_ignore_ascii_case(views(a@)[i as int], "-File"@));
            return true;
        }
        i += 1;
    }
    false
}

/// `last` with all its output streams sent to standard output.
fn all_streams_arg(last: &str) -> (r: String)
    ensures
        r@ == with_all_streams(last@),
{
    let c = chars_of(last);
    let brace = chars_of("}");
    proof {
        reveal_strlit("}");
    }
    if ends_with_chars(c.as_slice(), brace.as_slice()) {
        let body = slice_range(c.as_slice(), 0, c.len() - 1);
        let head = string_of(body.as_slice());
        assert(body@ =~= last@.drop_last());
        concat_str(head.as_str(), " *>&1 }")
    } else {
        concat_str(last, " *>&1")
    }
}

/// The program and arguments the tester runs a task's command with.
pub fn tester_plan(cmd: &str, args: &Vec<String>) -> (r: (String, Vec<String>))
    ensures
        (r.0@, views(r.1@)) == tester_line(cmd@, views(args@)),
{
    let (exe, mut a) = if str_eq(cmd, "echo") {
        let mut v: Vec<String> = Vec::new();
        v.push(owned("/c"));
        v.push(owned("echo"));
        let ghost head = v@;
        let mut i: usize = 0;
        while i < args.len()
            invariant
                i <= args.len(),
                v@ == head + args@.take(i as int),
            decreases args.len() - i,
        {
            v.push(args[i].clone());
            assert(args@.take(i + 1) =~= args@.take(i as int).push(args@[i as int]));
            i += 1;
        }
        assert(args@.take(i as int) =~= args@);
        assert(views(v@) =~= seq!["/c"@, "echo"@] + views(args@));
        (owned("cmd"), v)
    } else {
        (owned(cmd), copy_strings(args))
    };
    let is_ps = is_powershell(exe.as_str());
    if is_ps && a.len() > 0 {
        let last = a.len() - 1;
        let dash = chars_of("-");
        let lc = chars_of(a[last].as_str());
        let last_is_flag = starts_with_chars(lc.as_slice(), dash.as_slice());
        let last_is_file = has_file_flag(&a);
        if !last_is_flag && !last_is_file {
            let s = all_streams_arg(a[last].as_str());
            let ghost before = a@;
            a.set(last, s);
            assert(views(a@) =~= views(before).update(
                last as int,
                with_all_streams(views(before).last()),
            ));
        }
        (exe, a)
    } else if a.len() == 0 && str_contains(exe.as_str(), " ") {
        let mut v: Vec<String> = Vec::new();
        v.push(owned("-NoProfile"));
        v.push(owned("-Command"));
        v.push(concat_str(exe.as_str(), " *>&1"));
        assert(views(v@) =~= seq!["-NoProfile"@, "-Command"@, exe@ + all_streams()]);
        (owned("powershell"), v)
    } else {
        (exe, a)
    }
}

// ----------------------------------------------------------------- judging

/// `miss` with `msg` added when `cond` fails.
pub open spec fn expect(miss: Seq<Seq<char>>, cond: bool, msg: Seq<char>) -> Seq<Seq<char>> {
    if cond {
        miss
    } else {
        miss.push(msg)
    }
}

/// What every task's output is checked for, whatever its type.
pub open spec fn common_misses(lo: Seq<char>, n: nat) -> Seq<Seq<char>> {
    let m0 = expect(
        Seq::empty(),
        !contains(lo, "parsererror"@) && !contains(lo, "terminatore mancante"@),
        "no-parse-error"@,
    );
    let m1 = expect(
        m0,
        !contains(lo, "percorso non valido"@) && !contains(lo, "non è un percorso valido"@),
        "no-bad-path"@,
    );
    let m2 = expect(m1, !contains(lo, "non riconosciuto come nome di cmdlet"@), "no-cmdlet-err"@);
    expect(m2, n > 20, "has-output"@)
}

/// The checks that `output` failed for a task of type `task_type`, in order;
/// `lo` is the lowercase output and `n` its length in bytes (`str::len`).
pub open spec fn misses(lo: Seq<char>, n: nat, task_type: Seq<char>) -> Seq<Seq<char>> {
    let m = common_misses(lo, n);
    if task_type == "sync"@ {
        expect(
            expect(m, contains(lo, "[ok]"@), "has-[OK]"@),
            contains(lo, "[1/"@) || contains(lo, "[2/"@),
            "has-progress"@,
        )
    } else if task_type == "push"@ {
        expect(expect(m, contains(lo, "push"@), "has-push"@), contains(lo, "[ok]"@), "has-[OK]"@)
    } else if task_type == "upload"@ {
        expect(
            expect(m, contains(lo, "[upload]"@), "has-[UPLOAD]"@),
            contains(lo, "[ok]"@),
            "has-[OK]"@,
        )
    } else if task_type == "live-server"@ {
        expect(m, n > 80, "has-output"@)
    } else if task_type == "php-server"@ {
        expect(m, contains(lo, "started"@) || contains(lo, "listening"@), "has-started"@)
    } else if task_type == "npm"@ {
        expect(m, contains(lo, "npm"@) || contains(lo, "node"@), "has-node"@)
    } else if task_type == "ftp-mount"@ {
        expect(m, contains(lo, "[ok]"@) || n > 100, "has-output"@)
    } else {
        expect(m, n > 40, "has-output"@)
    }
}

/// A task passes only when its output has more than 20 bytes and shows none
/// of the known error messages, whatever its type.
pub proof fn law_passing_output(lo: Seq<char>, n: nat, task_type: Seq<char>)
    requires
        misses(lo, n, task_type).len() == 0,
    ensures
        n > 20,
        !contains(lo, "parsererror"@),
        !contains(lo, "terminatore mancante"@),
        !contains(lo, "percorso non valido"@),
        !contains(lo, "non è un percorso valido"@),
        !contains(lo, "non riconosciuto come nome di cmdlet"@),
{
    let m = common_misses(lo, n);
    assert(misses(lo, n, task_type).len() >= m.len());
    assert(m.len() == 0);
}

/// The views of a list of static texts.
pub open spec fn static_views(v: Seq<&'static str>) -> Seq<Seq<char>> {
    v.map_values(|s: &'static str| s@)
}

/// Adds `msg` to `miss` when `cond` fails.
fn expect_exec(miss: &mut Vec<&'static str>, cond: bool, msg: &'static str)
    ensures
        static_views(final(miss)@) == expect(static_views(old(miss)@), cond, msg@),
{
    if !cond {
        let ghost before = miss@;
        miss.push(msg);
        assert(static_views(miss@) =~= static_views(before).push(msg@));
    }
}

/// The checks that a task's output failed, from its lowercase text `lo` and
/// its length `n` in bytes, for a task of type `task_type`: the names of the
/// missing signs of success, in order; none when the task looks fine.
pub fn judge_output(lo: &str, n: usize, task_type: &str) -> (r: Vec<&'static str>)
    ensures
        static_views(r@) == misses(lo@, n as nat, task_type@),
{
    let l = lo;
    let mut miss: Vec<&'static str> = Vec::new();
    assert(static_views(miss@) =~= Seq::empty());
    expect_exec(
        &mut miss,
        !str_contains(l, "parsererror") && !str_contains(l, "terminatore mancante"),
        "no-parse-error",
    );
    expect_exec(
        &mut miss,
        !str_contains(l, "percorso non valido") && !str_contains(l, "non è un percorso valido"),
        "no-bad-path",
    );
    expect_exec(&mut miss, !str_contains(l, "non riconosciuto come nome di cmdlet"), "no-cmdlet-err");
    expect_exec(&mut miss, n > 20, "has-output");
    if str_eq(task_type, "sync") {
        expect_exec(&mut miss, str_contains(l, "[ok]"), "has-[OK]");
        expect_exec(&mut miss, str_contains(l, "[1/") || str_contains(l, "[2/"), "has-progress");
    } else if str_eq(task_type, "push") {
        expect_exec(&mut miss, str_contains(l, "push"), "has-push");
        expect_exec(&mut miss, str_contains(l, "[ok]"), "has-[OK]");
    } else if str_eq(task_type, "upload") {
        expect_exec(&mut miss, str_contains(l, "[upload]"), "has-[UPLOAD]");
        expect_exec(&mut miss, str_contains(l, "[ok]"), "has-[OK]");
    } else if str_eq(task_type, "live-server") {
        expect_exec(&mut miss, n > 80, "has-output");
    } else if str_eq(task_type, "php-server") {
        expect_exec(&mut miss, str_contains(l, "started") || str_contains(l, "listening"), "has-started");
    } else if str_eq(task_type, "npm") {
        expect_exec(&mut miss, str_contains(l, "npm") || str_contains(l, "node"), "has-node");
    } else if str_eq(task_type, "ftp-mount") {
        expect_exec(&mut miss, str_contains(l, "[ok]") || n > 100, "has-output");
    } else {
        expect_exec(&mut miss, n > 40, "has-output");
    }
    miss
}

/// The checks that the output of a task failed: the names of the missing
/// signs of success, in order; none when the task looks fine.
pub fn check(_label: &str, output: &str, task_type: &str) -> (r: Vec<&'static str>)
    ensures
        static_views(r@) == misses(lowercase(output@), output.len() as nat, task_type@),
{
    let lo = to_lowercase(output);
    judge_output(lo.as_str(), output.len(), task_type)
}

// -------------------------------------------------------------- the tasks

/// A task as the tester runs it.
#[derive(Debug, Clone, PartialEq, Eq)]
pub struct TesterTask {
    pub label: String,
    pub command: String,
    pub args: Vec<String>,
    pub task_type: String,
    pub cwd: Option<String>,
}

/// The text of member `key` of `j`, when it is a string.
pub open spec fn text_at(j: JsonModel, key: Seq<char>) -> Option<Seq<char>> {
    match j.get(key) {
        Some(JsonModel::Str(s)) => Some(s),
        _ => None,
    }
}

/// The text, or `d` when there is none.
pub open spec fn or_text(o: Option<Seq<char>>, d: Seq<char>) -> Seq<char> {
    match o {
        Some(s) => s,
        None => d,
    }
}

/// The texts among the items, in order.
pub open spec fn texts_of(items: Seq<JsonModel>) -> Seq<Seq<char>>
    decreases items.len(),
{
    if items.len() == 0 {
        Seq::empty()
    } else {
        match items.last() {
            JsonModel::Str(s) => texts_of(items.drop_last()).push(s),
            _ => texts_of(items.drop_last()),
        }
    }
}

/// The label of a task, `?` when it has none.
pub open spec fn tester_label(t: JsonModel) -> Seq<char> {
    or_text(text_at(t, "label"@), "?"@)
}

/// The tester skips the task that starts the launcher itself.
pub open spec fn is_tested(t: JsonModel) -> bool {
    !contains(tester_label(t), "Avvia CodeSpace"@)
}

/// The tasks the tester runs, in file order.
pub open spec fn tested_tasks(ts: Seq<JsonModel>) -> Seq<JsonModel>
    decreases ts.len(),
{
    if ts.len() == 0 {
        ts
    } else if is_tested(ts.last()) {
        tested_tasks(ts.drop_last()).push(ts.last())
    } else {
        tested_tasks(ts.drop_last())
    }
}

/// The task list of a `tasks.json` document, empty when it has none.
pub open spec fn task_list(doc: JsonModel) -> Seq<JsonModel> {
    match doc.get("tasks"@) {
        Some(JsonModel::Array(ts)) => ts,
        _ => Seq::empty(),
    }
}

/// The task type the tester judges a task by, `default` when it has none.
pub open spec fn tester_task_type(t: JsonModel) -> Seq<char> {
    match t.get("codeSpace"@) {
        Some(cs) => or_text(text_at(cs, "taskType"@), "default"@),
        None => "default"@,
    }
}

/// The directory a task runs in: none when it names none (or an empty one).
pub open spec fn tester_cwd(t: JsonModel, ws: Seq<char>) -> Option<Seq<char>> {
    let raw = match t.get("options"@) {
        Some(o) => or_text(text_at(o, "cwd"@), Seq::empty()),
        None => Seq::empty(),
    };
    if raw.len() == 0 {
        None
    } else {
        Some(replace(raw, workspace_folder_var(), ws))
    }
}

/// `e` is how the tester runs task `t` of the project at `ws`.
pub open spec fn describes_tester_task(e: TesterTask, t: JsonModel, ws: Seq<char>) -> bool {
    &&& e.label@ == tester_label(t)
    &&& e.command@ == or_text(text_at(t, "command"@), Seq::empty())
    &&& views(e.args@) == match t.get("args"@) {
        Some(JsonModel::Array(items)) => texts_of(items),
        _ => Seq::empty(),
    }
    &&& e.task_type@ == tester_task_type(t)
    &&& match e.cwd {
        Some(c) => tester_cwd(t, ws) == Some(c@),
        None => tester_cwd(t, ws) is None,
    }
}

/// The text of member `key` of `j`, when it is a string.
fn text_member<'a>(j: &'a Json, key: &str) -> (r: Option<&'a String>)
    ensures
        match r {
            Some(s) => text_at(j.model(), key@) == Some(s@),
            None => text_at(j.model(), key@) is None,
        },
{
    match get_member(j, key) {
        Some(v) => as_str(v),
        None => None,
    }
}

/// The text of member `key` of `j`, or `d`.
fn text_member_or(j: &Json, key: &str, d: &str) -> (r: String)
    ensures
        r@ == or_text(text_at(j.model(), key@), d@),
{
    match text_member(j, key) {
        Some(s) => s.clone(),
        None => owned(d),
    }
}

/// The texts among the items, in order.
fn texts_in(items: &Vec<Json>) -> (r: Vec<String>)
    ensures
        views(r@) == texts_of(models_of(items@)),
{
    proof {
        lemma_models_of(items@);
    }
    let mut r: Vec<String> = Vec::new();
    let mut i: usize = 0;
    while i < items.len()
        invariant
            i <= items.len(),
            models_of(items@).len() == items@.len(),
            forall|j: int| 0 <= j < items@.len() ==> #[trigger] models_of(items@)[j] == items@[j].model(),
            views(r@) == texts_of(models_of(items@).take(i as int)),
        decreases items.len() - i,
    {
        assert(models_of(items@).take(i + 1).drop_last() =~= models_of(items@).take(i as int));
        assert(models_of(items@).take(i + 1).last() == items@[i as int].model());
        match &items[i] {
            Json::Str(s) => {
                let ghost before = r@;
                r.push(s.clone());
                assert(views(r@) =~= views(before).push(s@));
            },
            _ => {},
        }
        i += 1;
    }
    assert(models_of(items@).take(i as int) =~= models_of(items@));
    r
}

/// How the tester runs one task of the project at `ws`.
fn tester_task(t: &Json, ws: &str) -> (e: TesterTask)
    ensures
        describes_tester_task(e, t.model(), ws@),
{
    proof {
        reveal_strlit("");
        assert(""@ =~= Seq::<char>::empty());
    }
    let label = text_member_or(t, "label", "?");
    let command = text_member_or(t, "command", "");
    let args = match get_member(t, "args") {
        Some(Json::Array(items)) => texts_in(items),
        _ => {
            let v: Vec<String> = Vec::new();
            assert(views(v@) =~= Seq::empty());
            v
        },
    };
    let task_type = match get_member(t, "codeSpace") {
        Some(cs) => text_member_or(cs, "taskType", "default"),
        None => owned("default"),
    };
    let raw = match get_member(t, "options") {
        Some(o) => text_member_or(o, "cwd", ""),
        None => owned(""),
    };
    let cwd = if raw.as_str().is_empty() {
        None
    } else {
        Some(substitute_workspace_folder(raw.as_str(), ws))
    };
    TesterTask { label, command, args, task_type, cwd }
}

/// The tasks of a `tasks.json` document that the tester runs, in file order,
/// for the project at `ws`: all but the one that starts the launcher itself.
pub fn tester_tasks(doc: &Json, ws: &str) -> (r: Vec<TesterTask>)
    ensures
        r@.len() == tested_tasks(task_list(doc.model())).len(),
        forall|i: int|
            0 <= i < r@.len() ==> describes_tester_task(
                #[trigger] r@[i],
                tested_tasks(task_list(doc.model()))[i],
                ws@,
            ),
{
    let mut r: Vec<TesterTask> = Vec::new();
    let ts = match get_member(doc, "tasks") {
        Some(Json::Array(ts)) => ts,
        _ => {
            assert(task_list(doc.model()) =~= Seq::empty());
            return r;
        },
    };
    proof {
        lemma_models_of(ts@);
    }
    let ghost all = models_of(ts@);
    let mut i: usize = 0;
    while i < ts.len()
        invariant
            i <= ts.len(),
            all == task_list(doc.model()),
            all == models_of(ts@),
            all.len() == ts@.len(),
            forall|j: int| 0 <= j < ts@.len() ==> #[trigger] all[j] == ts@[j].model(),
            r@.len() == tested_tasks(all.take(i as int)).len(),
            forall|k: int|
                0 <= k < r@.len() ==> describes_tester_task(
                    #[trigger] r@[k],
                    tested_tasks(all.take(i as int))[k],
                    ws@,
                ),
        decreases ts.len() - i,
    {
        assert(all.take(i + 1).drop_last() =~= all.take(i as int));
        assert(all.take(i + 1).last() == ts@[i as int].model());
        let label = text_member_or(&ts[i], "label", "?");
        if !str_contains(label.as_str(), "Avvia CodeSpace") {
            let e = tester_task(&ts[i], ws);
            r.push(e);
        }
        i += 1;
    }
    assert(all.take(i as int) =~= all);
    r
}

// ---------------------------------------------------------------- reading

/// How long the tester waits for the next line of output, in milliseconds.
pub const READ_WAIT_MS: u64 = 300;

/// How long the tester lets a task run before it stops reading, in seconds.
pub const READ_LIMIT_SECS: u64 = 6;

/// What a wait for a task's next line of output ended with.
#[derive(Debug, Clone, Copy, PartialEq, Eq, Structural)]
pub enum ReadEvent {
    /// A line came.
    Line,
    /// No line came within the wait.
    Quiet,
    /// Both output streams are closed.
    Closed,
}

/// Whether the tester goes on reading a task's output after `event`: after
/// a line, yes; after a quiet wait, while the task still runs and its time
/// is not up; once the output is closed, no.
pub fn keep_reading(event: ReadEvent, task_exited: bool, time_up: bool) -> (r: bool)
    ensures
        r == match event {
            ReadEvent::Line => true,
            ReadEvent::Quiet => !task_exited && !time_up,
            ReadEvent::Closed => false,
        },
{
    match event {
        ReadEvent::Line => true,
        ReadEvent::Quiet => !task_exited && !time_up,
        ReadEvent::Closed => false,
    }
}

} // verus!
