//! What the launcher's commands compute around their I/O: the console a task
//! runs in, the file of a new workspace, the summary of the scan cache, and
//! the script that installs an update.
use vstd::prelude::*;
use crate::json::{
    lemma_members_model, lemma_members_model_ext, lemma_models_of_ext, number_from_u64,
    number_of_u64, pretty_json, Json, JsonModel,
};
use crate::jsonc::workspace_json_text;
use crate::terminal::copy_strings;
use crate::text::{concat_str, contains, owned, str_contains};
use crate::title::views;
use crate::workspace::Cache;

verus! {

broadcast use vstd::string::group_string_axioms;

/// The program and arguments of the console a task runs in: a bare command
/// line with spaces runs in PowerShell, anything else in `cmd`; either way the
/// console stays open when the command ends.
pub open spec fn task_console_line(command: Seq<char>, args: Seq<Seq<char>>) -> (
    Seq<char>,
    Seq<Seq<char>>,
) {
    if args.len() == 0 && contains(command, " "@) {
        ("powershell"@, seq!["-NoExit"@, "-Command"@, command])
    } else {
        ("cmd"@, seq!["/k"@, command] + args)
    }
}

/// A command without a space runs in `cmd /k` with its arguments, whatever
/// they are; so does any command with arguments. Only an argument-less
/// command line with a space runs in PowerShell.
pub proof fn law_task_console_program(command: Seq<char>, args: Seq<Seq<char>>)
    ensures
        !contains(command, " "@) || args.len() > 0 ==> task_console_line(command, args) == (
            "cmd"@,
            seq!["/k"@, command] + args,
        ),
        contains(command, " "@) && args.len() == 0 ==> task_console_line(command, args) == (
            "powershell"@,
            seq!["-NoExit"@, "-Command"@, command],
        ),
{
}

/// The program and arguments of the console that runs a task.
pub fn task_launch_plan(command: &str, args: &Vec<String>) -> (r: (String, Vec<String>))
    ensures
        (r.0@, views(r.1@)) == task_console_line(command@, views(args@)),
{
    if args.len() == 0 && str_contains(command, " ") {
        let mut v: Vec<String> = Vec::new();
        v.push(owned("-NoExit"));
        v.push(owned("-Command"));
        v.push(owned(command));
        assert(views(v@) =~= seq!["-NoExit"@, "-Command"@, command@]);
        (owned("powershell"), v)
    } else {
        let mut v: Vec<String> = Vec::new();
        v.push(owned("/k"));
        v.push(owned(command));
        let mut rest = copy_strings(args);
        v.append(&mut rest);
        assert(views(v@) =~= seq!["/k"@, command@] + views(args@));
        (owned("cmd"), v)
    }
}

// ------------------------------------------------------------ new workspace

/// The document of a new workspace: the folder it sits in, and no settings.
pub open spec fn new_workspace_model() -> JsonModel {
    JsonModel::Object(
        seq![
            ("folders"@, JsonModel::Array(seq![JsonModel::Object(seq![("path"@, JsonModel::Str("."@))])])),
            ("settings"@, JsonModel::Object(Seq::empty())),
        ],
    )
}

/// The document of a new workspace: `{"folders": [{"path": "."}], "settings": {}}`.
pub fn new_workspace_document() -> (j: Json)
    ensures
        j.model() == new_workspace_model(),
{
    let folder = Json::Object(vec![(owned("path"), Json::Str(owned(".")))]);
    proof {
        lemma_members_model_ext(
            folder->Object_0@,
            seq![("path"@, JsonModel::Str("."@))],
        );
    }
    let folders = Json::Array(vec![folder]);
    proof {
        lemma_models_of_ext(
            folders->Array_0@,
            seq![JsonModel::Object(seq![("path"@, JsonModel::Str("."@))])],
        );
    }
    let settings = Json::Object(Vec::new());
    proof {
        lemma_members_model_ext(settings->Object_0@, Seq::empty());
    }
    let doc = Json::Object(vec![(owned("folders"), folders), (owned("settings"), settings)]);
    proof {
        lemma_members_model_ext(
            doc->Object_0@,
            seq![
                ("folders"@, JsonModel::Array(seq![JsonModel::Object(seq![("path"@, JsonModel::Str("."@))])])),
                ("settings"@, JsonModel::Object(Seq::empty())),
            ],
        );
    }
    doc
}

/// The text of a new workspace file, or `Cannot serialize: <error>`.
pub fn new_workspace_text() -> (r: Result<String, String>)
    ensures
        match pretty_json(new_workspace_model()) {
            Ok(t) => r matches Ok(x) && x@ == t,
            Err(e) => r matches Err(m) && m@ == "Cannot serialize: "@ + e,
        },
{
    let doc = new_workspace_document();
    workspace_json_text(&doc)
}

/// The file name of a new workspace in a folder: the folder's name (or
/// `workspace` when it has none) with the `.code-workspace` extension.
pub fn new_workspace_file_name(folder_name: Option<&str>) -> (r: String)
    ensures
        r@ == match folder_name {
            Some(n) => n@,
            None => "workspace"@,
        } + ".code-workspace"@,
{
    match folder_name {
        Some(n) => concat_str(n, ".code-workspace"),
        None => concat_str("workspace", ".code-workspace"),
    }
}

// --------------------------------------------------------------- scan info

/// The summary of the scan cache: whether there is one, how many workspaces
/// it remembers and when it was made (nothing, 0 and 0 without a cache).
pub open spec fn scan_info_model(cache: Option<Cache>) -> JsonModel {
    match cache {
        Some(c) => JsonModel::Object(
            seq![
                ("count"@, JsonModel::Number(number_of_u64(c.entries@.len() as u64))),
                ("has_cache"@, JsonModel::Bool(true)),
                ("last_scan"@, JsonModel::Number(number_of_u64(c.last_scan))),
            ],
        ),
        None => JsonModel::Object(
            seq![
                ("count"@, JsonModel::Number(number_of_u64(0))),
                ("has_cache"@, JsonModel::Bool(false)),
                ("last_scan"@, JsonModel::Number(number_of_u64(0))),
            ],
        ),
    }
}

/// The summary of the scan cache that the launcher shows.
pub fn scan_info(cache: &Option<Cache>) -> (j: Json)
    ensures
        j.model() == scan_info_model(*cache),
{
    let (has, count, last) = match cache {
        Some(c) => (true, c.entries.len() as u64, c.last_scan),
        None => (false, 0u64, 0u64),
    };
    let doc = Json::Object(
        vec![
            (owned("count"), Json::Number(number_from_u64(count))),
            (owned("has_cache"), Json::Bool(has)),
            (owned("last_scan"), Json::Number(number_from_u64(last))),
        ],
    );
    proof {
        lemma_members_model(doc->Object_0@);
        match scan_info_model(*cache) {
            JsonModel::Object(ms) => {
                lemma_members_model_ext(doc->Object_0@, ms);
            },
            _ => {},
        }
    }
    doc
}

// ------------------------------------------------------------------ update

/// The script that replaces the running program `current` by the downloaded
/// `new_exe`, starts it again and deletes itself.
pub open spec fn update_script_text(current: Seq<char>, new_exe: Seq<char>) -> Seq<char> {
    "@echo off\r\ntimeout /t 2 /nobreak >nul\r\ndel /f \""@ + current + "\"\r\nmove /y \""@ + new_exe
        + "\" \""@ + current + "\"\r\nstart \"\" \""@ + current + "\"\r\ndel /f \"%~f0\"\r\n"@
}

/// The script that installs a downloaded update.
pub fn update_script(current: &str, new_exe: &str) -> (r: String)
    ensures
        r@ == update_script_text(current@, new_exe@),
{
    let s = concat_str("@echo off\r\ntimeout /t 2 /nobreak >nul\r\ndel /f \"", current);
    let s = concat_str(s.as_str(), "\"\r\nmove /y \"");
    let s = concat_str(s.as_str(), new_exe);
    let s = concat_str(s.as_str(), "\" \"");
    let s = concat_str(s.as_str(), current);
    let s = concat_str(s.as_str(), "\"\r\nstart \"\" \"");
    let s = concat_str(s.as_str(), current);
    concat_str(s.as_str(), "\"\r\ndel /f \"%~f0\"\r\n")
}

} // verus!
