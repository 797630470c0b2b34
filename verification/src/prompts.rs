//! The user's prompts folder (`%APPDATA%\Code\User\prompts`) as a folder of
//! a workspace.
use vstd::prelude::*;
use crate::color::can_hold_members;
use crate::json::{
    lemma_member_index_same_keys,
    get_member, lemma_member_index_from, lemma_members_model, lemma_members_model_ext,
    lemma_models_of, lemma_models_of_ext, member_index, member_position, members_model,
    models_of, parse_json, parsed_json, Json, JsonModel,
};
use crate::text::{concat_str, owned, str_eq};

verus! {

broadcast use vstd::string::group_string_axioms;

/// A folder entry named `prompts`.
pub open spec fn is_prompts_folder(f: JsonModel) -> bool {
    f.get("name"@) matches Some(JsonModel::Str(n)) && n == "prompts"@
}

/// The `folders` array of a workspace document, when it has one.
pub open spec fn folders_of(ws: JsonModel) -> Option<Seq<JsonModel>> {
    match ws.get("folders"@) {
        Some(JsonModel::Array(fs)) => Some(fs),
        _ => None,
    }
}

/// Some folder is the prompts folder.
pub open spec fn has_prompts(fs: Seq<JsonModel>) -> bool {
    exists|i: int| 0 <= i < fs.len() && is_prompts_folder(#[trigger] fs[i])
}

/// What `check_prompts_folder` answers for a workspace file's content.
pub open spec fn prompts_check(content: Seq<char>) -> Result<bool, Seq<char>> {
    match parsed_json(content) {
        Err(e) => Err("Invalid JSON: "@ + e),
        Ok(ws) => match folders_of(ws) {
            None => Err("No folders array"@),
            Some(fs) => Ok(has_prompts(fs)),
        },
    }
}

/// Whether a folder entry is the prompts folder.
fn is_prompts_folder_exec(f: &Json) -> (r: bool)
    ensures
        r == is_prompts_folder(f.model()),
{
    match get_member(f, "name") {
        Some(Json::Str(n)) => str_eq(n.as_str(), "prompts"),
        _ => false,
    }
}

/// The position of the first prompts folder.
pub open spec fn first_prompts_from(fs: Seq<JsonModel>, i: int) -> Option<int>
    decreases fs.len() - i,
{
    if i < 0 || i >= fs.len() {
        None
    } else if is_prompts_folder(fs[i]) {
        Some(i)
    } else {
        first_prompts_from(fs, i + 1)
    }
}

/// What `first_prompts_from` returns.
pub proof fn lemma_first_prompts_from(fs: Seq<JsonModel>, i: int)
    requires
        0 <= i,
    ensures
        first_prompts_from(fs, i) matches Some(k) ==> i <= k < fs.len() && is_prompts_folder(fs[k]),
        first_prompts_from(fs, i) is None ==> forall|j: int|
            i <= j < fs.len() ==> !is_prompts_folder(#[trigger] fs[j]),
    decreases fs.len() - i,
{
    if i < fs.len() && !is_prompts_folder(fs[i]) {
        lemma_first_prompts_from(fs, i + 1);
    }
}

/// The position of the first prompts folder among `fs`.
fn find_prompts(fs: &Vec<Json>) -> (r: Option<usize>)
    ensures
        match r {
            Some(k) => first_prompts_from(models_of(fs@), 0) == Some(k as int),
            None => first_prompts_from(models_of(fs@), 0) is None,
        },
{
    proof {
        lemma_models_of(fs@);
    }
    let mut i: usize = 0;
    while i < fs.len()
        invariant
            i <= fs.len(),
            models_of(fs@).len() == fs@.len(),
            forall|j: int| 0 <= j < fs@.len() ==> #[trigger] models_of(fs@)[j] == fs@[j].model(),
            first_prompts_from(models_of(fs@), 0) == first_prompts_from(models_of(fs@), i as int),
        decreases fs.len() - i,
    {
        if is_prompts_folder_exec(&fs[i]) {
            return Some(i);
        }
        i += 1;
    }
    None
}

/// The document of a workspace file's content, or the message
/// `Invalid JSON: <error>`.
pub fn parse_workspace_document(content: &str) -> (r: Result<Json, String>)
    ensures
        match parsed_json(content@) {
            Ok(ws) => r matches Ok(j) && j.model() == ws,
            Err(e) => r matches Err(m) && m@ == "Invalid JSON: "@ + e,
        },
{
    match parse_json(content) {
        Ok(j) => Ok(j),
        Err(e) => Err(concat_str("Invalid JSON: ", e.as_str())),
    }
}

/// Whether a workspace file's folders include the prompts folder; an error
/// when the content is not JSON or has no `folders` array.
pub fn check_prompts_folder(content: &str) -> (r: Result<bool, String>)
    ensures
        match prompts_check(content@) {
            Ok(b) => r == Ok::<bool, String>(b),
            Err(m) => r matches Err(x) && x@ == m,
        },
{
    let json = parse_workspace_document(content)?;
    let folders = match get_member(&json, "folders") {
        Some(Json::Array(fs)) => fs,
        _ => return Err(owned("No folders array")),
    };
    proof {
        lemma_models_of(folders@);
        lemma_first_prompts_from(models_of(folders@), 0);
    }
    let found = find_prompts(folders);
    proof {
        if found is None && has_prompts(models_of(folders@)) {
            let k = choose|k: int|
                0 <= k < models_of(folders@).len() && is_prompts_folder(
                    #[trigger] models_of(folders@)[k],
                );
            assert(!is_prompts_folder(models_of(folders@)[k]));
        }
    }
    Ok(found.is_some())
}

/// The folder entry added for the prompts folder at `path`.
pub open spec fn prompts_entry(path: Seq<char>) -> JsonModel {
    JsonModel::Object(seq![("name"@, JsonModel::Str("prompts"@)), ("path"@, JsonModel::Str(path))])
}

/// A workspace document after toggling its prompts folder, with the answer:
/// the first prompts folder removed (`false`), or one added at the end
/// (`true`); an error without a `folders` array (where keyed access has
/// then added `folders: null` to a document without one).
pub open spec fn toggled_prompts(ws: JsonModel, path: Seq<char>) -> (Result<bool, Seq<char>>, JsonModel) {
    let obj = match ws {
        JsonModel::Object(ms) => ms,
        _ => Seq::empty(),
    };
    match member_index(obj, "folders"@) {
        None => (Err("No folders array"@), JsonModel::Object(obj.push(("folders"@, JsonModel::Null)))),
        Some(i) => match obj[i].1 {
            JsonModel::Array(fs) => match first_prompts_from(fs, 0) {
                Some(k) => (
                    Ok(false),
                    JsonModel::Object(obj.update(i, (obj[i].0, JsonModel::Array(fs.remove(k))))),
                ),
                None => (
                    Ok(true),
                    JsonModel::Object(
                        obj.update(i, (obj[i].0, JsonModel::Array(fs.push(prompts_entry(path))))),
                    ),
                ),
            },
            _ => (Err("No folders array"@), ws),
        },
    }
}

/// The folder entry for the prompts folder at `path`.
fn prompts_entry_exec(path: &str) -> (j: Json)
    ensures
        j.model() == prompts_entry(path@),
{
    let mut ms: Vec<(String, Json)> = Vec::new();
    ms.push((owned("name"), Json::Str(owned("prompts"))));
    ms.push((owned("path"), Json::Str(owned(path))));
    proof {
        lemma_members_model_ext(
            ms@,
            seq![("name"@, JsonModel::Str("prompts"@)), ("path"@, JsonModel::Str(path@))],
        );
    }
    Json::Object(ms)
}

/// Adds the prompts folder at `prompts_path` to a workspace's folders, or
/// removes it when it is there; returns whether it is there afterwards.
pub fn toggle_prompts_folder(ws_json: &mut Json, prompts_path: &str) -> (r: Result<bool, String>)
    requires
        can_hold_members(old(ws_json).model()),
    ensures
        final(ws_json).model() == toggled_prompts(old(ws_json).model(), prompts_path@).1,
        match toggled_prompts(old(ws_json).model(), prompts_path@).0 {
            Ok(b) => r == Ok::<bool, String>(b),
            Err(m) => r matches Err(x) && x@ == m,
        },
{
    let mut taken = Json::Null;
    std::mem::swap(&mut taken, ws_json);
    let mut ms: Vec<(String, Json)> = match taken {
        Json::Object(ms) => ms,
        _ => Vec::new(),
    };
    let ghost m0 = members_model(ms@);
    proof {
        lemma_members_model(ms@);
        lemma_member_index_from(m0, "folders"@, 0);
    }
    match member_position(&ms, "folders") {
        None => {
            ms.push((owned("folders"), Json::Null));
            proof {
                lemma_members_model_ext(ms@, m0.push(("folders"@, JsonModel::Null)));
            }
            *ws_json = Json::Object(ms);
            Err(owned("No folders array"))
        },
        Some(i) => {
            let (k, v) = ms.remove(i);
            assert(v.model() == m0[i as int].1);
            match v {
                Json::Array(mut fs) => {
                    let ghost f0 = models_of(fs@);
                    proof {
                        lemma_models_of(fs@);
                        lemma_first_prompts_from(f0, 0);
                    }
                    let r = match find_prompts(&fs) {
                        Some(p) => {
                            fs.remove(p);
                            proof {
                                lemma_models_of_ext(fs@, f0.remove(p as int));
                            }
                            false
                        },
                        None => {
                            fs.push(prompts_entry_exec(prompts_path));
                            proof {
                                lemma_models_of_ext(fs@, f0.push(prompts_entry(prompts_path@)));
                            }
                            true
                        },
                    };
                    let ghost nm = JsonModel::Array(models_of(fs@));
                    ms.insert(i, (k, Json::Array(fs)));
                    proof {
                        lemma_members_model_ext(ms@, m0.update(i as int, (m0[i as int].0, nm)));
                    }
                    *ws_json = Json::Object(ms);
                    Ok(r)
                },
                other => {
                    let ghost om = other.model();
                    ms.insert(i, (k, other));
                    proof {
                        lemma_members_model_ext(ms@, m0);
                    }
                    *ws_json = Json::Object(ms);
                    Err(owned("No folders array"))
                },
            }
        },
    }
}

/// Whether keyed access can fill a value (an object, or `null`).
pub fn holds_members(j: &Json) -> (r: bool)
    ensures
        r == can_hold_members(j.model()),
{
    match j {
        Json::Null => true,
        Json::Object(_) => true,
        _ => false,
    }
}


/// The prompts folder entry is a prompts folder.
proof fn lemma_prompts_entry(path: Seq<char>)
    ensures
        is_prompts_folder(prompts_entry(path)),
{
    let ms = seq![("name"@, JsonModel::Str("prompts"@)), ("path"@, JsonModel::Str(path))];
    assert(member_index(ms, "name"@) == Some(0int));
}

/// Toggling answers whether the prompts folder is there afterwards: it is
/// exactly when it was not there before.
pub proof fn law_toggle_prompts_answer(ws: JsonModel, path: Seq<char>)
    requires
        folders_of(ws) is Some,
    ensures
        toggled_prompts(ws, path).0 == Ok::<bool, Seq<char>>(!has_prompts(folders_of(ws)->Some_0)),
{
    let ms = ws->Object_0;
    let fs = folders_of(ws)->Some_0;
    lemma_member_index_from(ms, "folders"@, 0);
    lemma_first_prompts_from(fs, 0);
}

/// Adding the prompts folder to a workspace without it and toggling again
/// gives the workspace back; in between, the workspace has it.
pub proof fn law_toggle_prompts_twice(ws: JsonModel, path: Seq<char>)
    requires
        folders_of(ws) is Some,
        !has_prompts(folders_of(ws)->Some_0),
    ensures
        folders_of(toggled_prompts(ws, path).1) is Some,
        has_prompts(folders_of(toggled_prompts(ws, path).1)->Some_0),
        toggled_prompts(toggled_prompts(ws, path).1, path) == (
            Ok::<bool, Seq<char>>(false),
            ws,
        ),
{
    let ms = ws->Object_0;
    let fs = folders_of(ws)->Some_0;
    lemma_member_index_from(ms, "folders"@, 0);
    lemma_first_prompts_from(fs, 0);
    let i = member_index(ms, "folders"@)->Some_0;
    let e = prompts_entry(path);
    let fs1 = fs.push(e);
    let ms1 = ms.update(i, (ms[i].0, JsonModel::Array(fs1)));
    assert(toggled_prompts(ws, path).1 == JsonModel::Object(ms1));
    lemma_member_index_same_keys(ms, ms1, "folders"@, 0);
    lemma_prompts_entry(path);
    assert(fs1[fs.len() as int] == e);
    lemma_first_prompts_from(fs1, 0);
    if first_prompts_from(fs1, 0) != Some(fs.len() as int) {
        let k = first_prompts_from(fs1, 0)->Some_0;
        if first_prompts_from(fs1, 0) is Some {
            assert(fs1[k] == fs[k]);
        }
    }
    assert(fs1.remove(fs.len() as int) =~= fs);
    assert(ms1.update(i, (ms1[i].0, JsonModel::Array(fs))) =~= ms);
}

/// At most one folder is the prompts folder.
pub open spec fn at_most_one_prompts(fs: Seq<JsonModel>) -> bool {
    forall|a: int, b: int|
        0 <= a < b < fs.len() && is_prompts_folder(#[trigger] fs[a]) ==> !is_prompts_folder(
            #[trigger] fs[b],
        )
}

/// A check right after a toggle answers what the toggle answered: the
/// prompts folder is there exactly when the toggle said so (for a workspace
/// with at most one prompts folder; a toggle removes only the first).
pub proof fn law_check_after_toggle(ws: JsonModel, path: Seq<char>)
    requires
        folders_of(ws) is Some,
        at_most_one_prompts(folders_of(ws)->Some_0),
    ensures
        toggled_prompts(ws, path).0 is Ok,
        folders_of(toggled_prompts(ws, path).1) is Some,
        has_prompts(folders_of(toggled_prompts(ws, path).1)->Some_0) == toggled_prompts(ws, path).0->Ok_0,
{
    let fs = folders_of(ws)->Some_0;
    law_toggle_prompts_answer(ws, path);
    if !has_prompts(fs) {
        law_toggle_prompts_twice(ws, path);
    } else {
        let ms = ws->Object_0;
        lemma_member_index_from(ms, "folders"@, 0);
        lemma_first_prompts_from(fs, 0);
        let i = member_index(ms, "folders"@)->Some_0;
        let k = first_prompts_from(fs, 0)->Some_0;
        let fs1 = fs.remove(k);
        let ms1 = ms.update(i, (ms[i].0, JsonModel::Array(fs1)));
        assert(toggled_prompts(ws, path).1 == JsonModel::Object(ms1));
        lemma_member_index_same_keys(ms, ms1, "folders"@, 0);
        assert(folders_of(JsonModel::Object(ms1)) == Some(fs1));
        assert forall|j: int| 0 <= j < fs1.len() implies !is_prompts_folder(#[trigger] fs1[j]) by {
            if j < k {
                assert(fs1[j] == fs[j]);
                if is_prompts_folder(fs[j]) {
                    assert(!is_prompts_folder(fs[k]));
                }
            } else {
                assert(fs1[j] == fs[j + 1]);
            }
        }
    }
}

} // verus!
