//! Workspaces found on disk, the scan cache, and the order the launcher
//! lists them in.
use vstd::prelude::*;
use crate::color::{read_workspace_color, workspace_color};
use crate::text::{
    chars_of, lemma_text_lt_irreflexive, lemma_text_lt_transitive, lowercase, string_of, text_less, text_lt, to_lowercase,
};
use crate::title::{contains_string, views};

verus! {

broadcast use vstd::string::group_string_axioms;

/// A `.code-workspace` file as the launcher lists it.
#[derive(Debug, Clone, PartialEq, Eq)]
pub struct WorkspaceInfo {
    pub path: String,
    pub name: String,
    pub display_path: String,
    pub color: Option<String>,
    pub is_open: bool,
}

/// A workspace remembered by the scan cache.
#[derive(Debug, Clone, PartialEq, Eq)]
pub struct CacheEntry {
    pub path: String,
    pub name: String,
    pub modified: u64,
}

/// The scan cache: the workspaces of the last scan and when it ran.
#[derive(Debug, Clone, PartialEq, Eq)]
pub struct Cache {
    pub entries: Vec<CacheEntry>,
    pub last_scan: u64,
}

/// The paths of a list of workspaces.
pub open spec fn paths_of(s: Seq<WorkspaceInfo>) -> Seq<Seq<char>> {
    s.map_values(|w: WorkspaceInfo| w.path@)
}

/// Whether `path` is the path of one of `ws`.
pub fn has_path(ws: &Vec<WorkspaceInfo>, path: &String) -> (r: bool)
    ensures
        r == paths_of(ws@).contains(path@),
{
    let mut i: usize = 0;
    while i < ws.len()
        invariant
            i <= ws.len(),
            forall|j: int| 0 <= j < i ==> ws@[j].path@ != path@,
        decreases ws.len() - i,
    {
        if ws[i].path == *path {
            assert(paths_of(ws@)[i as int] == path@);
            return true;
        }
        i += 1;
    }
    proof {
        if paths_of(ws@).contains(path@) {
            let k = choose|k: int| 0 <= k < paths_of(ws@).len() && paths_of(ws@)[k] == path@;
            assert(ws@[k].path@ == path@);
        }
    }
    false
}

// ------------------------------------------------------------------- scanning

/// The workspaces of `found` whose paths are not in `known`, in order.
pub open spec fn not_known(found: Seq<WorkspaceInfo>, known: Seq<Seq<char>>) -> Seq<WorkspaceInfo>
    decreases found.len(),
{
    if found.len() == 0 {
        found
    } else {
        let prev = not_known(found.drop_last(), known);
        if known.contains(found.last().path@) {
            prev
        } else {
            prev.push(found.last())
        }
    }
}

/// The result of a quick scan: the cached workspaces that still exist,
/// then the workspaces found near them whose paths are not among those.
pub fn merge_quick_scan(existing: Vec<WorkspaceInfo>, found: Vec<WorkspaceInfo>) -> (r: Vec<
    WorkspaceInfo,
>)
    ensures
        r@ == existing@ + not_known(found@, paths_of(existing@)),
{
    let mut r = existing;
    let n = r.len();
    let _ = found.len();
    let ghost known = paths_of(r@);
    let ghost base = r@;
    let mut rest = found;
    let ghost all = rest@;
    let mut i: usize = 0;
    while rest.len() > 0
        invariant
            known == paths_of(base),
            n == base.len(),
            rest@ == all.skip(i as int),
            i <= all.len(),
            all.len() <= usize::MAX,
            r@ == base + not_known(all.take(i as int), known),
            base.len() <= r@.len(),
            r@.take(base.len() as int) == base,
        decreases rest.len(),
    {
        let w = rest.remove(0);
        assert(all.take(i + 1).drop_last() =~= all.take(i as int));
        assert(all.take(i + 1).last() == w);
        assert(rest@ =~= all.skip(i + 1));
        let known_path = has_path_prefix(&r, n, &w.path);
        if !known_path {
            r.push(w);
        }
        i += 1;
    }
    assert(all.take(i as int) =~= all);
    r
}

/// Whether `path` is the path of one of the first `n` workspaces of `ws`.
fn has_path_prefix(ws: &Vec<WorkspaceInfo>, n: usize, path: &String) -> (r: bool)
    requires
        n <= ws.len(),
    ensures
        r == paths_of(ws@.take(n as int)).contains(path@),
{
    let mut i: usize = 0;
    while i < n
        invariant
            i <= n <= ws.len(),
            forall|j: int| 0 <= j < i ==> ws@[j].path@ != path@,
        decreases n - i,
    {
        if ws[i].path == *path {
            assert(paths_of(ws@.take(n as int))[i as int] == path@);
            return true;
        }
        i += 1;
    }
    proof {
        if paths_of(ws@.take(n as int)).contains(path@) {
            let k = choose|k: int|
                0 <= k < paths_of(ws@.take(n as int)).len() && paths_of(ws@.take(n as int))[k]
                    == path@;
            assert(ws@[k].path@ == path@);
        }
    }
    false
}

/// The root of the drive with the given letter: `X:\`.
pub open spec fn drive_root(letter: char) -> Seq<char> {
    seq![letter, ':', '\\']
}

/// The roots of the drives `A:\` to `Z:\` that a full scan visits, in order.
pub fn drive_roots() -> (roots: Vec<String>)
    ensures
        roots@.len() == 26,
        forall|i: int| 0 <= i < 26 ==> #[trigger] roots@[i]@ == drive_root((65 + i) as char),
{
    let mut roots: Vec<String> = Vec::new();
    let mut code: u8 = 65;
    while code <= 90
        invariant
            65 <= code <= 91,
            roots@.len() == code - 65,
            forall|i: int| 0 <= i < roots@.len() ==> #[trigger] roots@[i]@ == drive_root((65 + i) as char),
        decreases 91 - code,
    {
        let root: [char; 3] = [code as char, ':', '\\'];
        roots.push(string_of(root.as_slice()));
        assert(root@ =~= drive_root((65 + (code - 65)) as char));
        code += 1;
    }
    roots
}

/// All the workspaces of several lists, list after list.
pub open spec fn concat_all(s: Seq<Vec<WorkspaceInfo>>) -> Seq<WorkspaceInfo>
    decreases s.len(),
{
    if s.len() == 0 {
        Seq::empty()
    } else {
        concat_all(s.drop_last()) + s.last()@
    }
}

/// A full scan: the workspaces found on each drive, drive after drive (a
/// drive that does not exist contributes none).
pub fn full_scan(per_drive: Vec<Vec<WorkspaceInfo>>) -> (r: Vec<WorkspaceInfo>)
    ensures
        r@ == concat_all(per_drive@),
{
    let mut r: Vec<WorkspaceInfo> = Vec::new();
    let mut rest = per_drive;
    let _ = rest.len();
    let ghost all = rest@;
    let mut i: usize = 0;
    while rest.len() > 0
        invariant
            rest@ == all.skip(i as int),
            i <= all.len(),
            all.len() <= usize::MAX,
            r@ == concat_all(all.take(i as int)),
        decreases rest.len(),
    {
        let mut drive = rest.remove(0);
        assert(all.take(i + 1).drop_last() =~= all.take(i as int));
        assert(all.take(i + 1).last() == drive);
        assert(rest@ =~= all.skip(i + 1));
        let ghost before = r@;
        r.append(&mut drive);
        assert(r@ =~= before + all[i as int]@);
        i += 1;
    }
    assert(all.take(i as int) =~= all);
    r
}

// ---------------------------------------------------------------- populating

/// Sets each workspace's color from the content of its file (`None` where
/// the file could not be read).
pub fn populate_colors(workspaces: &mut Vec<WorkspaceInfo>, contents: &Vec<Option<String>>)
    requires
        old(workspaces)@.len() == contents@.len(),
    ensures
        final(workspaces)@.len() == old(workspaces)@.len(),
        forall|i: int|
            0 <= i < old(workspaces)@.len() ==> {
                let w = #[trigger] final(workspaces)@[i];
                let o = old(workspaces)@[i];
                &&& w.path == o.path
                &&& w.name == o.name
                &&& w.display_path == o.display_path
                &&& w.is_open == o.is_open
                &&& match contents@[i] {
                    Some(c) => match w.color {
                        Some(col) => workspace_color(c@) == Some(col@),
                        None => workspace_color(c@) is None,
                    },
                    None => w.color is None,
                }
            },
{
    let mut out: Vec<WorkspaceInfo> = Vec::new();
    let _ = workspaces.len();
    let ghost orig = workspaces@;
    let mut i: usize = 0;
    while workspaces.len() > 0
        invariant
            i <= orig.len(),
            orig.len() <= usize::MAX,
            orig.len() == contents@.len(),
            workspaces@ == orig.skip(i as int),
            out@.len() == i,
            forall|k: int|
                0 <= k < i ==> {
                    let w = #[trigger] out@[k];
                    let o = orig[k];
                    &&& w.path == o.path
                    &&& w.name == o.name
                    &&& w.display_path == o.display_path
                    &&& w.is_open == o.is_open
                    &&& match contents@[k] {
                        Some(c) => match w.color {
                            Some(col) => workspace_color(c@) == Some(col@),
                            None => workspace_color(c@) is None,
                        },
                        None => w.color is None,
                    }
                },
        decreases workspaces.len(),
    {
        let mut w = workspaces.remove(0);
        assert(w == orig[i as int]);
        assert(workspaces@ =~= orig.skip(i + 1));
        w.color = match &contents[i] {
            Some(c) => read_workspace_color(c.as_str()),
            None => None,
        };
        out.push(w);
        i += 1;
    }
    *workspaces = out;
}

/// For each workspace file stem, whether a workspace of that name is open.
pub fn check_open_status(stems: &Vec<String>, open_names: &Vec<String>) -> (r: Vec<bool>)
    ensures
        r@.len() == stems@.len(),
        forall|i: int| 0 <= i < stems@.len() ==> #[trigger] r@[i] == views(open_names@).contains(stems@[i]@),
{
    let mut r: Vec<bool> = Vec::new();
    let mut i: usize = 0;
    while i < stems.len()
        invariant
            i <= stems.len(),
            r@.len() == i,
            forall|k: int| 0 <= k < i ==> #[trigger] r@[k] == views(open_names@).contains(stems@[k]@),
        decreases stems.len() - i,
    {
        r.push(contains_string(open_names, &stems[i]));
        i += 1;
    }
    r
}

/// Marks each workspace open when a workspace named like its file stem
/// (`stems[i]` for `workspaces[i]`) is open in VS Code.
pub fn populate_open_status(
    workspaces: &mut Vec<WorkspaceInfo>,
    stems: &Vec<String>,
    open_names: &Vec<String>,
)
    requires
        old(workspaces)@.len() == stems@.len(),
    ensures
        final(workspaces)@.len() == old(workspaces)@.len(),
        forall|i: int|
            0 <= i < old(workspaces)@.len() ==> {
                let w = #[trigger] final(workspaces)@[i];
                let o = old(workspaces)@[i];
                &&& w.path == o.path
                &&& w.name == o.name
                &&& w.display_path == o.display_path
                &&& w.color == o.color
                &&& w.is_open == views(open_names@).contains(stems@[i]@)
            },
{
    let flags = check_open_status(stems, open_names);
    let mut out: Vec<WorkspaceInfo> = Vec::new();
    let _ = workspaces.len();
    let ghost orig = workspaces@;
    let mut i: usize = 0;
    while workspaces.len() > 0
        invariant
            i <= orig.len(),
            orig.len() <= usize::MAX,
            orig.len() == stems@.len(),
            flags@.len() == stems@.len(),
            forall|k: int| 0 <= k < stems@.len() ==> #[trigger] flags@[k] == views(open_names@).contains(stems@[k]@),
            workspaces@ == orig.skip(i as int),
            out@.len() == i,
            forall|k: int|
                0 <= k < i ==> {
                    let w = #[trigger] out@[k];
                    let o = orig[k];
                    &&& w.path == o.path
                    &&& w.name == o.name
                    &&& w.display_path == o.display_path
                    &&& w.color == o.color
                    &&& w.is_open == views(open_names@).contains(stems@[k]@)
                },
        decreases workspaces.len(),
    {
        let mut w = workspaces.remove(0);
        assert(w == orig[i as int]);
        assert(workspaces@ =~= orig.skip(i + 1));
        w.is_open = flags[i];
        out.push(w);
        i += 1;
    }
    *workspaces = out;
}

/// The cache written after a scan: each workspace's path and name with its
/// file's modification time (`modified[i]` for `workspaces[i]`), and `now`.
pub fn build_cache(workspaces: &Vec<WorkspaceInfo>, modified: &Vec<u64>, now: u64) -> (c: Cache)
    requires
        workspaces@.len() == modified@.len(),
    ensures
        c.last_scan == now,
        c.entries@.len() == workspaces@.len(),
        forall|i: int|
            0 <= i < workspaces@.len() ==> {
                let e = #[trigger] c.entries@[i];
                &&& e.path == workspaces@[i].path
                &&& e.name == workspaces@[i].name
                &&& e.modified == modified@[i]
            },
{
    let mut entries: Vec<CacheEntry> = Vec::new();
    let mut i: usize = 0;
    while i < workspaces.len()
        invariant
            i <= workspaces.len(),
            workspaces@.len() == modified@.len(),
            entries@.len() == i,
            forall|k: int|
                0 <= k < i ==> {
                    let e = #[trigger] entries@[k];
                    &&& e.path == workspaces@[k].path
                    &&& e.name == workspaces@[k].name
                    &&& e.modified == modified@[k]
                },
        decreases workspaces.len() - i,
    {
        entries.push(
            CacheEntry {
                path: workspaces[i].path.clone(),
                name: workspaces[i].name.clone(),
                modified: modified[i],
            },
        );
        i += 1;
    }
    Cache { entries, last_scan: now }
}


// ------------------------------------------------------------------- ordering

/// What workspaces are ordered by: their name, lowercased (`str::to_lowercase`).
pub open spec fn name_key(w: WorkspaceInfo) -> Seq<char> {
    lowercase(w.name@)
}

/// Where a workspace with key `k` goes among the sorted `s`, searching from
/// `i`: before the first one whose key is greater, so that equal keys keep
/// their order.
pub open spec fn insert_pos_from(s: Seq<WorkspaceInfo>, k: Seq<char>, i: int) -> int
    decreases s.len() - i,
{
    if i < 0 || i >= s.len() {
        s.len() as int
    } else if text_lt(k, name_key(s[i])) {
        i
    } else {
        insert_pos_from(s, k, i + 1)
    }
}

/// The workspaces sorted by lowercased name, a stable sort (as
/// `sort_by` on `to_lowercase()` keys).
pub open spec fn sorted_by_name(s: Seq<WorkspaceInfo>) -> Seq<WorkspaceInfo>
    decreases s.len(),
{
    if s.len() == 0 {
        s
    } else {
        let t = sorted_by_name(s.drop_last());
        t.insert(insert_pos_from(t, name_key(s.last()), 0), s.last())
    }
}

/// The workspaces with a path already seen left out, keeping the first of each path.
pub open spec fn dedupe_by_path(s: Seq<WorkspaceInfo>) -> Seq<WorkspaceInfo>
    decreases s.len(),
{
    if s.len() == 0 {
        s
    } else {
        let d = dedupe_by_path(s.drop_last());
        if paths_of(d).contains(s.last().path@) {
            d
        } else {
            d.push(s.last())
        }
    }
}

/// No workspace comes before one whose name key is smaller.
pub open spec fn is_name_sorted(s: Seq<WorkspaceInfo>) -> bool {
    forall|i: int, j: int| 0 <= i < j < s.len() ==> !text_lt(name_key(s[j]), name_key(s[i]))
}

/// No two workspaces have the same path.
pub open spec fn has_unique_paths(s: Seq<WorkspaceInfo>) -> bool {
    forall|i: int, j: int| 0 <= i < j < s.len() ==> s[i].path@ != s[j].path@
}

/// What `insert_pos_from` returns.
pub proof fn lemma_insert_pos_from(s: Seq<WorkspaceInfo>, k: Seq<char>, i: int)
    requires
        0 <= i <= s.len(),
    ensures
        i <= insert_pos_from(s, k, i) <= s.len(),
        forall|j: int| i <= j < insert_pos_from(s, k, i) ==> !text_lt(k, name_key(s[j])),
        insert_pos_from(s, k, i) < s.len() ==> text_lt(k, name_key(s[insert_pos_from(s, k, i)])),
    decreases s.len() - i,
{
    if i < s.len() && !text_lt(k, name_key(s[i])) {
        lemma_insert_pos_from(s, k, i + 1);
    }
}

/// Sorting keeps the workspaces, only reordered.
pub proof fn lemma_sorted_by_name_multiset(s: Seq<WorkspaceInfo>)
    ensures
        sorted_by_name(s).to_multiset() == s.to_multiset(),
        sorted_by_name(s).len() == s.len(),
    decreases s.len(),
{
    broadcast use vstd::seq_lib::group_to_multiset_ensures;

    if s.len() > 0 {
        let t = sorted_by_name(s.drop_last());
        lemma_sorted_by_name_multiset(s.drop_last());
        lemma_insert_pos_from(t, name_key(s.last()), 0);
        let p = insert_pos_from(t, name_key(s.last()), 0);
        vstd::seq_lib::to_multiset_insert(t, p, s.last());
        assert(s.drop_last().push(s.last()) =~= s);
    }
}

/// The result of sorting is sorted.
pub proof fn lemma_sorted_by_name_sorted(s: Seq<WorkspaceInfo>)
    ensures
        is_name_sorted(sorted_by_name(s)),
    decreases s.len(),
{
    if s.len() > 0 {
        let t = sorted_by_name(s.drop_last());
        lemma_sorted_by_name_sorted(s.drop_last());
        let x = s.last();
        let k = name_key(x);
        lemma_insert_pos_from(t, k, 0);
        let p = insert_pos_from(t, k, 0);
        let r = t.insert(p, x);
        assert forall|i: int, j: int| 0 <= i < j < r.len() implies !text_lt(
            name_key(r[j]),
            name_key(r[i]),
        ) by {
            if i == p {
                // x comes before t[j - 1], which is at or after position p
                assert(r[j] == t[j - 1]);
                assert(r[i] == x);
                if text_lt(name_key(r[j]), k) {
                    lemma_text_lt_transitive(name_key(r[j]), k, name_key(t[p]));
                    if j - 1 > p {
                        assert(!text_lt(name_key(t[j - 1]), name_key(t[p])));
                    } else {
                        lemma_text_lt_irreflexive(name_key(t[p]));
                    }
                }
            } else if j == p {
                assert(!text_lt(k, name_key(t[i])));
            } else {
                let ti = if i < p { i } else { i - 1 };
                let tj = if j < p { j } else { j - 1 };
                assert(r[i] == t[ti] && r[j] == t[tj] && ti < tj);
            }
        }
    }
}

/// Every workspace kept by `dedupe_by_path` is one of the input.
pub proof fn lemma_dedupe_from_input(s: Seq<WorkspaceInfo>)
    ensures
        forall|i: int|
            0 <= i < dedupe_by_path(s).len() ==> exists|m: int|
                0 <= m < s.len() && s[m] == #[trigger] dedupe_by_path(s)[i],
        dedupe_by_path(s).len() <= s.len(),
    decreases s.len(),
{
    if s.len() > 0 {
        lemma_dedupe_from_input(s.drop_last());
        let d = dedupe_by_path(s.drop_last());
        assert forall|i: int| 0 <= i < dedupe_by_path(s).len() implies exists|m: int|
            0 <= m < s.len() && s[m] == #[trigger] dedupe_by_path(s)[i] by {
            if i < d.len() {
                let m = choose|m: int| 0 <= m < s.drop_last().len() && s.drop_last()[m] == d[i];
                assert(s[m] == d[i]);
            } else {
                assert(s[s.len() - 1] == dedupe_by_path(s)[i]);
            }
        }
    }
}

/// `dedupe_by_path` leaves no two workspaces with the same path, and keeps
/// every path of its input.
pub proof fn lemma_dedupe_paths(s: Seq<WorkspaceInfo>)
    ensures
        has_unique_paths(dedupe_by_path(s)),
        forall|i: int| 0 <= i < s.len() ==> paths_of(dedupe_by_path(s)).contains(#[trigger] s[i].path@),
    decreases s.len(),
{
    if s.len() > 0 {
        lemma_dedupe_paths(s.drop_last());
        let d = dedupe_by_path(s.drop_last());
        let x = s.last();
        if !paths_of(d).contains(x.path@) {
            let r = d.push(x);
            assert forall|i: int, j: int| 0 <= i < j < r.len() implies r[i].path@ != r[j].path@ by {
                if j == d.len() {
                    assert(paths_of(d)[i] == d[i].path@);
                }
            }
            assert forall|i: int| 0 <= i < s.len() implies paths_of(r).contains(
                #[trigger] s[i].path@,
            ) by {
                if i < s.len() - 1 {
                    assert(s.drop_last()[i] == s[i]);
                    let k = choose|k: int| 0 <= k < paths_of(d).len() && paths_of(d)[k] == s[i].path@;
                    assert(paths_of(r)[k] == s[i].path@);
                } else {
                    assert(paths_of(r)[d.len() as int] == s[i].path@);
                }
            }
        } else {
            assert forall|i: int| 0 <= i < s.len() implies paths_of(d).contains(#[trigger] s[i].path@) by {
                if i < s.len() - 1 {
                    assert(s.drop_last()[i] == s[i]);
                }
            }
        }
    }
}

/// Leaving out later duplicates keeps a sorted list sorted.
pub proof fn lemma_dedupe_sorted(s: Seq<WorkspaceInfo>)
    requires
        is_name_sorted(s),
    ensures
        is_name_sorted(dedupe_by_path(s)),
    decreases s.len(),
{
    if s.len() > 0 {
        let sd = s.drop_last();
        assert(is_name_sorted(sd)) by {
            assert forall|i: int, j: int| 0 <= i < j < sd.len() implies !text_lt(
                name_key(sd[j]),
                name_key(sd[i]),
            ) by {
                assert(sd[i] == s[i] && sd[j] == s[j]);
            }
        }
        lemma_dedupe_sorted(sd);
        lemma_dedupe_from_input(sd);
        let d = dedupe_by_path(sd);
        let x = s.last();
        if !paths_of(d).contains(x.path@) {
            let r = d.push(x);
            assert forall|i: int, j: int| 0 <= i < j < r.len() implies !text_lt(
                name_key(r[j]),
                name_key(r[i]),
            ) by {
                if j == d.len() {
                    let m = choose|m: int| 0 <= m < sd.len() && sd[m] == d[i];
                    assert(s[m] == r[i]);
                    assert(s[s.len() - 1] == r[j]);
                }
            }
        }
    }
}

/// Sorts workspaces by lowercased name, keeping the order of equal names.
pub fn sort_by_name(ws: Vec<WorkspaceInfo>) -> (r: Vec<WorkspaceInfo>)
    ensures
        r@ == sorted_by_name(ws@),
{
    let mut out: Vec<WorkspaceInfo> = Vec::new();
    let mut keys: Vec<Vec<char>> = Vec::new();
    let mut rest = ws;
    let _ = rest.len();
    let ghost all = rest@;
    let mut i: usize = 0;
    while rest.len() > 0
        invariant
            rest@ == all.skip(i as int),
            i <= all.len(),
            all.len() <= usize::MAX,
            out@ == sorted_by_name(all.take(i as int)),
            keys@.len() == out@.len(),
            forall|j: int| 0 <= j < keys@.len() ==> #[trigger] keys@[j]@ == name_key(out@[j]),
        decreases rest.len(),
    {
        let w = rest.remove(0);
        assert(all.take(i + 1).drop_last() =~= all.take(i as int));
        assert(all.take(i + 1).last() == w);
        assert(rest@ =~= all.skip(i + 1));
        let lower = to_lowercase(w.name.as_str());
        let k = chars_of(lower.as_str());
        let mut p: usize = 0;
        while p < out.len() && !text_less(k.as_slice(), keys[p].as_slice())
            invariant
                p <= out.len(),
                keys@.len() == out@.len(),
                forall|j: int| 0 <= j < keys@.len() ==> #[trigger] keys@[j]@ == name_key(out@[j]),
                insert_pos_from(out@, k@, 0) == insert_pos_from(out@, k@, p as int),
            decreases out.len() - p,
        {
            p += 1;
        }
        let ghost before_keys = keys@;
        let ghost before_out = out@;
        out.insert(p, w);
        keys.insert(p, k);
        assert forall|j: int| 0 <= j < keys@.len() implies #[trigger] keys@[j]@ == name_key(
            out@[j],
        ) by {
            if j < p {
                assert(keys@[j] == before_keys[j] && out@[j] == before_out[j]);
            } else if j > p {
                assert(keys@[j] == before_keys[j - 1] && out@[j] == before_out[j - 1]);
            }
        }
        i += 1;
    }
    assert(all.take(i as int) =~= all);
    out
}

/// Leaves out every workspace whose path an earlier one has.
pub fn dedupe_paths(ws: Vec<WorkspaceInfo>) -> (r: Vec<WorkspaceInfo>)
    ensures
        r@ == dedupe_by_path(ws@),
{
    let mut out: Vec<WorkspaceInfo> = Vec::new();
    let mut rest = ws;
    let _ = rest.len();
    let ghost all = rest@;
    let mut i: usize = 0;
    while rest.len() > 0
        invariant
            rest@ == all.skip(i as int),
            i <= all.len(),
            all.len() <= usize::MAX,
            out@ == dedupe_by_path(all.take(i as int)),
        decreases rest.len(),
    {
        let w = rest.remove(0);
        assert(all.take(i + 1).drop_last() =~= all.take(i as int));
        assert(all.take(i + 1).last() == w);
        assert(rest@ =~= all.skip(i + 1));
        if !has_path(&out, &w.path) {
            out.push(w);
        }
        i += 1;
    }
    assert(all.take(i as int) =~= all);
    out
}

/// The order the launcher lists workspaces in: sorted by lowercased name
/// (equal names in scan order), each path once (its first occurrence).
pub fn order_workspaces(ws: Vec<WorkspaceInfo>) -> (r: Vec<WorkspaceInfo>)
    ensures
        r@ == dedupe_by_path(sorted_by_name(ws@)),
{
    dedupe_paths(sort_by_name(ws))
}

/// The listed workspaces are sorted by name, hold each path once, keep every
/// scanned path, and are all scanned workspaces.
pub proof fn law_workspace_order(ws: Seq<WorkspaceInfo>)
    ensures
        is_name_sorted(dedupe_by_path(sorted_by_name(ws))),
        has_unique_paths(dedupe_by_path(sorted_by_name(ws))),
        forall|i: int|
            0 <= i < ws.len() ==> paths_of(dedupe_by_path(sorted_by_name(ws))).contains(
                #[trigger] ws[i].path@,
            ),
        forall|i: int|
            0 <= i < dedupe_by_path(sorted_by_name(ws)).len() ==> ws.contains(
                #[trigger] dedupe_by_path(sorted_by_name(ws))[i],
            ),
{
    broadcast use vstd::seq_lib::group_to_multiset_ensures;

    let t = sorted_by_name(ws);
    lemma_sorted_by_name_sorted(ws);
    lemma_sorted_by_name_multiset(ws);
    lemma_dedupe_sorted(t);
    lemma_dedupe_paths(t);
    lemma_dedupe_from_input(t);
    assert forall|i: int| 0 <= i < ws.len() implies paths_of(dedupe_by_path(t)).contains(
        #[trigger] ws[i].path@,
    ) by {
        assert(ws.to_multiset().count(ws[i]) > 0);
        assert(t.contains(ws[i]));
        let m = choose|m: int| 0 <= m < t.len() && t[m] == ws[i];
        assert(paths_of(dedupe_by_path(t)).contains(t[m].path@));
    }
    assert forall|i: int| 0 <= i < dedupe_by_path(t).len() implies ws.contains(
        #[trigger] dedupe_by_path(t)[i],
    ) by {
        let m = choose|m: int| 0 <= m < t.len() && t[m] == dedupe_by_path(t)[i];
        assert(t.contains(t[m]));
        assert(t.to_multiset().count(t[m]) > 0);
    }
}

} // verus!
