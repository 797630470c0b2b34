//! What a disk scan looks at: the directories it skips and the files it
//! takes for workspaces.
use vstd::prelude::*;
use crate::text::{
    chars_of, lemma_rfind_from, matches_at, rfind, rfind_chars, slice_range, starts_with,
    starts_with_chars, str_eq, string_of,
};
use crate::title::{contains_string, views};
use crate::workspace::WorkspaceInfo;

verus! {

broadcast use vstd::string::group_string_axioms;

/// `walkdir::DirEntry`, an entry met while walking a directory tree.
#[verifier::external_type_specification]
#[verifier::external_body]
pub struct ExDirEntry(walkdir::DirEntry);

/// Directories that a scan does not enter: hidden ones, system and tool
/// folders, and build outputs.
pub open spec fn skipped_name(n: Seq<char>) -> bool {
    ||| starts_with(n, "."@)
    ||| starts_with(n, "$"@)
    ||| n == "node_modules"@
    ||| n == "target"@
    ||| n == "Windows"@
    ||| n == "Program Files"@
    ||| n == "Program Files (x86)"@
    ||| n == "ProgramData"@
    ||| n == "AppData"@
    ||| n == "msys64"@
    ||| n == "build"@
    ||| n == "dist"@
    ||| n == ".git"@
    ||| n == ".svn"@
    ||| n == ".hg"@
}

/// Whether a scan skips an entry of this name.
pub fn should_skip_name(name: &str) -> (r: bool)
    ensures
        r == skipped_name(name@),
{
    let c = chars_of(name);
    let dot = chars_of(".");
    let dollar = chars_of("$");
    starts_with_chars(c.as_slice(), dot.as_slice()) || starts_with_chars(
        c.as_slice(),
        dollar.as_slice(),
    ) || str_eq(name, "node_modules") || str_eq(name, "target") || str_eq(name, "Windows")
        || str_eq(name, "Program Files") || str_eq(name, "Program Files (x86)") || str_eq(
        name,
        "ProgramData",
    ) || str_eq(name, "AppData") || str_eq(name, "msys64") || str_eq(name, "build") || str_eq(
        name,
        "dist",
    ) || str_eq(name, ".git") || str_eq(name, ".svn") || str_eq(name, ".hg")
}

/// Name for the file name of a walked entry, lossily as text: what
/// `walkdir::DirEntry::file_name` gives (the last component of the entry's
/// path, or its whole path when it has none).
pub uninterp spec fn entry_name(entry: walkdir::DirEntry) -> Seq<char>;

/// `walkdir::DirEntry::file_name`, lossily as text; its result is
/// `entry_name` of the entry.
#[verifier::external_body]
fn entry_file_name(entry: &walkdir::DirEntry) -> (r: String)
    ensures
        r@ == entry_name(*entry),
{
    entry.file_name().to_string_lossy().to_string()
}

/// Whether a scan skips a directory entry: by its file name, as
/// `should_skip_name` decides.
pub fn should_skip_dir(entry: &walkdir::DirEntry) -> (r: bool)
    ensures
        r == skipped_name(entry_name(*entry)),
{
    let name = entry_file_name(entry);
    should_skip_name(name.as_str())
}

/// The extension of a file name (`Path::extension`): what follows its last
/// dot, unless the only dot starts the name or the name is `..`.
pub open spec fn file_extension(n: Seq<char>) -> Option<Seq<char>> {
    if n == ".."@ {
        None
    } else {
        match rfind(n, "."@) {
            Some(i) => if i == 0 {
                None
            } else {
                Some(n.subrange(i + 1, n.len() as int))
            },
            None => None,
        }
    }
}

/// The stem of a file name (`Path::file_stem`): what comes before its last
/// dot, or the whole name where `file_extension` finds no extension.
pub open spec fn file_stem(n: Seq<char>) -> Seq<char> {
    if n == ".."@ {
        n
    } else {
        match rfind(n, "."@) {
            Some(i) => if i == 0 {
                n
            } else {
                n.subrange(0, i)
            },
            None => n,
        }
    }
}

/// The extension and stem of a file name.
pub fn split_file_name(name: &str) -> (r: (Option<String>, String))
    ensures
        match r.0 {
            Some(e) => file_extension(name@) == Some(e@),
            None => file_extension(name@) is None,
        },
        r.1@ == file_stem(name@),
{
    let c = chars_of(name);
    let dot = chars_of(".");
    proof {
        reveal_strlit(".");
    }
    if str_eq(name, "..") {
        return (None, string_of(c.as_slice()));
    }
    match rfind_chars(c.as_slice(), dot.as_slice()) {
        Some(i) => {
            proof {
                crate::text::lemma_rfind_from(c@, dot@, c@.len() - dot@.len());
                assert(crate::text::matches_at(c@, dot@, i as int));
                assert(dot@.len() == 1);
                assert(i < c.len());
            }
            if i == 0 {
                (None, string_of(c.as_slice()))
            } else {
                let ext = slice_range(c.as_slice(), i + 1, c.len());
                let stem = slice_range(c.as_slice(), 0, i);
                (Some(string_of(ext.as_slice())), string_of(stem.as_slice()))
            }
        },
        None => (None, string_of(c.as_slice())),
    }
}

/// The workspace that a scanned entry stands for, if it is a workspace file:
/// `path` is the entry's full path, `file_name` its last component and
/// `parent` the folder that holds it.
pub fn workspace_from_entry(is_file: bool, path: String, file_name: &str, parent: String) -> (r: Option<
    WorkspaceInfo,
>)
    ensures
        match r {
            Some(w) => is_file && file_extension(file_name@) == Some("code-workspace"@) && w.path
                == path && w.name@ == file_stem(file_name@) && w.display_path == parent && w.color
                is None && !w.is_open,
            None => !(is_file && file_extension(file_name@) == Some("code-workspace"@)),
        },
{
    if !is_file {
        return None;
    }
    let (ext, stem) = split_file_name(file_name);
    match ext {
        Some(e) => {
            if str_eq(e.as_str(), "code-workspace") {
                Some(
                    WorkspaceInfo {
                        path,
                        name: stem,
                        display_path: parent,
                        color: None,
                        is_open: false,
                    },
                )
            } else {
                None
            }
        },
        None => None,
    }
}

// --------------------------------------------------------------- quick scan

/// A path of one component on every platform: not empty, and without `/`,
/// `\\` or `:` (so without a root, a prefix or a separator).
pub open spec fn single_component(p: Seq<char>) -> bool {
    p.len() > 0 && !p.contains('/') && !p.contains('\\') && !p.contains(':')
}

/// `q` is `p` with something taken off its end.
pub open spec fn proper_prefix(q: Seq<char>, p: Seq<char>) -> bool {
    q.len() < p.len() && p.take(q.len() as int) == q
}

/// A `.` or `..` segment starts at `i`.
pub open spec fn dot_segment_at(p: Seq<char>, i: int) -> bool {
    &&& p[i] == '.'
    &&& (i + 1 == p.len() || p[i + 1] == '/' || (p[i + 1] == '.' && (i + 2 == p.len() || p[i
        + 2] == '/')))
}

/// A path made of plain segments separated by `/`, read alike on every
/// platform: not empty, without `:` or `\`, without a leading or trailing
/// `/`, without an empty segment, and without a `.` or `..` segment.
pub open spec fn plain_path(p: Seq<char>) -> bool {
    &&& p.len() > 0
    &&& !p.contains(':')
    &&& !p.contains('\\')
    &&& p[0] != '/'
    &&& p.last() != '/'
    &&& forall|i: int| 0 <= i < p.len() - 1 && #[trigger] p[i] == '/' ==> p[i + 1] != '/'
    &&& forall|i: int|
        0 <= i < p.len() && (i == 0 || p[i - 1] == '/') ==> !#[trigger] dot_segment_at(p, i)
}

/// A path without its last `/`-separated segment: the text before its last
/// `/`, or the empty path when it has none.
pub open spec fn up(p: Seq<char>) -> Seq<char> {
    match rfind(p, "/"@) {
        Some(k) => p.take(k),
        None => Seq::empty(),
    }
}

/// `up` taken `n` times.
pub open spec fn up_times(p: Seq<char>, n: nat) -> Seq<char>
    decreases n,
{
    if n == 0 {
        p
    } else {
        up(up_times(p, (n - 1) as nat))
    }
}

/// The empty path has nothing to take off.
proof fn lemma_up_empty()
    ensures
        up(Seq::empty()) == Seq::<char>::empty(),
{
    reveal_strlit("/");
    assert(rfind(Seq::<char>::empty(), "/"@) is None);
}

/// Taking the last segment off a plain path leaves the empty path or a
/// plain path.
proof fn lemma_up_plain(p: Seq<char>)
    requires
        plain_path(p),
    ensures
        up(p).len() == 0 || plain_path(up(p)),
{
    reveal_strlit("/");
    lemma_rfind_from(p, "/"@, p.len() - 1);
    if rfind(p, "/"@) is Some {
        let k = rfind(p, "/"@)->Some_0;
        assert(matches_at(p, "/"@, k));
        assert(p.subrange(k, k + 1)[0] == p[k]);
        assert(p[k] == '/');
        let q = p.take(k);
        assert(k > 0);
        assert(k < p.len() - 1 || p[k] == p.last());
        assert(k - 1 < p.len() - 1 && p[k - 1] == '/' ==> p[k] != '/');
        assert(q.last() != '/');
        if q.contains(':') {
            let j = choose|j: int| 0 <= j < q.len() && q[j] == ':';
            assert(p[j] == ':');
        }
        if q.contains('\\') {
            let j = choose|j: int| 0 <= j < q.len() && q[j] == '\\';
            assert(p[j] == '\\');
        }
        assert forall|i: int| 0 <= i < q.len() - 1 && #[trigger] q[i] == '/' implies q[i + 1] != '/' by {
            assert(p[i] == q[i] && p[i + 1] == q[i + 1]);
        }
        assert forall|i: int|
            0 <= i < q.len() && (i == 0 || q[i - 1] == '/') implies !#[trigger] dot_segment_at(q, i) by {
            assert(p[i] == q[i]);
            if i > 0 {
                assert(p[i - 1] == q[i - 1]);
            }
            if i + 1 < q.len() {
                assert(p[i + 1] == q[i + 1]);
            }
            if i + 2 < q.len() {
                assert(p[i + 2] == q[i + 2]);
            }
            if dot_segment_at(q, i) {
                assert(dot_segment_at(p, i));
            }
        }
    }
}

/// `Path::parent`, lossily as text. As its documentation gives it: the path
/// without its final component, so a shorter prefix of the path; `None` for
/// the empty path; `Some("")` for a relative path of one component; and for
/// a path of plain `/`-separated segments (which `/` separates on every
/// platform), the text before its last `/`. Which other texts have a root or
/// a prefix (and so no parent), and how their components read, depends on
/// the platform's path rules and is not stated.
#[verifier::external_body]
fn path_parent(p: &str) -> (r: Option<String>)
    ensures
        r is Some ==> p@.len() > 0,
        r is Some ==> proper_prefix(r->Some_0@, p@),
        single_component(p@) ==> r is Some && r->Some_0@.len() == 0,
        plain_path(p@) ==> r is Some && r->Some_0@ == up(p@),
{
    std::path::Path::new(p).parent().map(|q| q.to_string_lossy().to_string())
}

/// The folder that a quick scan walks for a cached workspace file: the folder
/// that holds it, then up to three levels above it, as far as the path goes;
/// none for a path without a parent. The folder is always a shorter prefix of
/// the path, so the file lies within it. For a path of N plain `/`-separated
/// segments it is the first N - 4 of them when N >= 5, and the current
/// folder (`""`) otherwise. (How far other paths go up comes from the
/// platform's path rules.)
pub fn scan_area(path: &str) -> (r: Option<String>)
    ensures
        path@.len() == 0 ==> r is None,
        r is Some ==> proper_prefix(r->Some_0@, path@),
        single_component(path@) ==> r is Some && r->Some_0@.len() == 0,
        plain_path(path@) ==> r is Some && r->Some_0@ == up_times(path@, 4),
{
    let mut current = match path_parent(path) {
        Some(p) => p,
        None => return None,
    };
    proof {
        lemma_up_empty();
        if plain_path(path@) {
            lemma_up_plain(path@);
            assert(up_times(path@, 0) == path@);
            assert(up_times(path@, 1) == up(path@));
        }
    }
    let mut i: u32 = 0;
    while i < 3
        invariant
            i <= 3,
            proper_prefix(current@, path@),
            single_component(path@) ==> current@.len() == 0,
            plain_path(path@) ==> current@ == up_times(path@, (i + 1) as nat),
            plain_path(path@) ==> current@.len() == 0 || plain_path(current@),
            up(Seq::empty()) == Seq::<char>::empty(),
        decreases 3 - i,
    {
        let ghost before = current@;
        match path_parent(current.as_str()) {
            Some(p) => {
                proof {
                    assert(path@.take(p@.len() as int) =~= before.take(p@.len() as int));
                    if plain_path(path@) {
                        assert(before.len() > 0);
                        assert(plain_path(before));
                        lemma_up_plain(before);
                    }
                }
                current = p;
            },
            None => {
                proof {
                    if plain_path(path@) {
                        assert(!plain_path(before));
                        assert(before.len() == 0);
                        assert(before =~= Seq::<char>::empty());
                    }
                }
            },
        }
        assert(plain_path(path@) ==> current@ == up_times(path@, (i + 2) as nat));
        i += 1;
    }
    Some(current)
}

/// The texts of `s`, each once, in the order of their first occurrence.
pub open spec fn distinct_texts_spec(s: Seq<Seq<char>>) -> Seq<Seq<char>>
    decreases s.len(),
{
    if s.len() == 0 {
        s
    } else {
        let prev = distinct_texts_spec(s.drop_last());
        if prev.contains(s.last()) {
            prev
        } else {
            prev.push(s.last())
        }
    }
}

/// The texts of `v`, each once, in the order of their first occurrence.
pub fn distinct_texts(v: &Vec<String>) -> (r: Vec<String>)
    ensures
        views(r@) == distinct_texts_spec(views(v@)),
        forall|i: int, j: int| 0 <= i < j < r@.len() ==> r@[i]@ != r@[j]@,
        forall|k: Seq<char>| views(r@).contains(k) <==> views(v@).contains(k),
{
    let mut r: Vec<String> = Vec::new();
    let mut i: usize = 0;
    while i < v.len()
        invariant
            i <= v.len(),
            views(r@) == distinct_texts_spec(views(v@).take(i as int)),
            forall|a: int, b: int| 0 <= a < b < r@.len() ==> r@[a]@ != r@[b]@,
            forall|k: Seq<char>| views(r@).contains(k) <==> views(v@).take(i as int).contains(k),
        decreases v.len() - i,
    {
        let ghost prev = views(r@);
        let ghost pre = views(v@).take(i as int);
        assert(views(v@).take(i + 1).drop_last() =~= pre);
        assert(views(v@).take(i + 1).last() == v@[i as int]@);
        assert(views(v@).take(i + 1) =~= pre.push(v@[i as int]@));
        if !contains_string(&r, &v[i]) {
            r.push(v[i].clone());
            assert(views(r@) =~= prev.push(v@[i as int]@));
            assert forall|a: int, b: int| 0 <= a < b < r@.len() implies r@[a]@ != r@[b]@ by {
                if b == r@.len() - 1 {
                    assert(prev[a] == r@[a]@);
                }
            }
        }
        let ghost x = v@[i as int]@;
        assert(prev.contains(x) ==> views(r@) == prev);
        assert forall|k: Seq<char>| views(r@).contains(k) <==> pre.push(x).contains(k) by {
            if pre.push(x).contains(k) {
                let j = choose|j: int| 0 <= j < pre.len() + 1 && pre.push(x)[j] == k;
                if j < pre.len() {
                    assert(pre[j] == k);
                    assert(pre.contains(k));
                    assert(prev.contains(k));
                    let m = choose|m: int| 0 <= m < prev.len() && prev[m] == k;
                    assert(views(r@)[m] == k);
                } else {
                    assert(k == x);
                    if prev.contains(x) {
                        assert(views(r@) == prev);
                    } else {
                        assert(views(r@)[prev.len() as int] == x);
                    }
                }
            }
            if views(r@).contains(k) {
                let m = choose|m: int| 0 <= m < views(r@).len() && views(r@)[m] == k;
                if m < prev.len() {
                    assert(prev[m] == k);
                    assert(prev.contains(k));
                    let j = choose|j: int| 0 <= j < pre.len() && pre[j] == k;
                    assert(pre.push(x)[j] == k);
                } else {
                    assert(k == x);
                    assert(pre.push(x)[pre.len() as int] == x);
                }
            }
        }
        i += 1;
    }
    assert(views(v@).take(i as int) =~= views(v@));
    r
}

} // verus!
