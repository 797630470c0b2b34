//! VS Code window titles: which workspace a window shows.
use vstd::prelude::*;
use crate::text::{
    chars_of, concat_str, contains, drop_ws_before, find, find_chars, is_ws, lemma_find_from,
    skip_ws_from,
    lemma_rfind_from, matches_at, rfind, rfind_chars, slice_range, starts_with, string_of, trim,
    trim_chars,
};

verus! {

broadcast use vstd::string::group_string_axioms;

/// The marker that VS Code puts after a workspace's name in a window title.
pub open spec fn workspace_marker() -> Seq<char> {
    " (Workspace)"@
}

/// The name of the workspace that a VS Code window title shows. Titles look
/// like `file.ts - Name (Workspace) - Visual Studio Code` or
/// `● Name (Workspace) - Visual Studio Code`: the name is what comes before
/// the first ` (Workspace)`, after its last ` - ` (or else its last `●`),
/// trimmed; an empty name is none.
pub open spec fn ws_name_from_title(title: Seq<char>) -> Option<Seq<char>> {
    match find(title, workspace_marker()) {
        Some(p) => {
            let before = title.take(p);
            let name = match rfind(before, " - "@) {
                Some(d) => trim(before.skip(d + 3)),
                None => match rfind(before, seq!['\u{25CF}']) {
                    Some(d) => trim(before.skip(d + 1)),
                    None => trim(before),
                },
            };
            if name.len() > 0 {
                Some(name)
            } else {
                None
            }
        },
        None => None,
    }
}

/// Extracts the workspace name from a VS Code window title (see
/// `ws_name_from_title`).
pub fn extract_ws_name_from_title(title: &str) -> (r: Option<String>)
    ensures
        match r {
            Some(n) => ws_name_from_title(title@) == Some(n@),
            None => ws_name_from_title(title@) is None,
        },
{
    let t = chars_of(title);
    let marker = chars_of(" (Workspace)");
    let dash = chars_of(" - ");
    let dot: [char; 1] = ['\u{25CF}'];
    proof {
        reveal_strlit(" - ");
        assert(dash@.len() == 3);
        assert(dot@ == seq!['\u{25CF}']);
        crate::text::lemma_find_from(t@, marker@, 0);
        crate::text::lemma_rfind_from(t@, dash@, t@.len() - dash@.len());
    }
    let pos = match find_chars(t.as_slice(), marker.as_slice()) {
        Some(p) => p,
        None => return None,
    };
    let before = slice_range(t.as_slice(), 0, pos);
    assert(before@ == t@.take(pos as int));
    proof {
        crate::text::lemma_rfind_from(before@, dash@, before@.len() - dash@.len());
        crate::text::lemma_rfind_from(before@, dot@, before@.len() - 1);
    }
    let name = match rfind_chars(before.as_slice(), dash.as_slice()) {
        Some(d) => trim_chars(slice_range(before.as_slice(), d + 3, before.len()).as_slice()),
        None => match rfind_chars(before.as_slice(), dot.as_slice()) {
            Some(d) => trim_chars(slice_range(before.as_slice(), d + 1, before.len()).as_slice()),
            None => trim_chars(before.as_slice()),
        },
    };
    if name.len() > 0 {
        Some(string_of(name.as_slice()))
    } else {
        None
    }
}

/// The window title pattern of an open workspace:
/// `<name> (Workspace) - Visual Studio Code`.
pub fn window_title_pattern(name: &str) -> (r: String)
    ensures
        r@ == name@ + " (Workspace) - Visual Studio Code"@,
{
    concat_str(name, " (Workspace) - Visual Studio Code")
}

/// Whether a window title is that of a VS Code window.
pub fn is_vscode_title(title: &str) -> (r: bool)
    ensures
        r == contains(title@, "Visual Studio Code"@),
{
    crate::text::str_contains(title, "Visual Studio Code")
}

/// The distinct workspace names that the titles show, in the order of
/// their first title.
pub open spec fn open_workspace_names(titles: Seq<Seq<char>>) -> Seq<Seq<char>>
    decreases titles.len(),
{
    if titles.len() == 0 {
        Seq::empty()
    } else {
        let prev = open_workspace_names(titles.drop_last());
        match ws_name_from_title(titles.last()) {
            Some(n) => if prev.contains(n) {
                prev
            } else {
                prev.push(n)
            },
            None => prev,
        }
    }
}

/// The views of a list of strings.
pub open spec fn views(v: Seq<String>) -> Seq<Seq<char>> {
    v.map_values(|s: String| s@)
}

/// Whether `names` holds a string equal to `n`.
pub fn contains_string(names: &Vec<String>, n: &String) -> (r: bool)
    ensures
        r == views(names@).contains(n@),
{
    let mut i: usize = 0;
    while i < names.len()
        invariant
            i <= names.len(),
            forall|j: int| 0 <= j < i ==> names@[j]@ != n@,
        decreases names.len() - i,
    {
        if names[i] == *n {
            assert(views(names@)[i as int] == n@);
            return true;
        }
        i += 1;
    }
    proof {
        if views(names@).contains(n@) {
            let k = choose|k: int| 0 <= k < views(names@).len() && views(names@)[k] == n@;
            assert(names@[k]@ == n@);
        }
    }
    false
}

/// The names of the workspaces open in VS Code, from the titles of the
/// visible windows: each distinct name once, in window order.
pub fn get_open_workspace_names(titles: &Vec<String>) -> (names: Vec<String>)
    ensures
        views(names@) == open_workspace_names(views(titles@)),
{
    let mut names: Vec<String> = Vec::new();
    let mut i: usize = 0;
    while i < titles.len()
        invariant
            i <= titles.len(),
            views(names@) == open_workspace_names(views(titles@).take(i as int)),
        decreases titles.len() - i,
    {
        let ghost prev = views(names@);
        assert(views(titles@).take(i + 1).drop_last() =~= views(titles@).take(i as int));
        assert(views(titles@).take(i + 1).last() == titles@[i as int]@);
        if let Some(n) = extract_ws_name_from_title(titles[i].as_str()) {
            if !contains_string(&names, &n) {
                names.push(n);
                assert(views(names@) =~= prev.push(names@.last()@));
            }
        }
        i += 1;
    }
    assert(views(titles@).take(titles.len() as int) =~= views(titles@));
    names
}

// ---------------------------------------------------------------------- laws

/// A workspace name that a title shows as it is: not empty, without white
/// space at either end, and without `(`, ` - ` or `●`.
pub open spec fn plain_name(n: Seq<char>) -> bool {
    &&& n.len() > 0
    &&& trim(n) == n
    &&& !n.contains('(')
    &&& !contains(n, " - "@)
    &&& !n.contains('\u{25CF}')
}

/// The title that the launcher looks for to find the window of workspace `n`
/// shows workspace `n`, so the monitor counts that window as `n` open.
pub proof fn law_title_pattern_shows_name(n: Seq<char>)
    requires
        plain_name(n),
    ensures
        ws_name_from_title(n + " (Workspace) - Visual Studio Code"@) == Some(n),
{
    reveal_strlit(" (Workspace) - Visual Studio Code");
    reveal_strlit(" (Workspace)");
    reveal_strlit(" - ");
    let tail = " (Workspace) - Visual Studio Code"@;
    let t = n + tail;
    let m = workspace_marker();
    let k = n.len() as int;
    assert(t.subrange(k, k + m.len()) =~= m);
    assert(matches_at(t, m, k));
    assert forall|j: int| 0 <= j < k implies !matches_at(t, m, j) by {
        if matches_at(t, m, j) {
            assert(t.subrange(j, j + m.len())[1] == m[1]);
            assert(t[j + 1] == '(');
            if j + 1 < k {
                assert(n[j + 1] == '(');
                assert(n.contains('('));
            } else {
                assert(t[k] == ' ');
            }
        }
    }
    lemma_find_from(t, m, 0);
    assert(find(t, m) == Some(k));
    let before = t.take(k);
    assert(before =~= n);
    let dash = " - "@;
    lemma_rfind_from(n, dash, n.len() - dash.len());
    if rfind(n, dash) is Some {
        let d = rfind(n, dash)->Some_0;
        assert(matches_at(n, dash, d));
        assert(contains(n, dash));
    }
    let dot = seq!['\u{25CF}'];
    lemma_rfind_from(n, dot, n.len() - 1);
    if rfind(n, dot) is Some {
        let d = rfind(n, dot)->Some_0;
        assert(matches_at(n, dot, d));
        assert(n.subrange(d, d + 1)[0] == n[d]);
        assert(n.contains('\u{25CF}'));
    }
}

/// In `pre - n` followed by the title's end, the first ` (Workspace)` is
/// the one after `n`.
proof fn lemma_marker_after_name(pre: Seq<char>, n: Seq<char>)
    requires
        !n.contains('('),
        !contains(pre, " (Workspace)"@),
    ensures
        find(pre + " - "@ + n + " (Workspace) - Visual Studio Code"@, workspace_marker()) == Some(
            pre.len() + 3 + n.len() as int,
        ),
{
    reveal_strlit(" (Workspace) - Visual Studio Code");
    reveal_strlit(" (Workspace)");
    reveal_strlit(" - ");
    let tail = " (Workspace) - Visual Studio Code"@;
    let t = pre + " - "@ + n + tail;
    let m = workspace_marker();
    let pl = pre.len() as int;
    let k = pl + 3 + n.len();
    assert(m.len() == 12);
    assert(t.subrange(k, k + 12) =~= m);
    assert(t[pl] == ' ' && t[pl + 1] == '-');
    assert(t[k] == ' ');
    assert forall|j: int| 0 <= j < k implies !matches_at(t, m, j) by {
        if matches_at(t, m, j) {
            let w = t.subrange(j, j + 12);
            if j + 12 <= pl {
                assert(pre.subrange(j, j + 12) =~= w);
                assert(matches_at(pre, m, j));
            } else if j < pl {
                if j + 12 == pl + 1 {
                    assert(w[11] == t[pl]);
                } else {
                    assert(w[pl + 1 - j] == t[pl + 1]);
                }
            } else {
                assert(w[1] == t[j + 1]);
                if pl + 3 <= j + 1 < k {
                    assert(t[j + 1] == n[j + 1 - pl - 3]);
                }
            }
        }
    }
    assert(matches_at(t, m, k));
    lemma_find_from(t, m, 0);
}

/// In `pre - n`, the last ` - ` is the one before `n`.
proof fn lemma_last_dash_before_name(pre: Seq<char>, n: Seq<char>)
    requires
        !contains(n, " - "@),
        !starts_with(n, "- "@),
    ensures
        rfind(pre + " - "@ + n, " - "@) == Some(pre.len() as int),
{
    reveal_strlit(" - ");
    reveal_strlit("- ");
    let b = pre + " - "@ + n;
    let dash = " - "@;
    let pl = pre.len() as int;
    let i = b.len() - dash.len();
    assert(b.subrange(pl, pl + 3) =~= dash);
    assert forall|j: int| pl < j <= i implies !matches_at(b, dash, j) by {
        if matches_at(b, dash, j) {
            let w = b.subrange(j, j + 3);
            if j == pl + 1 {
                assert(w[0] == b[pl + 1]);
            } else if j == pl + 2 {
                assert(w[1] == n[0] && w[2] == n[1]);
                assert(n.subrange(0, 2) =~= "- "@);
            } else {
                assert(n.subrange(j - pl - 3, j - pl) =~= w);
                assert(matches_at(n, dash, j - pl - 3));
            }
        }
    }
    assert(matches_at(b, dash, pl));
    assert(pl <= i);
    lemma_rfind_from(b, dash, i);
    match crate::text::rfind_from(b, dash, i) {
        Some(r) => {
            if r < pl {
                assert(r < pl <= i);
            }
            if r > pl {
                assert(pl < r <= i);
            }
        },
        None => {
            assert(pl <= i);
        },
    }
}

/// A ` - ` separator wins over a `●` before it: in a title
/// `D F - N (Workspace) - Visual Studio Code` (a `●` of a dirty editor may
/// stand in `D` or `F`), the name shown is `N`, for a plain name `N` that
/// does not start with `- ` and a part `D F` without ` (Workspace)`.
pub proof fn law_title_dash_wins(d: Seq<char>, f: Seq<char>, n: Seq<char>)
    requires
        plain_name(n),
        !starts_with(n, "- "@),
        !contains(d + " "@ + f, " (Workspace)"@),
    ensures
        ws_name_from_title(d + " "@ + f + " - "@ + n + " (Workspace) - Visual Studio Code"@) == Some(n),
{
    reveal_strlit(" - ");
    let pre = d + " "@ + f;
    let t = pre + " - "@ + n + " (Workspace) - Visual Studio Code"@;
    let k = pre.len() + 3 + n.len() as int;
    lemma_marker_after_name(pre, n);
    let b = t.take(k);
    assert(b =~= pre + " - "@ + n);
    lemma_last_dash_before_name(pre, n);
    assert(trim(n) == n);
    assert(b.skip(pre.len() + 3 as int) =~= n);
}

/// Skipping blanks in ` ` + `n` from `j + 1` is skipping them in `n` from `j`, one further.
proof fn lemma_skip_ws_shift(n: Seq<char>, j: int)
    requires
        0 <= j <= n.len(),
    ensures
        skip_ws_from(seq![' '] + n, j + 1) == skip_ws_from(n, j) + 1,
    decreases n.len() - j,
{
    let s = seq![' '] + n;
    if j < n.len() {
        assert(s[j + 1] == n[j]);
        if is_ws(n[j]) {
            lemma_skip_ws_shift(n, j + 1);
        }
    }
}

/// Dropping trailing blanks of ` ` + `n` down to `lo + 1` is dropping those
/// of `n` down to `lo`, one further.
proof fn lemma_drop_ws_shift(n: Seq<char>, lo: int, j: int)
    requires
        0 <= lo <= j <= n.len(),
    ensures
        drop_ws_before(seq![' '] + n, lo + 1, j + 1) == drop_ws_before(n, lo, j) + 1,
    decreases j - lo,
{
    let s = seq![' '] + n;
    if lo < j {
        assert(s[j] == n[j - 1]);
        if is_ws(n[j - 1]) {
            lemma_drop_ws_shift(n, lo, j - 1);
        }
    }
}

/// A blank before a trimmed text is trimmed away.
#[verifier::spinoff_prover]
#[verifier::rlimit(40)]
proof fn lemma_trim_after_blank(n: Seq<char>)
    requires
        trim(n) == n,
    ensures
        trim(seq![' '] + n) == n,
{
    let s = seq![' '] + n;
    lemma_skip_ws_shift(n, 0);
    assert(is_ws(' '));
    assert(skip_ws_from(s, 0) == skip_ws_from(s, 1));
    let a = skip_ws_from(n, 0);
    crate::text::lemma_skip_ws_bounds(n, 0);
    lemma_drop_ws_shift(n, a, n.len() as int);
    let e = drop_ws_before(n, a, n.len() as int);
    crate::text::lemma_drop_ws_bounds(n, a, n.len() as int);
    assert(s.subrange(a + 1, e + 1) =~= n.subrange(a, e));
}

/// A `●` of a dirty workspace shows before the name when no file is open: in
/// a title `D● N (Workspace) - Visual Studio Code` with no ` - ` and no `(`
/// in `D`, the name shown is `N`, for a plain name `N` that does not start
/// with `- `.
pub proof fn law_title_dot_marks_name(d: Seq<char>, n: Seq<char>)
    requires
        plain_name(n),
        !starts_with(n, "- "@),
        !contains(d, " - "@),
        !d.contains('('),
    ensures
        ws_name_from_title(d + seq!['\u{25CF}', ' '] + n + " (Workspace) - Visual Studio Code"@)
            == Some(n),
{
    reveal_strlit(" (Workspace) - Visual Studio Code");
    reveal_strlit(" (Workspace)");
    reveal_strlit(" - ");
    reveal_strlit("- ");
    let pre = d + seq!['\u{25CF}', ' '] + n;
    let tail = " (Workspace) - Visual Studio Code"@;
    let t = pre + tail;
    let m = workspace_marker();
    let k = pre.len() as int;
    assert(t.subrange(k, k + 12) =~= m);
    assert(t[k] == ' ');
    assert forall|j: int| 0 <= j < k implies !matches_at(t, m, j) by {
        if matches_at(t, m, j) {
            let w = t.subrange(j, j + 12);
            assert(w[1] == t[j + 1]);
            if j + 1 < d.len() {
                assert(t[j + 1] == d[j + 1]);
            } else if j + 1 < d.len() + 2 {
                assert(t[j + 1] == '\u{25CF}' || t[j + 1] == ' ');
            } else if j + 1 < k {
                assert(t[j + 1] == n[j + 1 - d.len() - 2]);
            }
        }
    }
    assert(matches_at(t, m, k));
    lemma_find_from(t, m, 0);
    assert(find(t, m) == Some(k));
    assert(t.take(k) =~= pre);
    let dash = " - "@;
    let dl = d.len() as int;
    assert forall|j: int| 0 <= j <= pre.len() - 3 implies !matches_at(pre, dash, j) by {
        if matches_at(pre, dash, j) {
            let w = pre.subrange(j, j + 3);
            if j + 3 <= dl {
                assert(d.subrange(j, j + 3) =~= w);
                assert(matches_at(d, dash, j));
            } else if j <= dl + 1 {
                if j == dl + 1 {
                    assert(w[0] == pre[dl + 1]);
                    assert(w[1] == n[0]);
                    assert(w[2] == n[1]);
                    assert(n.subrange(0, 2) =~= "- "@);
                } else {
                    assert(w[dl - j] == pre[dl]);
                }
            } else {
                assert(n.subrange(j - dl - 2, j - dl + 1) =~= w);
                assert(matches_at(n, dash, j - dl - 2));
            }
        }
    }
    lemma_rfind_from(pre, dash, pre.len() - 3);
    let dot = seq!['\u{25CF}'];
    assert(pre.subrange(dl, dl + 1) =~= dot);
    assert forall|j: int| dl < j <= pre.len() - 1 implies !matches_at(pre, dot, j) by {
        if matches_at(pre, dot, j) {
            assert(pre.subrange(j, j + 1)[0] == pre[j]);
            if j == dl + 1 {
                assert(pre[j] == ' ');
            } else {
                assert(pre[j] == n[j - dl - 2]);
                assert(n.contains('\u{25CF}'));
            }
        }
    }
    lemma_rfind_from(pre, dot, pre.len() - 1);
    match crate::text::rfind_from(pre, dot, pre.len() - 1) {
        Some(r) => {
            if r < dl {
                assert(matches_at(pre, dot, dl));
            }
        },
        None => {
            assert(matches_at(pre, dot, dl));
        },
    }
    assert(rfind(pre, dot) == Some(dl));
    assert(pre.skip(dl + 1) =~= seq![' '] + n);
    lemma_trim_after_blank(n);
}

} // verus!
