//! JSON with `//` comments, as `.code-workspace` files hold it.
use vstd::prelude::*;
use crate::json::{Json, JsonModel, parse_json, parsed_json, pretty_json, to_pretty_json};
use crate::text::{
    chars_of, concat_str, is_ws, push_all, skip_ws_from, slice_range, starts_with,
    starts_with_chars, string_of, trim_start, trim_start_chars,
};

verus! {

/// Where the line that starts at `i` ends: the first `'\n'` at or after `i`,
/// or the end of the text.
pub open spec fn line_end(s: Seq<char>, i: int) -> int
    decreases s.len() - i,
{
    if i < 0 || i >= s.len() {
        s.len() as int
    } else if s[i] == '\n' {
        i
    } else {
        line_end(s, i + 1)
    }
}

/// Bounds of `line_end`.
pub proof fn lemma_line_end(s: Seq<char>, i: int)
    requires
        0 <= i <= s.len(),
    ensures
        i <= line_end(s, i) <= s.len(),
        line_end(s, i) < s.len() ==> s[line_end(s, i)] == '\n',
        forall|j: int| i <= j < line_end(s, i) ==> s[j] != '\n',
    decreases s.len() - i,
{
    if i < s.len() && s[i] != '\n' {
        lemma_line_end(s, i + 1);
    }
}

/// The text from position `i` on with its `//` comments left out. Outside a
/// string (`in_str` false), `//` starts a comment that runs to the end of its
/// line (the `'\n'` stays). Inside a string, which a `"` not escaped by a
/// `\` ends (`esc`: the character before was an escaping `\`), nothing is
/// a comment.
pub open spec fn strip_from(s: Seq<char>, i: int, in_str: bool, esc: bool) -> Seq<char>
    decreases s.len() - i,
{
    if i < 0 || i >= s.len() {
        Seq::empty()
    } else if in_str {
        seq![s[i]] + strip_from(s, i + 1, esc || s[i] != '"', !esc && s[i] == '\\')
    } else if s[i] == '/' && i + 1 < s.len() && s[i + 1] == '/' {
        proof {
            lemma_line_end(s, i);
        }
        strip_from(s, line_end(s, i), false, false)
    } else {
        seq![s[i]] + strip_from(s, i + 1, s[i] == '"', false)
    }
}

/// A line with its `//` comment (outside strings) left out.
pub open spec fn strip_line(l: Seq<char>) -> Seq<char> {
    strip_from(l, 0, false, false)
}

/// The line that starts at `i`, as `str::lines` yields it: without its
/// `'\n'`, and without a `'\r'` just before that `'\n'`.
pub open spec fn line_at(s: Seq<char>, i: int) -> Seq<char> {
    let e = line_end(s, i);
    if e < s.len() && e > i && s[e - 1] == '\r' {
        s.subrange(i, e - 1)
    } else {
        s.subrange(i, e)
    }
}

/// A line whose first non-blank characters are `//`: a comment line.
pub open spec fn is_comment_line(line: Seq<char>) -> bool {
    starts_with(trim_start(line), "//"@)
}

/// The lines of `s` from position `i` on, comment lines left out and the
/// `//` comments of the others (outside strings) cut off.
pub open spec fn code_lines_from(s: Seq<char>, i: int) -> Seq<Seq<char>>
    decreases s.len() - i + 1,
{
    if i < 0 || i >= s.len() {
        Seq::empty()
    } else {
        proof {
            lemma_line_end(s, i);
        }
        let rest = code_lines_from(s, line_end(s, i) + 1);
        if is_comment_line(line_at(s, i)) {
            rest
        } else {
            seq![strip_line(line_at(s, i))] + rest
        }
    }
}

/// Lines joined with `'\n'` between them (`[T]::join`).
pub open spec fn join_lines(ls: Seq<Seq<char>>) -> Seq<char>
    decreases ls.len(),
{
    if ls.len() == 0 {
        Seq::empty()
    } else if ls.len() == 1 {
        ls[0]
    } else {
        join_lines(ls.drop_last()) + seq!['\n'] + ls.last()
    }
}

/// The text with its `//` comments left out: its lines (as `str::lines`
/// splits them) without the comment lines, each cut at a `//` that stands
/// outside a string, joined with `'\n'`.
pub open spec fn strip_comments(s: Seq<char>) -> Seq<char> {
    join_lines(code_lines_from(s, 0))
}

/// A line with its `//` comment (outside strings) left out.
fn strip_line_chars(l: &[char]) -> (r: Vec<char>)
    ensures
        r@ == strip_line(l@),
{
    let ghost sv = l@;
    let mut out: Vec<char> = Vec::new();
    let mut in_str = false;
    let mut esc = false;
    let mut i: usize = 0;
    while i < l.len()
        invariant
            sv == l@,
            i <= l.len(),
            out@ + strip_from(sv, i as int, in_str, esc) == strip_line(sv),
        decreases l.len() - i,
    {
        let c = l[i];
        let ghost before = out@;
        if in_str {
            out.push(c);
            assert(out@ + strip_from(sv, i + 1, esc || c != '"', !esc && c == '\\') == before
                + strip_from(sv, i as int, in_str, esc));
            let next_esc = !esc && c == '\\';
            in_str = esc || c != '"';
            esc = next_esc;
            i += 1;
        } else if c == '/' && i + 1 < l.len() && l[i + 1] == '/' {
            proof {
                lemma_line_end(sv, i as int);
            }
            let mut e: usize = i;
            while e < l.len() && l[e] != '\n'
                invariant
                    sv == l@,
                    i <= e <= l.len(),
                    line_end(sv, i as int) == line_end(sv, e as int),
                decreases l.len() - e,
            {
                e += 1;
            }
            assert(strip_from(sv, i as int, false, false) == strip_from(sv, e as int, false, false));
            i = e;
            esc = false;
        } else {
            out.push(c);
            assert(out@ + strip_from(sv, i + 1, c == '"', false) == before + strip_from(
                sv,
                i as int,
                in_str,
                esc,
            ));
            in_str = c == '"';
            esc = false;
            i += 1;
        }
    }
    assert(strip_from(sv, i as int, in_str, esc) =~= Seq::<char>::empty());
    assert(out@ =~= strip_line(sv));
    out
}

/// Strips `//` comments from JSONC content so that `serde_json` can parse
/// it: the lines of the content (as `str::lines` splits them) whose first
/// non-blank characters are `//` are left out, the other lines lose a `//`
/// comment that stands outside a string, and the lines are joined with
/// `'\n'`.
pub fn strip_json_comments(content: &str) -> (r: String)
    ensures
        r@ == strip_comments(content@),
{
    let s = chars_of(content);
    let slash: [char; 2] = ['/', '/'];
    let ghost sv = s@;
    let mut out: Vec<char> = Vec::new();
    let ghost mut kept: Seq<Seq<char>> = Seq::empty();
    let mut i: usize = 0;
    let mut have_line = false;
    proof {
        reveal_strlit("//");
        assert(slash@ == "//"@);
    }
    while i < s.len()
        invariant
            sv == s@,
            i <= s.len(),
            slash@ == "//"@,
            kept + code_lines_from(sv, i as int) == code_lines_from(sv, 0),
            out@ == join_lines(kept),
            have_line == (kept.len() > 0),
        decreases s.len() - i,
    {
        proof {
            lemma_line_end(sv, i as int);
        }
        let mut e: usize = i;
        while e < s.len() && s[e] != '\n'
            invariant
                sv == s@,
                i <= e <= s.len(),
                line_end(sv, i as int) == line_end(sv, e as int),
            decreases s.len() - e,
        {
            e += 1;
        }
        let stop = if e < s.len() && e > i && s[e - 1] == '\r' {
            e - 1
        } else {
            e
        };
        let line = slice_range(s.as_slice(), i, stop);
        assert(line@ == line_at(sv, i as int));
        let trimmed = trim_start_chars(line.as_slice());
        if !starts_with_chars(trimmed.as_slice(), slash.as_slice()) {
            let code = strip_line_chars(line.as_slice());
            proof {
                let old_kept = kept;
                kept = kept.push(code@);
                assert(kept.drop_last() == old_kept);
                assert(kept + code_lines_from(sv, e + 1) =~= old_kept + code_lines_from(
                    sv,
                    i as int,
                ));
            }
            if have_line {
                out.push('\n');
            }
            push_all(&mut out, code.as_slice());
            have_line = true;
        } else {
            assert(kept + code_lines_from(sv, e + 1) == kept + code_lines_from(sv, i as int));
        }
        proof {
            if e == s.len() {
                assert(code_lines_from(sv, e as int) =~= code_lines_from(sv, e + 1));
            }
        }
        i = if e < s.len() {
            e + 1
        } else {
            e
        };
    }
    proof {
        assert(code_lines_from(sv, i as int) =~= Seq::empty());
        assert(kept =~= code_lines_from(sv, 0));
    }
    string_of(out.as_slice())
}

// ------------------------------------------------------------ plain JSON

/// From position `i` on, no `//` stands outside a string of the line.
pub open spec fn comment_free_from(l: Seq<char>, i: int, in_str: bool, esc: bool) -> bool
    decreases l.len() - i,
{
    if i < 0 || i >= l.len() {
        true
    } else if in_str {
        comment_free_from(l, i + 1, esc || l[i] != '"', !esc && l[i] == '\\')
    } else if l[i] == '/' && i + 1 < l.len() && l[i + 1] == '/' {
        false
    } else {
        comment_free_from(l, i + 1, l[i] == '"', false)
    }
}

/// No `//` stands outside a string of the line.
pub open spec fn comment_free(l: Seq<char>) -> bool {
    comment_free_from(l, 0, false, false)
}

/// `i` is where a line of `s` starts.
pub open spec fn line_start(s: Seq<char>, i: int) -> bool {
    0 <= i < s.len() && (i == 0 || s[i - 1] == '\n')
}

/// A line without a comment outside its strings comes through unchanged.
pub proof fn lemma_comment_free_strip(l: Seq<char>, i: int, in_str: bool, esc: bool)
    requires
        0 <= i <= l.len(),
        comment_free_from(l, i, in_str, esc),
    ensures
        strip_from(l, i, in_str, esc) == l.subrange(i, l.len() as int),
    decreases l.len() - i,
{
    if i < l.len() {
        if in_str {
            lemma_comment_free_strip(l, i + 1, esc || l[i] != '"', !esc && l[i] == '\\');
        } else {
            lemma_comment_free_strip(l, i + 1, l[i] == '"', false);
        }
        assert(seq![l[i]] + l.subrange(i + 1, l.len() as int) =~= l.subrange(i, l.len() as int));
    } else {
        assert(l.subrange(i, l.len() as int) =~= Seq::<char>::empty());
    }
}

/// Blanks do not change whether a line is free of comments.
proof fn lemma_comment_free_blanks(l: Seq<char>, j: int)
    requires
        0 <= j <= l.len(),
    ensures
        j <= skip_ws_from(l, j) <= l.len(),
        comment_free_from(l, j, false, false) == comment_free_from(l, skip_ws_from(l, j), false, false),
    decreases l.len() - j,
{
    if j < l.len() && is_ws(l[j]) {
        lemma_comment_free_blanks(l, j + 1);
    }
}

/// A comment line is not free of comments.
proof fn lemma_comment_line(l: Seq<char>)
    requires
        is_comment_line(l),
    ensures
        !comment_free(l),
{
    reveal_strlit("//");
    lemma_comment_free_blanks(l, 0);
    let a = skip_ws_from(l, 0);
    let t = trim_start(l);
    assert(t.subrange(0, 2) == "//"@);
    assert(t[0] == l[a] && t[1] == l[a + 1]);
    assert(l[a] == '/' && l[a + 1] == '/') by {
        assert("//"@[0] == '/' && "//"@[1] == '/');
        assert(t.subrange(0, 2)[0] == t[0] && t.subrange(0, 2)[1] == t[1]);
    }
}

/// `[x] + rest` joined is `x`, a line break and `rest` joined.
proof fn lemma_join_front(x: Seq<char>, rest: Seq<Seq<char>>)
    requires
        rest.len() > 0,
    ensures
        join_lines(seq![x] + rest) == x + seq!['\n'] + join_lines(rest),
    decreases rest.len(),
{
    let t = seq![x] + rest;
    assert(t.len() >= 2);
    assert(t.last() == rest.last());
    assert(join_lines(t) == join_lines(t.drop_last()) + seq!['\n'] + t.last());
    if rest.len() == 1 {
        assert(t.drop_last() =~= seq![x]);
        assert(join_lines(seq![x]) == x);
        assert(join_lines(rest) == rest[0]);
        assert(rest.last() == rest[0]);
        assert(join_lines(t) =~= x + seq!['\n'] + join_lines(rest));
    } else {
        assert(t.drop_last() =~= seq![x] + rest.drop_last());
        lemma_join_front(x, rest.drop_last());
        assert(join_lines(rest) == join_lines(rest.drop_last()) + seq!['\n'] + rest.last());
        assert(join_lines(t) =~= x + seq!['\n'] + join_lines(rest));
    }
}

/// From a line start on, a text as `law_strip_plain_json` takes it comes
/// through stripping unchanged.
proof fn lemma_strip_plain_from(s: Seq<char>, i: int)
    requires
        !s.contains('\r'),
        s.last() != '\n',
        forall|k: int| line_start(s, k) ==> #[trigger] comment_free(line_at(s, k)),
        line_start(s, i),
    ensures
        code_lines_from(s, i).len() > 0,
        join_lines(code_lines_from(s, i)) == s.subrange(i, s.len() as int),
    decreases s.len() - i,
{
    lemma_line_end(s, i);
    let e = line_end(s, i);
    let line = line_at(s, i);
    if e < s.len() && e > i && s[e - 1] == '\r' {
        assert(s.contains('\r'));
    }
    assert(line == s.subrange(i, e));
    assert(comment_free(line));
    if is_comment_line(line) {
        lemma_comment_line(line);
    }
    lemma_comment_free_strip(line, 0, false, false);
    assert(strip_line(line) == line);
    let rest = code_lines_from(s, e + 1);
    if e == s.len() {
        assert(rest =~= Seq::empty());
        assert(code_lines_from(s, i) =~= seq![line]);
    } else {
        assert(s[e] == '\n');
        assert(e + 1 < s.len());
        assert(line_start(s, e + 1));
        lemma_strip_plain_from(s, e + 1);
        lemma_join_front(line, rest);
        assert(s.subrange(i, s.len() as int) =~= line + seq!['\n'] + s.subrange(e + 1, s.len() as int));
    }
}

/// A text whose lines hold no `//` outside their strings, without `'\r'` and
/// without a final line break, comes through stripping unchanged. The JSON
/// that the launcher writes back is such a text, so reading it strips
/// nothing (`//` inside strings, as in URLs, stays).
pub proof fn law_strip_plain_json(s: Seq<char>)
    requires
        !s.contains('\r'),
        s.len() == 0 || s.last() != '\n',
        forall|k: int| line_start(s, k) ==> #[trigger] comment_free(line_at(s, k)),
    ensures
        strip_comments(s) == s,
{
    if s.len() > 0 {
        lemma_strip_plain_from(s, 0);
        assert(s.subrange(0, s.len() as int) =~= s);
    } else {
        assert(code_lines_from(s, 0) =~= Seq::empty());
        assert(s =~= Seq::<char>::empty());
    }
}

/// The JSON of a `.code-workspace` file's content, its `//` comments
/// stripped first; nothing when that does not parse.
pub fn read_workspace_json(content: &str) -> (r: Option<Json>)
    ensures
        match r {
            Some(j) => parsed_json(strip_comments(content@)) == Ok::<JsonModel, Seq<char>>(
                j.model(),
            ),
            None => parsed_json(strip_comments(content@)) is Err,
        },
{
    let cleaned = strip_json_comments(content);
    match parse_json(cleaned.as_str()) {
        Ok(j) => Some(j),
        Err(_) => None,
    }
}

/// The text to write back to a `.code-workspace` file (always plain JSON,
/// without comments), or the message `Cannot serialize: <error>`.
pub fn workspace_json_text(json: &Json) -> (r: Result<String, String>)
    ensures
        match pretty_json(json.model()) {
            Ok(t) => r matches Ok(x) && x@ == t,
            Err(e) => r matches Err(m) && m@ == "Cannot serialize: "@ + e,
        },
{
    match to_pretty_json(json) {
        Ok(t) => Ok(t),
        Err(e) => Err(concat_str("Cannot serialize: ", e.as_str())),
    }
}

} // verus!
