//! The registry of the terminal sessions that the launcher runs, and the
//! program line a session starts with.
//!
//! A session (its input pipe and its child process) is whatever the caller
//! stores; the registry is `None` until its first use.
use vstd::prelude::*;
use crate::table::Table;
use crate::title::views;
use crate::text::{chars_of, concat_str, contains, eq_ignore_ascii_case, eq_ignore_ascii_case_chars, owned, str_contains};

verus! {

broadcast use vstd::string::group_string_axioms;

/// The sessions that a registry holds, or `None` before its first use.
pub open spec fn registry_model<V>(r: Option<Table<V>>) -> Option<Map<Seq<char>, V>> {
    match r {
        Some(t) => Some(t@),
        None => None,
    }
}

/// The sessions of a registry once it is set up: none before its first use.
pub open spec fn sessions_of<V>(r: Option<Map<Seq<char>, V>>) -> Map<Seq<char>, V> {
    match r {
        Some(m) => m,
        None => Map::empty(),
    }
}

/// What a lookup of session `id` answers.
pub open spec fn lookup<V>(r: Option<Map<Seq<char>, V>>, id: Seq<char>) -> Result<V, Seq<char>> {
    match r {
        None => Err("No terminals"@),
        Some(m) => if m.contains_key(id) {
            Ok(m[id])
        } else {
            Err("Not found"@)
        },
    }
}

/// Sets up the session registry on first use; one in use is left as it is.
pub fn init_terminals<V>(terms: &mut Option<Table<V>>)
    ensures
        registry_model(*final(terms)) == Some(sessions_of(registry_model(*old(terms)))),
        (*old(terms)) is Some ==> *final(terms) == *old(terms),
{
    if terms.is_none() {
        *terms = Some(Table::new());
    }
}

/// Stores a new session under `id`, setting the registry up on first use.
pub fn register_session<V>(terms: &mut Option<Table<V>>, id: String, session: V)
    ensures
        registry_model(*final(terms)) == Some(
            sessions_of(registry_model(*old(terms))).insert(id@, session),
        ),
{
    init_terminals(terms);
    let mut cur: Option<Table<V>> = None;
    std::mem::swap(&mut cur, terms);
    let mut t = match cur {
        Some(t) => t,
        None => Table::new(),
    };
    t.insert(id, session);
    *terms = Some(t);
}

/// The session stored under `id`: "No terminals" before the registry's
/// first use, "Not found" when it has no such session.
pub fn find_session<'a, V>(terms: &'a Option<Table<V>>, id: &str) -> (r: Result<&'a V, String>)
    ensures
        match r {
            Ok(s) => lookup(registry_model(*terms), id@) == Ok::<V, Seq<char>>(*s),
            Err(e) => lookup(registry_model(*terms), id@) == Err::<V, Seq<char>>(e@),
        },
{
    match terms {
        None => Err(owned("No terminals")),
        Some(t) => match t.get(id) {
            Some(s) => Ok(s),
            None => Err(owned("Not found")),
        },
    }
}

/// Takes the session stored under `id` out of the registry, setting the
/// registry up on first use.
pub fn take_session<V>(terms: &mut Option<Table<V>>, id: &str) -> (r: Option<V>)
    ensures
        registry_model(*final(terms)) == Some(sessions_of(registry_model(*old(terms))).remove(id@)),
        match r {
            Some(s) => lookup(registry_model(*old(terms)), id@) == Ok::<V, Seq<char>>(s),
            None => !sessions_of(registry_model(*old(terms))).contains_key(id@),
        },
{
    init_terminals(terms);
    let mut cur: Option<Table<V>> = None;
    std::mem::swap(&mut cur, terms);
    let mut t = match cur {
        Some(t) => t,
        None => Table::new(),
    };
    let r = t.remove(id);
    *terms = Some(t);
    r
}

/// A session registered under `id` is what a lookup of `id` then answers.
pub proof fn law_lookup_after_register<V>(st: Option<Map<Seq<char>, V>>, id: Seq<char>, s: V)
    ensures
        lookup(Some(sessions_of(st).insert(id, s)), id) == Ok::<V, Seq<char>>(s),
{
}

/// Registering a session under `id` leaves the lookup of every other id as it was,
/// once the registry is set up.
pub proof fn law_register_keeps_others<V>(
    st: Option<Map<Seq<char>, V>>,
    id: Seq<char>,
    other: Seq<char>,
    s: V,
)
    requires
        other != id,
    ensures
        lookup(Some(sessions_of(st).insert(id, s)), other) == lookup(Some(sessions_of(st)), other),
{
}

/// Once the session of `id` is taken out, a lookup of `id` answers "Not found".
pub proof fn law_lookup_after_take<V>(st: Option<Map<Seq<char>, V>>, id: Seq<char>)
    ensures
        lookup(Some(sessions_of(st).remove(id)), id) == Err::<V, Seq<char>>("Not found"@),
{
}

/// Setting the registry up twice is setting it up once.
pub proof fn law_init_terminals_idempotent<V>(st: Option<Map<Seq<char>, V>>)
    ensures
        sessions_of(Some(sessions_of(st))) == sessions_of(st),
{
}

// ------------------------------------------------------------ program line

/// A copy of a list of strings.
pub fn copy_strings(v: &Vec<String>) -> (r: Vec<String>)
    ensures
        r@ == v@,
{
    let mut r: Vec<String> = Vec::new();
    let mut i: usize = 0;
    while i < v.len()
        invariant
            i <= v.len(),
            r@ == v@.take(i as int),
        decreases v.len() - i,
    {
        r.push(v[i].clone());
        assert(v@.take(i + 1) =~= v@.take(i as int).push(v@[i as int]));
        i += 1;
    }
    assert(v@.take(i as int) =~= v@);
    r
}

/// A PowerShell executable name, in any ASCII case.
pub open spec fn is_powershell_name(c: Seq<char>) -> bool {
    eq_ignore_ascii_case(c, "powershell"@) || eq_ignore_ascii_case(c, "pwsh"@)
}

/// The suffix that sends every PowerShell output stream to standard output.
pub open spec fn all_streams() -> Seq<char> {
    " *>&1"@
}

/// The program and arguments a session starts for `command` and `args`.
///
/// A bare command line with spaces runs through PowerShell; a PowerShell
/// command gets all its output streams on standard output.
pub open spec fn spawn_line(command: Seq<char>, args: Seq<Seq<char>>) -> (Seq<char>, Seq<Seq<char>>) {
    if args.len() == 0 && contains(command, " "@) {
        ("powershell"@, seq!["-NoProfile"@, "-Command"@, command + all_streams()])
    } else if is_powershell_name(command) && args.len() > 0 {
        (command, args.update(args.len() - 1, args.last() + all_streams()))
    } else {
        (command, args)
    }
}

/// Whether a program name is PowerShell's (`powershell` or `pwsh`, in any ASCII case).
pub fn is_powershell(command: &str) -> (r: bool)
    ensures
        r == is_powershell_name(command@),
{
    let c = chars_of(command);
    let ps = chars_of("powershell");
    let pw = chars_of("pwsh");
    eq_ignore_ascii_case_chars(c.as_slice(), ps.as_slice()) || eq_ignore_ascii_case_chars(
        c.as_slice(),
        pw.as_slice(),
    )
}

/// The program and arguments that a terminal session is started with.
pub fn spawn_plan(command: String, args: Vec<String>) -> (r: (String, Vec<String>))
    ensures
        (r.0@, views(r.1@)) == spawn_line(command@, views(args@)),
{
    let mut args = args;
    let is_ps = is_powershell(command.as_str());
    if args.len() == 0 && str_contains(command.as_str(), " ") {
        let mut v: Vec<String> = Vec::new();
        v.push(owned("-NoProfile"));
        v.push(owned("-Command"));
        v.push(concat_str(command.as_str(), " *>&1"));
        assert(views(v@) =~= seq!["-NoProfile"@, "-Command"@, command@ + all_streams()]);
        (owned("powershell"), v)
    } else {
        if is_ps && args.len() > 0 {
            let last = args.len() - 1;
            let s = concat_str(args[last].as_str(), " *>&1");
            let ghost before = args@;
            args.set(last, s);
            assert(views(args@) =~= views(before).update(
                last as int,
                views(before).last() + all_streams(),
            ));
        }
        (command, args)
    }
}

} // verus!
