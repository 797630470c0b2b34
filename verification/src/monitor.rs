//! The workspace monitor: the live-server terminal windows it tracks per
//! workspace, and when it announces a change.
//!
//! Window handles are the integers the window system gives; which of them are
//! still windows is asked of the window system by the caller.
use vstd::prelude::*;
use crate::table::{entries_map, lemma_entries_map_keys, Table};
use crate::title::views;
use crate::text::str_eq;

verus! {

broadcast use vstd::string::group_string_axioms;

/// The handles of `hs` that are among `alive`, in order.
pub open spec fn live_handles(hs: Seq<isize>, alive: Seq<isize>) -> Seq<isize>
    decreases hs.len(),
{
    if hs.len() == 0 {
        hs
    } else if alive.contains(hs.last()) {
        live_handles(hs.drop_last(), alive).push(hs.last())
    } else {
        live_handles(hs.drop_last(), alive)
    }
}

/// The handle lists of a table, as sequences.
pub open spec fn handle_lists(m: Map<Seq<char>, Vec<isize>>) -> Map<Seq<char>, Seq<isize>> {
    Map::new(|k: Seq<char>| m.contains_key(k), |k: Seq<char>| m[k]@)
}

/// The live terminals of a registry, empty before its first use.
pub open spec fn live_model(r: Option<Table<Vec<isize>>>) -> Map<Seq<char>, Seq<isize>> {
    match r {
        Some(t) => handle_lists(t@),
        None => Map::empty(),
    }
}

/// The handles recorded for workspace `k`.
pub open spec fn handles_for(m: Map<Seq<char>, Seq<isize>>, k: Seq<char>) -> Seq<isize> {
    if m.contains_key(k) {
        m[k]
    } else {
        Seq::empty()
    }
}

/// The table once dead windows are dropped: each list keeps its live
/// handles, and a workspace with none left is dropped.
pub open spec fn pruned_lists(m: Map<Seq<char>, Seq<isize>>, alive: Seq<isize>) -> Map<
    Seq<char>,
    Seq<isize>,
> {
    Map::new(
        |k: Seq<char>| m.contains_key(k) && live_handles(m[k], alive).len() > 0,
        |k: Seq<char>| live_handles(m[k], alive),
    )
}

/// Sets up the live-terminal registry on first use; one in use is left as it is.
pub fn init_live_terminals(live: &mut Option<Table<Vec<isize>>>)
    ensures
        (*final(live)) is Some,
        (*old(live)) is Some ==> *final(live) == *old(live),
        live_model(*final(live)) == live_model(*old(live)),
{
    if live.is_none() {
        *live = Some(Table::new());
        assert(live_model(*live) =~= Map::empty());
    }
}

/// Whether the console of a task of this type is tracked as a live-server terminal.
pub fn should_track_live_terminal(task_type: &str) -> (r: bool)
    ensures
        r == (task_type@ == "live-server"@),
{
    str_eq(task_type, "live-server")
}

/// Records the console window `hwnd` of a live-server task of `workspace`.
pub fn record_live_terminal(live: &mut Option<Table<Vec<isize>>>, workspace: String, hwnd: isize)
    ensures
        (*final(live)) is Some,
        live_model(*final(live)) == live_model(*old(live)).insert(
            workspace@,
            handles_for(live_model(*old(live)), workspace@).push(hwnd),
        ),
{
    init_live_terminals(live);
    let ghost base = live_model(*live);
    let mut cur: Option<Table<Vec<isize>>> = None;
    std::mem::swap(&mut cur, live);
    let mut t = match cur {
        Some(t) => t,
        None => Table::new(),
    };
    let mut list = match t.remove(workspace.as_str()) {
        Some(l) => l,
        None => Vec::new(),
    };
    assert(list@ == handles_for(base, workspace@));
    list.push(hwnd);
    let ghost pushed = list@;
    t.insert(workspace, list);
    *live = Some(t);
    assert(live_model(*live) =~= base.insert(workspace@, pushed));
}

/// The handles of `hs` that are among `alive`, in order.
pub fn keep_live_handles(hs: &Vec<isize>, alive: &Vec<isize>) -> (r: Vec<isize>)
    ensures
        r@ == live_handles(hs@, alive@),
{
    let mut r: Vec<isize> = Vec::new();
    let mut i: usize = 0;
    while i < hs.len()
        invariant
            i <= hs.len(),
            r@ == live_handles(hs@.take(i as int), alive@),
        decreases hs.len() - i,
    {
        assert(hs@.take(i + 1).drop_last() =~= hs@.take(i as int));
        let h = hs[i];
        let mut j: usize = 0;
        let mut found = false;
        while j < alive.len()
            invariant
                j <= alive.len(),
                found == exists|k: int| 0 <= k < j && alive@[k] == h,
            decreases alive.len() - j,
        {
            if alive[j] == h {
                found = true;
            }
            j += 1;
        }
        if found {
            r.push(h);
        }
        i += 1;
    }
    assert(hs@.take(i as int) =~= hs@);
    r
}

/// Drops the windows that are no longer there: each workspace keeps its live
/// handles, and one with none left is dropped.
pub fn prune_live_terminals(t: &Table<Vec<isize>>, alive: &Vec<isize>) -> (r: Table<Vec<isize>>)
    ensures
        handle_lists(r@) == pruned_lists(handle_lists(t@), alive@),
{
    let es = t.entries();
    let mut out: Table<Vec<isize>> = Table::new();
    let mut i: usize = 0;
    while i < es.len()
        invariant
            i <= es@.len(),
            handle_lists(out@) == pruned_lists(handle_lists(entries_map(es@.take(i as int))), alive@),
        decreases es@.len() - i,
    {
        let ghost m = entries_map(es@.take(i as int));
        assert(es@.take(i + 1).drop_last() =~= es@.take(i as int));
        assert(entries_map(es@.take(i + 1)) == m.insert(es@[i as int].0@, es@[i as int].1));
        let kept = keep_live_handles(&es[i].1, alive);
        let key = es[i].0.clone();
        let ghost k = es@[i as int].0@;
        let ghost v = es@[i as int].1;
        let ghost before = handle_lists(out@);
        let ghost hm = handle_lists(m);
        assert(handle_lists(m.insert(k, v)) =~= hm.insert(k, v@));
        if kept.len() > 0 {
            let ghost kv = kept@;
            out.insert(key, kept);
            assert(handle_lists(out@) =~= before.insert(k, kv));
            assert(pruned_lists(hm.insert(k, v@), alive@) =~= pruned_lists(hm, alive@).insert(k, kv));
        } else {
            let _ = out.remove(key.as_str());
            assert(handle_lists(out@) =~= before.remove(k));
            assert(pruned_lists(hm.insert(k, v@), alive@) =~= pruned_lists(hm, alive@).remove(k));
        }
        i += 1;
    }
    assert(es@.take(i as int) =~= es@);
    out
}

/// Pruning keeps only live handles, and no workspace is left without one.
pub proof fn law_pruned_lists_live(m: Map<Seq<char>, Seq<isize>>, alive: Seq<isize>, k: Seq<char>)
    requires
        pruned_lists(m, alive).contains_key(k),
    ensures
        pruned_lists(m, alive)[k].len() > 0,
        forall|i: int|
            0 <= i < pruned_lists(m, alive)[k].len() ==> alive.contains(
                #[trigger] pruned_lists(m, alive)[k][i],
            ),
{
    lemma_live_handles(m[k], alive);
}

/// Facts of `live_handles`: every kept handle is live, and keeping the live
/// handles twice keeps the same ones.
pub proof fn lemma_live_handles(hs: Seq<isize>, alive: Seq<isize>)
    ensures
        forall|i: int|
            0 <= i < live_handles(hs, alive).len() ==> alive.contains(
                #[trigger] live_handles(hs, alive)[i],
            ),
        live_handles(live_handles(hs, alive), alive) == live_handles(hs, alive),
    decreases hs.len(),
{
    if hs.len() > 0 {
        let d = hs.drop_last();
        lemma_live_handles(d, alive);
        let l = live_handles(d, alive);
        if alive.contains(hs.last()) {
            assert(l.push(hs.last()).drop_last() =~= l);
        }
    }
}

/// Pruning twice with the same live windows is pruning once.
pub proof fn law_prune_idempotent(m: Map<Seq<char>, Seq<isize>>, alive: Seq<isize>)
    ensures
        pruned_lists(pruned_lists(m, alive), alive) == pruned_lists(m, alive),
{
    assert forall|k: Seq<char>| #[trigger] pruned_lists(m, alive).contains_key(k) implies live_handles(
        pruned_lists(m, alive)[k],
        alive,
    ) == pruned_lists(m, alive)[k] by {
        lemma_live_handles(m[k], alive);
    }
    assert(pruned_lists(pruned_lists(m, alive), alive) =~= pruned_lists(m, alive));
}

// ------------------------------------------------------------------ payload

/// What the monitor announces: the open workspaces, the one in front, and
/// the live-server terminals of each workspace.
#[derive(Debug, Clone)]
pub struct MonitorPayload {
    pub open_names: Vec<String>,
    pub active_name: Option<String>,
    pub live_terminals: Table<Vec<isize>>,
}

/// The view of an optional text.
pub open spec fn option_text(o: Option<String>) -> Option<Seq<char>> {
    match o {
        Some(s) => Some(s@),
        None => None,
    }
}

/// Two payloads announce the same thing.
pub open spec fn same_payload(a: MonitorPayload, b: MonitorPayload) -> bool {
    &&& views(a.open_names@) == views(b.open_names@)
    &&& option_text(a.active_name) == option_text(b.active_name)
    &&& handle_lists(a.live_terminals@) == handle_lists(b.live_terminals@)
}

/// The payload the monitor holds after seeing `p`, and whether it announces `p`:
/// it does on its first tick and whenever `p` differs from the last one announced.
pub open spec fn monitor_next(last: Option<MonitorPayload>, p: MonitorPayload) -> (
    Option<MonitorPayload>,
    bool,
) {
    match last {
        None => (Some(p), true),
        Some(q) => if same_payload(q, p) {
            (last, false)
        } else {
            (Some(p), true)
        },
    }
}

/// After a first payload, a change is announced exactly when the open
/// names, the active name (`None` included) or the live terminals differ
/// from the last payload announced.
pub proof fn law_announce_iff_differs(q: MonitorPayload, p: MonitorPayload)
    ensures
        monitor_next(Some(q), p).1 == !(views(q.open_names@) == views(p.open_names@)
            && option_text(q.active_name) == option_text(p.active_name) && handle_lists(
            q.live_terminals@,
        ) == handle_lists(p.live_terminals@)),
{
}

/// A focus change is announced: the active workspace going away (from some
/// name to none), coming (from none to some) or changing.
pub proof fn law_active_change_announced(q: MonitorPayload, p: MonitorPayload)
    requires
        q.active_name is Some != p.active_name is Some || (q.active_name is Some
            && p.active_name is Some && q.active_name->Some_0@ != p.active_name->Some_0@),
    ensures
        monitor_next(Some(q), p).1,
{
}

/// Whether two lists of names are the same, name by name.
pub fn same_names(a: &Vec<String>, b: &Vec<String>) -> (r: bool)
    ensures
        r == (views(a@) == views(b@)),
{
    if a.len() != b.len() {
        assert(views(a@).len() != views(b@).len());
        return false;
    }
    let mut i: usize = 0;
    while i < a.len()
        invariant
            i <= a.len(),
            a.len() == b.len(),
            forall|j: int| 0 <= j < i ==> (#[trigger] a@[j])@ == b@[j]@,
        decreases a.len() - i,
    {
        if !str_eq(a[i].as_str(), b[i].as_str()) {
            assert(views(a@)[i as int] != views(b@)[i as int]);
            return false;
        }
        i += 1;
    }
    assert(views(a@) =~= views(b@));
    true
}

/// Whether two optional texts are the same.
pub fn same_option_text(a: &Option<String>, b: &Option<String>) -> (r: bool)
    ensures
        r == (option_text(*a) == option_text(*b)),
{
    match (a, b) {
        (Some(x), Some(y)) => str_eq(x.as_str(), y.as_str()),
        (None, None) => true,
        _ => false,
    }
}

/// Whether two handle lists are the same.
pub fn same_handles(a: &Vec<isize>, b: &Vec<isize>) -> (r: bool)
    ensures
        r == (a@ == b@),
{
    if a.len() != b.len() {
        return false;
    }
    let mut i: usize = 0;
    while i < a.len()
        invariant
            i <= a.len(),
            a.len() == b.len(),
            forall|j: int| 0 <= j < i ==> a@[j] == b@[j],
        decreases a.len() - i,
    {
        if a[i] != b[i] {
            return false;
        }
        i += 1;
    }
    assert(a@ =~= b@);
    true
}

/// Whether two live-terminal tables record the same handles for the same workspaces.
pub fn same_live_terminals(a: &Table<Vec<isize>>, b: &Table<Vec<isize>>) -> (r: bool)
    ensures
        r == (handle_lists(a@) == handle_lists(b@)),
{
    let ea = a.entries();
    let eb = b.entries();
    let mut i: usize = 0;
    while i < ea.len()
        invariant
            i <= ea@.len(),
            entries_map(ea@) == a@,
            forall|j: int|
                0 <= j < i ==> b@.contains_key((#[trigger] ea@[j]).0@) && b@[ea@[j].0@]@
                    == a@[ea@[j].0@]@,
        decreases ea@.len() - i,
    {
        let k = ea[i].0.as_str();
        proof {
            lemma_entries_map_keys(ea@, ea@[i as int].0@);
        }
        match (a.get(k), b.get(k)) {
            (Some(x), Some(y)) => {
                if !same_handles(x, y) {
                    assert(handle_lists(a@)[k@] != handle_lists(b@)[k@]);
                    return false;
                }
            },
            _ => {
                assert(handle_lists(a@).contains_key(k@) && !handle_lists(b@).contains_key(k@));
                return false;
            },
        }
        i += 1;
    }
    let mut i: usize = 0;
    while i < eb.len()
        invariant
            i <= eb@.len(),
            entries_map(eb@) == b@,
            forall|j: int| 0 <= j < i ==> a@.contains_key((#[trigger] eb@[j]).0@),
        decreases eb@.len() - i,
    {
        let k = eb[i].0.as_str();
        proof {
            lemma_entries_map_keys(eb@, eb@[i as int].0@);
        }
        if !a.contains_key(k) {
            assert(!handle_lists(a@).contains_key(k@) && handle_lists(b@).contains_key(k@));
            return false;
        }
        i += 1;
    }
    assert forall|k: Seq<char>| #[trigger] handle_lists(a@).contains_key(k) implies handle_lists(
        b@,
    ).contains_key(k) && handle_lists(a@)[k] == handle_lists(b@)[k] by {
        lemma_entries_map_keys(ea@, k);
        let j = choose|j: int| 0 <= j < ea@.len() && #[trigger] ea@[j].0@ == k;
        assert(b@.contains_key(ea@[j].0@));
    }
    assert forall|k: Seq<char>| #[trigger] handle_lists(b@).contains_key(k) implies handle_lists(
        a@,
    ).contains_key(k) by {
        lemma_entries_map_keys(eb@, k);
        let j = choose|j: int| 0 <= j < eb@.len() && #[trigger] eb@[j].0@ == k;
        assert(a@.contains_key(eb@[j].0@));
    }
    assert(handle_lists(a@) =~= handle_lists(b@));
    true
}

/// Whether payload `p` differs from the last one announced (always, on the first tick).
pub fn payload_changed(last: &Option<MonitorPayload>, p: &MonitorPayload) -> (r: bool)
    ensures
        r == monitor_next(*last, *p).1,
{
    match last {
        None => true,
        Some(q) => !(same_names(&q.open_names, &p.open_names) && same_option_text(
            &q.active_name,
            &p.active_name,
        ) && same_live_terminals(&q.live_terminals, &p.live_terminals)),
    }
}

/// One tick of the monitor: keeps `p` as the last payload when it is to be
/// announced, and says whether it is.
pub fn monitor_step(last: &mut Option<MonitorPayload>, p: MonitorPayload) -> (changed: bool)
    ensures
        (*final(last), changed) == monitor_next(*old(last), p),
{
    let changed = payload_changed(last, &p);
    if changed {
        *last = Some(p);
    }
    changed
}

/// The monitor's first tick announces what it sees.
pub proof fn law_first_tick_announces(p: MonitorPayload)
    ensures
        monitor_next(None, p) == (Some(p), true),
{
}

/// After a tick the monitor holds a payload that announces what it just saw.
pub proof fn law_monitor_holds_latest(last: Option<MonitorPayload>, p: MonitorPayload)
    ensures
        monitor_next(last, p).0 matches Some(q) && same_payload(q, p),
{
}

/// A payload is announced once: seeing the same again announces nothing.
pub proof fn law_monitor_no_repeat(last: Option<MonitorPayload>, p: MonitorPayload, p2: MonitorPayload)
    requires
        same_payload(p, p2),
    ensures
        !monitor_next(monitor_next(last, p).0, p2).1,
{
}

} // verus!
