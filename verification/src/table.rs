//! A table of values by text key.
//!
//! The table is a list of entries; the map it stands for takes each key to the
//! value of its last entry. `insert` drops every earlier entry for its key, so
//! a table built by these operations holds each key once.
use vstd::prelude::*;
use crate::text::str_eq;

verus! {

broadcast use vstd::string::group_string_axioms;

/// The map that a list of entries stands for: each key to the value of its
/// last entry.
pub open spec fn entries_map<V>(s: Seq<(String, V)>) -> Map<Seq<char>, V>
    decreases s.len(),
{
    if s.len() == 0 {
        Map::empty()
    } else {
        entries_map(s.drop_last()).insert(s.last().0@, s.last().1)
    }
}

/// The entries of `s` whose key is not `k`, in order.
pub open spec fn entries_without<V>(s: Seq<(String, V)>, k: Seq<char>) -> Seq<(String, V)>
    decreases s.len(),
{
    if s.len() == 0 {
        s
    } else if s.last().0@ == k {
        entries_without(s.drop_last(), k)
    } else {
        entries_without(s.drop_last(), k).push(s.last())
    }
}

/// No key occurs in two entries.
pub open spec fn keys_unique<V>(s: Seq<(String, V)>) -> bool {
    forall|i: int, j: int| 0 <= i < j < s.len() ==> s[i].0@ != s[j].0@
}

/// Dropping the entries of a key removes the key from the map.
pub proof fn lemma_entries_without<V>(s: Seq<(String, V)>, k: Seq<char>)
    ensures
        entries_map(entries_without(s, k)) == entries_map(s).remove(k),
        forall|i: int|
            0 <= i < entries_without(s, k).len() ==> #[trigger] entries_without(s, k)[i].0@ != k,
        keys_unique(s) ==> keys_unique(entries_without(s, k)),
        forall|i: int|
            0 <= i < entries_without(s, k).len() ==> exists|j: int|
                0 <= j < s.len() && #[trigger] entries_without(s, k)[i] == s[j],
    decreases s.len(),
{
    if s.len() > 0 {
        let d = s.drop_last();
        lemma_entries_without(d, k);
        let w = entries_without(d, k);
        if s.last().0@ == k {
            assert(entries_map(s).remove(k) =~= entries_map(d).remove(k));
            assert forall|i: int| 0 <= i < w.len() implies exists|j: int|
                0 <= j < s.len() && #[trigger] w[i] == s[j] by {
                let j = choose|j: int| 0 <= j < d.len() && w[i] == d[j];
                assert(s[j] == d[j]);
            }
        } else {
            assert(w.push(s.last()).drop_last() =~= w);
            assert(entries_map(w.push(s.last())) =~= entries_map(s).remove(k));
            let w2 = w.push(s.last());
            assert forall|i: int| 0 <= i < w2.len() implies exists|j: int|
                0 <= j < s.len() && #[trigger] w2[i] == s[j] by {
                if i < w.len() {
                    let j = choose|j: int| 0 <= j < d.len() && w[i] == d[j];
                    assert(s[j] == d[j]);
                } else {
                    assert(w2[i] == s[s.len() - 1]);
                }
            }
            if keys_unique(s) {
                assert forall|a: int, b: int| 0 <= a < b < w2.len() implies w2[a].0@ != w2[b].0@ by {
                    if b == w.len() {
                        let j = choose|j: int| 0 <= j < d.len() && w[a] == d[j];
                        assert(s[j] == d[j]);
                        assert(w2[b] == s[s.len() - 1]);
                    }
                }
            }
        }
    }
}

/// The keys of the map are those of the entries.
pub proof fn lemma_entries_map_keys<V>(s: Seq<(String, V)>, k: Seq<char>)
    ensures
        entries_map(s).contains_key(k) <==> exists|i: int| 0 <= i < s.len() && #[trigger] s[i].0@ == k,
    decreases s.len(),
{
    if s.len() > 0 {
        let d = s.drop_last();
        lemma_entries_map_keys(d, k);
        if entries_map(d).contains_key(k) {
            let i = choose|i: int| 0 <= i < d.len() && #[trigger] d[i].0@ == k;
            assert(s[i] == d[i]);
        }
        if exists|i: int| 0 <= i < s.len() && #[trigger] s[i].0@ == k {
            let i = choose|i: int| 0 <= i < s.len() && #[trigger] s[i].0@ == k;
            if i < s.len() - 1 {
                assert(d[i] == s[i]);
            }
        }
    }
}

/// A table of values by text key.
#[derive(Debug, Clone)]
pub struct Table<V> {
    entries: Vec<(String, V)>,
}

impl<V> View for Table<V> {
    type V = Map<Seq<char>, V>;

    closed spec fn view(&self) -> Map<Seq<char>, V> {
        entries_map(self.entries@)
    }
}

impl<V> Table<V> {
    /// Every key of the table occurs in one entry only.
    pub closed spec fn keys_once(&self) -> bool {
        keys_unique(self.entries@)
    }

    /// An empty table.
    pub fn new() -> (t: Self)
        ensures
            t@ == Map::<Seq<char>, V>::empty(),
            t.keys_once(),
    {
        Table { entries: Vec::new() }
    }

    /// The entries of the table, in the order they were made.
    pub fn entries(&self) -> (r: &Vec<(String, V)>)
        ensures
            entries_map(r@) == self@,
            self.keys_once() ==> keys_unique(r@),
    {
        &self.entries
    }

    /// Where the value of `key` stands among the entries.
    fn position(&self, key: &str) -> (r: Option<usize>)
        ensures
            match r {
                Some(j) => j < self.entries@.len() && self@.contains_key(key@) && self@[key@]
                    == self.entries@[j as int].1,
                None => !self@.contains_key(key@),
            },
    {
        let ghost all = self.entries@;
        let mut found: Option<usize> = None;
        let mut i: usize = 0;
        while i < self.entries.len()
            invariant
                all == self.entries@,
                i <= all.len(),
                match found {
                    Some(j) => j < i && entries_map(all.take(i as int)).contains_key(key@)
                        && entries_map(all.take(i as int))[key@] == all[j as int].1,
                    None => !entries_map(all.take(i as int)).contains_key(key@),
                },
            decreases all.len() - i,
        {
            assert(all.take(i + 1).drop_last() =~= all.take(i as int));
            if str_eq(self.entries[i].0.as_str(), key) {
                found = Some(i);
            }
            i += 1;
        }
        assert(all.take(i as int) =~= all);
        found
    }

    /// The value stored for `key`, if any.
    pub fn get(&self, key: &str) -> (r: Option<&V>)
        ensures
            match r {
                Some(v) => self@.contains_key(key@) && *v == self@[key@],
                None => !self@.contains_key(key@),
            },
    {
        match self.position(key) {
            Some(j) => Some(&self.entries[j].1),
            None => None,
        }
    }

    /// Whether the table holds a value for `key`.
    pub fn contains_key(&self, key: &str) -> (r: bool)
        ensures
            r == self@.contains_key(key@),
    {
        self.position(key).is_some()
    }

    /// Removes the value of `key` and returns it, if there was one.
    pub fn remove(&mut self, key: &str) -> (r: Option<V>)
        ensures
            final(self)@ == old(self)@.remove(key@),
            old(self).keys_once() ==> final(self).keys_once(),
            match r {
                Some(v) => old(self)@.contains_key(key@) && v == old(self)@[key@],
                None => !old(self)@.contains_key(key@),
            },
    {
        let mut rest: Vec<(String, V)> = Vec::new();
        std::mem::swap(&mut rest, &mut self.entries);
        let _ = rest.len();
        let ghost all = rest@;
        proof {
            lemma_entries_without(all, key@);
        }
        let mut kept: Vec<(String, V)> = Vec::new();
        let mut found: Option<V> = None;
        let mut i: usize = 0;
        while rest.len() > 0
            invariant
                rest@ == all.skip(i as int),
                i <= all.len(),
                all.len() <= usize::MAX,
                kept@ == entries_without(all.take(i as int), key@),
                match found {
                    Some(v) => entries_map(all.take(i as int)).contains_key(key@) && v
                        == entries_map(all.take(i as int))[key@],
                    None => !entries_map(all.take(i as int)).contains_key(key@),
                },
            decreases rest.len(),
        {
            let e = rest.remove(0);
            assert(all.take(i + 1).drop_last() =~= all.take(i as int));
            assert(all.take(i + 1).last() == e);
            assert(rest@ =~= all.skip(i + 1));
            if str_eq(e.0.as_str(), key) {
                found = Some(e.1);
            } else {
                kept.push(e);
            }
            i += 1;
        }
        assert(all.take(i as int) =~= all);
        self.entries = kept;
        found
    }

    /// Stores `value` for `key`, in place of any value it had.
    pub fn insert(&mut self, key: String, value: V)
        ensures
            final(self)@ == old(self)@.insert(key@, value),
            old(self).keys_once() ==> final(self).keys_once(),
    {
        let _ = self.remove(key.as_str());
        let ghost before = self.entries@;
        proof {
            lemma_entries_map_keys(before, key@);
        }
        self.entries.push((key, value));
        assert(self.entries@.drop_last() =~= before);
        assert(self@ =~= old(self)@.insert(key@, value));
    }
}

} // verus!
