//! A JSON document model, with parsing and pretty printing by `serde_json`.
use vstd::prelude::*;

verus! {

/// `serde_json::Value`, which only the conversions at the crate's edge touch.
#[verifier::external_type_specification]
#[verifier::external_body]
pub struct ExJsonValue(serde_json::Value);

/// `serde_json::Number`, carried through unchanged.
#[verifier::external_type_specification]
#[verifier::external_body]
pub struct ExJsonNumber(serde_json::Number);

/// A JSON value as the workspace files hold it.
#[derive(Debug, PartialEq)]
pub enum Json {
    Null,
    Bool(bool),
    Number(serde_json::Number),
    Str(String),
    Array(Vec<Json>),
    /// Members in order (a parsed document gives them sorted by key, as
    /// `serde_json`'s map holds them).
    Object(Vec<(String, Json)>),
}

/// The mathematical value of a `Json`.
pub enum JsonModel {
    Null,
    Bool(bool),
    Number(serde_json::Number),
    Str(Seq<char>),
    Array(Seq<JsonModel>),
    Object(Seq<(Seq<char>, JsonModel)>),
}

impl Json {
    pub open spec fn model(self) -> JsonModel
        decreases self,
    {
        match self {
            Json::Null => JsonModel::Null,
            Json::Bool(b) => JsonModel::Bool(b),
            Json::Number(n) => JsonModel::Number(n),
            Json::Str(s) => JsonModel::Str(s@),
            Json::Array(v) => JsonModel::Array(models_of(v@)),
            Json::Object(es) => JsonModel::Object(members_model(es@)),
        }
    }
}

pub open spec fn models_of(s: Seq<Json>) -> Seq<JsonModel>
    decreases s,
{
    if s.len() == 0 {
        Seq::empty()
    } else {
        seq![s[0].model()] + models_of(s.subrange(1, s.len() as int))
    }
}

pub open spec fn members_model(s: Seq<(String, Json)>) -> Seq<(Seq<char>, JsonModel)>
    decreases s,
{
    if s.len() == 0 {
        Seq::empty()
    } else {
        seq![(s[0].0@, s[0].1.model())] + members_model(s.subrange(1, s.len() as int))
    }
}


/// The length and elements of `models_of`.
pub proof fn lemma_models_of(s: Seq<Json>)
    ensures
        models_of(s).len() == s.len(),
        forall|i: int| 0 <= i < s.len() ==> #[trigger] models_of(s)[i] == s[i].model(),
    decreases s.len(),
{
    if s.len() > 0 {
        lemma_models_of(s.subrange(1, s.len() as int));
        assert forall|i: int| 0 <= i < s.len() implies #[trigger] models_of(s)[i] == s[i].model() by {
            if i > 0 {
                assert(s.subrange(1, s.len() as int)[i - 1] == s[i]);
            }
        }
    }
}

/// The length and elements of `members_model`.
pub proof fn lemma_members_model(s: Seq<(String, Json)>)
    ensures
        members_model(s).len() == s.len(),
        forall|i: int|
            0 <= i < s.len() ==> #[trigger] members_model(s)[i] == (s[i].0@, s[i].1.model()),
    decreases s.len(),
{
    if s.len() > 0 {
        lemma_members_model(s.subrange(1, s.len() as int));
        assert forall|i: int| 0 <= i < s.len() implies #[trigger] members_model(s)[i] == (
            s[i].0@,
            s[i].1.model(),
        ) by {
            if i > 0 {
                assert(s.subrange(1, s.len() as int)[i - 1] == s[i]);
            }
        }
    }
}

/// Two member lists with the same models everywhere have the same model.
pub proof fn lemma_members_model_ext(a: Seq<(String, Json)>, b: Seq<(Seq<char>, JsonModel)>)
    requires
        a.len() == b.len(),
        forall|i: int| 0 <= i < a.len() ==> (a[i].0@, a[i].1.model()) == b[i],
    ensures
        members_model(a) == b,
{
    lemma_members_model(a);
    assert(members_model(a) =~= b);
}

/// Two element lists with the same models everywhere have the same model.
pub proof fn lemma_models_of_ext(a: Seq<Json>, b: Seq<JsonModel>)
    requires
        a.len() == b.len(),
        forall|i: int| 0 <= i < a.len() ==> a[i].model() == b[i],
    ensures
        models_of(a) == b,
{
    lemma_models_of(a);
    assert(models_of(a) =~= b);
}

// ------------------------------------------------------------- members

/// The first position at or after `i` of a member named `key`.
pub open spec fn member_index_from(ms: Seq<(Seq<char>, JsonModel)>, key: Seq<char>, i: int) -> Option<
    int,
>
    decreases ms.len() - i,
{
    if i < 0 || i >= ms.len() {
        None
    } else if ms[i].0 == key {
        Some(i)
    } else {
        member_index_from(ms, key, i + 1)
    }
}

/// The position of the member named `key`.
pub open spec fn member_index(ms: Seq<(Seq<char>, JsonModel)>, key: Seq<char>) -> Option<int> {
    member_index_from(ms, key, 0)
}

/// What `member_index_from` returns: the first member named `key` from `i` on.
pub proof fn lemma_member_index_from(ms: Seq<(Seq<char>, JsonModel)>, key: Seq<char>, i: int)
    requires
        0 <= i,
    ensures
        member_index_from(ms, key, i) matches Some(k) ==> i <= k < ms.len() && ms[k].0 == key
            && forall|j: int| i <= j < k ==> ms[j].0 != key,
        member_index_from(ms, key, i) is None ==> forall|j: int| i <= j < ms.len() ==> ms[j].0 != key,
    decreases ms.len() - i,
{
    if i < ms.len() && ms[i].0 != key {
        lemma_member_index_from(ms, key, i + 1);
    }
}

/// `ms` with the member named `key` set to `v`: in place where there is one,
/// appended where there is none (`Map::insert`).
pub open spec fn member_insert(ms: Seq<(Seq<char>, JsonModel)>, key: Seq<char>, v: JsonModel) -> Seq<
    (Seq<char>, JsonModel),
> {
    match member_index(ms, key) {
        Some(i) => ms.update(i, (key, v)),
        None => ms.push((key, v)),
    }
}

/// `ms` without any member named `key` (`Map::remove`).
pub open spec fn member_remove(ms: Seq<(Seq<char>, JsonModel)>, key: Seq<char>) -> Seq<
    (Seq<char>, JsonModel),
>
    decreases ms.len(),
{
    if ms.len() == 0 {
        ms
    } else if ms[0].0 == key {
        member_remove(ms.drop_first(), key)
    } else {
        seq![ms[0]] + member_remove(ms.drop_first(), key)
    }
}

impl JsonModel {
    /// The member named `key` of an object (`Value::get`); nothing for other values.
    pub open spec fn get(self, key: Seq<char>) -> Option<JsonModel> {
        match self {
            JsonModel::Object(ms) => match member_index(ms, key) {
                Some(i) => Some(ms[i].1),
                None => None,
            },
            _ => None,
        }
    }

    /// The text of a string value (`Value::as_str`).
    pub open spec fn as_str(self) -> Option<Seq<char>> {
        match self {
            JsonModel::Str(s) => Some(s),
            _ => None,
        }
    }
}

/// After an insert, `key` is found holding the inserted value.
pub proof fn lemma_get_after_insert(ms: Seq<(Seq<char>, JsonModel)>, key: Seq<char>, v: JsonModel)
    ensures
        JsonModel::Object(member_insert(ms, key, v)).get(key) == Some(v),
{
    lemma_member_index_from(ms, key, 0);
    let ms2 = member_insert(ms, key, v);
    lemma_member_index_from(ms2, key, 0);
    match member_index(ms, key) {
        Some(i) => {
            if member_index(ms2, key) != Some(i) {
                assert(ms2[i].0 == key);
            }
        },
        None => {
            if member_index(ms2, key) != Some(ms.len() as int) {
                assert(ms2[ms.len() as int].0 == key);
            }
        },
    }
}

/// The member `k` of an object that starts with member `m`: `m`'s value when
/// `m` is named `k`, else that of the rest.
pub proof fn lemma_get_cons(m: (Seq<char>, JsonModel), rest: Seq<(Seq<char>, JsonModel)>, k: Seq<char>)
    ensures
        JsonModel::Object(seq![m] + rest).get(k) == if m.0 == k {
            Some(m.1)
        } else {
            JsonModel::Object(rest).get(k)
        },
{
    let t = seq![m] + rest;
    lemma_member_index_from(t, k, 0);
    lemma_member_index_from(rest, k, 0);
    assert(t[0] == m);
    if m.0 != k {
        match member_index(rest, k) {
            Some(j) => {
                assert(t[j + 1] == rest[j]);
                let jt = member_index(t, k)->Some_0;
                if jt != j + 1 {
                    if jt < j + 1 {
                        assert(t[jt] == rest[jt - 1]);
                    }
                }
            },
            None => {
                if member_index(t, k) is Some {
                    let jt = member_index(t, k)->Some_0;
                    assert(t[jt] == rest[jt - 1]);
                }
            },
        }
    }
}

/// Removing the members named `key` leaves every other member found as before.
pub proof fn lemma_get_other_after_remove(ms: Seq<(Seq<char>, JsonModel)>, key: Seq<char>, k: Seq<char>)
    requires
        k != key,
    ensures
        JsonModel::Object(member_remove(ms, key)).get(k) == JsonModel::Object(ms).get(k),
    decreases ms.len(),
{
    if ms.len() > 0 {
        let d = ms.drop_first();
        assert(ms =~= seq![ms[0]] + d);
        lemma_get_cons(ms[0], d, k);
        lemma_get_other_after_remove(d, key, k);
        if ms[0].0 != key {
            lemma_get_cons(ms[0], member_remove(d, key), k);
        }
    }
}

/// Setting the member `key` leaves every other member found as before.
pub proof fn lemma_get_other_after_insert(
    ms: Seq<(Seq<char>, JsonModel)>,
    key: Seq<char>,
    v: JsonModel,
    k: Seq<char>,
)
    requires
        k != key,
    ensures
        JsonModel::Object(member_insert(ms, key, v)).get(k) == JsonModel::Object(ms).get(k),
{
    lemma_member_index_from(ms, key, 0);
    lemma_member_index_from(ms, k, 0);
    let ms2 = member_insert(ms, key, v);
    lemma_member_index_from(ms2, k, 0);
    match member_index(ms, key) {
        Some(i) => {
            lemma_member_index_same_keys(ms, ms2, k, 0);
        },
        None => {
            match member_index(ms, k) {
                Some(j) => {
                    assert(ms2[j] == ms[j]);
                    let j2 = member_index(ms2, k)->Some_0;
                    if j2 < j {
                        assert(ms2[j2] == ms[j2]);
                    }
                },
                None => {
                    if member_index(ms2, k) is Some {
                        let j2 = member_index(ms2, k)->Some_0;
                        if j2 < ms.len() {
                            assert(ms2[j2] == ms[j2]);
                        }
                    }
                },
            }
        },
    }
}

/// No member named `key` survives `member_remove`.
pub proof fn lemma_member_remove(ms: Seq<(Seq<char>, JsonModel)>, key: Seq<char>)
    ensures
        forall|j: int| 0 <= j < member_remove(ms, key).len() ==> #[trigger] member_remove(ms, key)[j].0 != key,
        member_remove(ms, key).len() <= ms.len(),
    decreases ms.len(),
{
    if ms.len() > 0 {
        lemma_member_remove(ms.drop_first(), key);
        if ms[0].0 != key {
            let r = member_remove(ms, key);
            assert forall|j: int| 0 <= j < r.len() implies #[trigger] r[j].0 != key by {
                if j > 0 {
                    assert(r[j] == member_remove(ms.drop_first(), key)[j - 1]);
                }
            }
        }
    }
}

/// After a removal, `key` is not found.
pub proof fn lemma_get_after_remove(ms: Seq<(Seq<char>, JsonModel)>, key: Seq<char>)
    ensures
        JsonModel::Object(member_remove(ms, key)).get(key) is None,
{
    lemma_member_remove(ms, key);
    lemma_member_index_from(member_remove(ms, key), key, 0);
}

/// Removing a member no object holds changes nothing.
pub proof fn lemma_member_remove_absent(ms: Seq<(Seq<char>, JsonModel)>, key: Seq<char>)
    requires
        forall|j: int| 0 <= j < ms.len() ==> ms[j].0 != key,
    ensures
        member_remove(ms, key) == ms,
    decreases ms.len(),
{
    if ms.len() > 0 {
        lemma_member_remove_absent(ms.drop_first(), key);
        assert(seq![ms[0]] + ms.drop_first() =~= ms);
    }
}

/// Member lookups depend only on the members' names.
pub proof fn lemma_member_index_same_keys(
    a: Seq<(Seq<char>, JsonModel)>,
    b: Seq<(Seq<char>, JsonModel)>,
    key: Seq<char>,
    i: int,
)
    requires
        a.len() == b.len(),
        forall|j: int| 0 <= j < a.len() ==> a[j].0 == b[j].0,
    ensures
        member_index_from(a, key, i) == member_index_from(b, key, i),
    decreases a.len() - i,
{
    if 0 <= i < a.len() && a[i].0 != key {
        lemma_member_index_same_keys(a, b, key, i + 1);
    }
}

/// The names in `member_insert(ms, key, v)`: `key`, or the name that was there.
pub proof fn lemma_member_insert_keys(ms: Seq<(Seq<char>, JsonModel)>, key: Seq<char>, v: JsonModel)
    ensures
        forall|j: int|
            0 <= j < member_insert(ms, key, v).len() ==> #[trigger] member_insert(ms, key, v)[j].0
                == key || (j < ms.len() && member_insert(ms, key, v)[j].0 == ms[j].0),
        member_insert(ms, key, v).len() >= ms.len(),
{
    lemma_member_index_from(ms, key, 0);
}

/// Setting a member to the value it already got changes nothing.
pub proof fn lemma_member_insert_twice(ms: Seq<(Seq<char>, JsonModel)>, key: Seq<char>, v: JsonModel)
    ensures
        member_insert(member_insert(ms, key, v), key, v) == member_insert(ms, key, v),
{
    let m1 = member_insert(ms, key, v);
    lemma_member_index_from(ms, key, 0);
    lemma_member_index_from(m1, key, 0);
    match member_index(ms, key) {
        Some(i) => {
            if member_index(m1, key) != Some(i) {
                assert(m1[i].0 == key);
            }
            assert(m1.update(i, (key, v)) =~= m1);
        },
        None => {
            let n = ms.len() as int;
            if member_index(m1, key) != Some(n) {
                assert(m1[n].0 == key);
            }
            assert(m1.update(n, (key, v)) =~= m1);
        },
    }
}

// ------------------------------------------------------ exec operations

/// The position of the member named `key`.
pub fn member_position(ms: &Vec<(String, Json)>, key: &str) -> (r: Option<usize>)
    ensures
        match r {
            Some(i) => member_index(members_model(ms@), key@) == Some(i as int),
            None => member_index(members_model(ms@), key@) is None,
        },
{
    proof {
        lemma_members_model(ms@);
    }
    let mut i: usize = 0;
    while i < ms.len()
        invariant
            i <= ms.len(),
            members_model(ms@).len() == ms@.len(),
            member_index(members_model(ms@), key@) == member_index_from(
                members_model(ms@),
                key@,
                i as int,
            ),
            forall|j: int|
                0 <= j < ms@.len() ==> #[trigger] members_model(ms@)[j] == (
                    ms@[j].0@,
                    ms@[j].1.model(),
                ),
        decreases ms.len() - i,
    {
        if crate::text::str_eq(ms[i].0.as_str(), key) {
            return Some(i);
        }
        i += 1;
    }
    None
}

/// The member named `key` of `j`, when `j` is an object that has one.
pub fn get_member<'a>(j: &'a Json, key: &str) -> (r: Option<&'a Json>)
    ensures
        match r {
            Some(v) => j.model().get(key@) == Some(v.model()),
            None => j.model().get(key@) is None,
        },
{
    match j {
        Json::Object(ms) => {
            proof {
                lemma_members_model(ms@);
                lemma_member_index_from(members_model(ms@), key@, 0);
            }
            match member_position(ms, key) {
                Some(i) => Some(&ms[i].1),
                None => None,
            }
        },
        _ => None,
    }
}

/// The text of `j`, when `j` is a string.
pub fn as_str(j: &Json) -> (r: Option<&String>)
    ensures
        match r {
            Some(s) => j.model().as_str() == Some(s@),
            None => j.model().as_str() is None,
        },
{
    match j {
        Json::Str(s) => Some(s),
        _ => None,
    }
}

/// Sets the member named `key` to `v` (`Map::insert`).
pub fn set_member(ms: &mut Vec<(String, Json)>, key: String, v: Json)
    ensures
        members_model(final(ms)@) == member_insert(members_model(old(ms)@), key@, v.model()),
{
    proof {
        lemma_members_model(ms@);
        lemma_member_index_from(members_model(ms@), key@, 0);
    }
    let ghost km = key@;
    let ghost vm = v.model();
    match member_position(ms, key.as_str()) {
        Some(i) => {
            ms.set(i, (key, v));
            proof {
                lemma_members_model_ext(
                    ms@,
                    member_insert(members_model(old(ms)@), km, vm),
                );
            }
        },
        None => {
            ms.push((key, v));
            proof {
                lemma_members_model_ext(
                    ms@,
                    member_insert(members_model(old(ms)@), km, vm),
                );
            }
        },
    }
}

/// Removes the members named `key` (`Map::remove`).
pub fn remove_member(ms: &mut Vec<(String, Json)>, key: &str)
    ensures
        members_model(final(ms)@) == member_remove(members_model(old(ms)@), key@),
{
    let mut kept: Vec<(String, Json)> = Vec::new();
    proof {
        lemma_members_model(ms@);
        lemma_members_model(kept@);
    }
    while ms.len() > 0
        invariant
            members_model(kept@) + member_remove(members_model(ms@), key@) == member_remove(
                members_model(old(ms)@),
                key@,
            ),
        decreases ms.len(),
    {
        let ghost before_ms = ms@;
        let ghost before_kept = kept@;
        proof {
            lemma_members_model(ms@);
        }
        let m = ms.remove(0);
        proof {
            lemma_members_model_ext(ms@, members_model(before_ms).drop_first());
        }
        if crate::text::str_eq(m.0.as_str(), key) {
        } else {
            kept.push(m);
            proof {
                lemma_members_model(before_kept);
                lemma_members_model_ext(
                    kept@,
                    members_model(before_kept).push(members_model(before_ms)[0]),
                );
                assert(members_model(kept@) + member_remove(members_model(ms@), key@)
                    =~= members_model(before_kept) + member_remove(members_model(before_ms), key@));
            }
        }
    }
    proof {
        assert(member_remove(members_model(ms@), key@) =~= Seq::empty());
        assert(members_model(kept@) + Seq::empty() =~= members_model(kept@));
    }
    *ms = kept;
}

// ------------------------------------------------------ serde_json edge

/// Converts a `serde_json::Value` into a `Json`, members in the order the
/// value's map gives them (sorted by key).
#[verifier::external_body]
fn json_from_value(v: &serde_json::Value) -> Json {
    match v {
        serde_json::Value::Null => Json::Null,
        serde_json::Value::Bool(b) => Json::Bool(*b),
        serde_json::Value::Number(n) => Json::Number(n.clone()),
        serde_json::Value::String(s) => Json::Str(s.clone()),
        serde_json::Value::Array(a) => Json::Array(a.iter().map(json_from_value).collect()),
        serde_json::Value::Object(m) => Json::Object(
            m.iter().map(|(k, x)| (k.clone(), json_from_value(x))).collect(),
        ),
    }
}

/// Converts a `Json` into a `serde_json::Value` (whose map keeps one value
/// per key: that of the last member with it).
#[verifier::external_body]
fn json_to_value(j: &Json) -> serde_json::Value {
    match j {
        Json::Null => serde_json::Value::Null,
        Json::Bool(b) => serde_json::Value::Bool(*b),
        Json::Number(n) => serde_json::Value::Number(n.clone()),
        Json::Str(s) => serde_json::Value::String(s.clone()),
        Json::Array(a) => serde_json::Value::Array(a.iter().map(json_to_value).collect()),
        Json::Object(m) => serde_json::Value::Object(
            m.iter().map(|(k, x)| (k.clone(), json_to_value(x))).collect(),
        ),
    }
}

/// Name for what `serde_json::from_str::<serde_json::Value>` gives on a
/// text: the document, or the message of the error.
pub uninterp spec fn parsed_json(text: Seq<char>) -> Result<JsonModel, Seq<char>>;

/// `serde_json::from_str` into a `serde_json::Value`, converted to `Json`;
/// an error is returned as its message. Its outcome is `parsed_json` of the text.
#[verifier::external_body]
pub(crate) fn parse_json(text: &str) -> (r: Result<Json, String>)
    ensures
        match r {
            Ok(j) => parsed_json(text@) == Ok::<JsonModel, Seq<char>>(j.model()),
            Err(e) => parsed_json(text@) == Err::<JsonModel, Seq<char>>(e@),
        },
{
    match serde_json::from_str::<serde_json::Value>(text) {
        Ok(v) => Ok(json_from_value(&v)),
        Err(e) => Err(e.to_string()),
    }
}

/// Name for what `serde_json::to_string_pretty` gives on a value: the
/// indented text, or the message of the error.
pub uninterp spec fn pretty_json(value: JsonModel) -> Result<Seq<char>, Seq<char>>;

/// `serde_json::to_string_pretty` of the value that `j` stands for; an error
/// is returned as its message. Its outcome is `pretty_json` of `j`'s model.
#[verifier::external_body]
pub(crate) fn to_pretty_json(j: &Json) -> (r: Result<String, String>)
    ensures
        match r {
            Ok(s) => pretty_json(j.model()) == Ok::<Seq<char>, Seq<char>>(s@),
            Err(e) => pretty_json(j.model()) == Err::<Seq<char>, Seq<char>>(e@),
        },
{
    serde_json::to_string_pretty(&json_to_value(j)).map_err(|e| e.to_string())
}

/// Name for `serde_json::Number::from` on an unsigned integer.
pub uninterp spec fn number_of_u64(n: u64) -> serde_json::Number;

/// `serde_json::Number::from(n)`.
#[verifier::external_body]
pub(crate) fn number_from_u64(n: u64) -> (r: serde_json::Number)
    ensures
        r == number_of_u64(n),
{
    serde_json::Number::from(n)
}

} // verus!
