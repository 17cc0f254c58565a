//! JSON values as the library builds and reads them.

use vstd::prelude::*;
use crate::text::str_eq;

verus! {

/// A JSON number, as JSON Schema and JSON-RPC carry it.
#[derive(Debug, PartialEq)]
pub enum JsonNumber {
    /// A non-negative integer.
    PosInt(u64),
    /// A negative integer.
    NegInt(i64),
    /// A finite non-integral number, kept as its JSON text.
    Finite(String),
}

/// A JSON document: the tool input schemas and server replies this library
/// builds, and parameter defaults taken from the configuration.
#[derive(Debug, PartialEq)]
pub enum JsonValue {
    Null,
    Bool(bool),
    Number(JsonNumber),
    String(String),
    Array(Vec<JsonValue>),
    /// Members in order. [`JsonValue::get`] reads the first member of a
    /// name, and [`object_insert`] replaces it in place, so it adds no second
    /// member of a name (see [`lemma_object_set_keeps_names_distinct`]).
    Object(Vec<(String, JsonValue)>),
}

/// The mathematical content of a [`JsonNumber`].
pub enum JsonNumberView {
    PosInt(nat),
    NegInt(int),
    Finite(Seq<char>),
}

/// The mathematical content of a [`JsonValue`].
pub enum JsonView {
    Null,
    Bool(bool),
    Number(JsonNumberView),
    String(Seq<char>),
    Array(Seq<JsonView>),
    Object(Seq<(Seq<char>, JsonView)>),
}

impl View for JsonNumber {
    type V = JsonNumberView;

    open spec fn view(&self) -> JsonNumberView {
        match self {
            JsonNumber::PosInt(n) => JsonNumberView::PosInt(*n as nat),
            JsonNumber::NegInt(n) => JsonNumberView::NegInt(*n as int),
            JsonNumber::Finite(t) => JsonNumberView::Finite(t@),
        }
    }
}

pub open spec fn json_view(v: JsonValue) -> JsonView
    decreases v,
{
    match v {
        JsonValue::Null => JsonView::Null,
        JsonValue::Bool(b) => JsonView::Bool(b),
        JsonValue::Number(n) => JsonView::Number(n@),
        JsonValue::String(s) => JsonView::String(s@),
        JsonValue::Array(items) => JsonView::Array(
            Seq::new(
                items@.len(),
                |i: int|
                    if 0 <= i < items@.len() {
                        json_view(items@[i])
                    } else {
                        JsonView::Null
                    },
            ),
        ),
        JsonValue::Object(members) => JsonView::Object(
            Seq::new(
                members@.len(),
                |i: int|
                    if 0 <= i < members@.len() {
                        (members@[i].0@, json_view(members@[i].1))
                    } else {
                        (seq![], JsonView::Null)
                    },
            ),
        ),
    }
}

impl View for JsonValue {
    type V = JsonView;

    open spec fn view(&self) -> JsonView {
        json_view(*self)
    }
}

impl Clone for JsonNumber {
    fn clone(&self) -> (r: Self)
        ensures
            r == *self,
    {
        match self {
            JsonNumber::PosInt(n) => JsonNumber::PosInt(*n),
            JsonNumber::NegInt(n) => JsonNumber::NegInt(*n),
            JsonNumber::Finite(t) => JsonNumber::Finite(t.clone()),
        }
    }
}

impl Clone for JsonValue {
    fn clone(&self) -> (r: Self)
        ensures
            r@ == self@,
    {
        clone_json(self)
    }
}

/// A deep copy of `v`.
pub fn clone_json(v: &JsonValue) -> (r: JsonValue)
    ensures
        r@ == v@,
    decreases v,
{
    match v {
        JsonValue::Null => JsonValue::Null,
        JsonValue::Bool(b) => JsonValue::Bool(*b),
        JsonValue::Number(n) => JsonValue::Number(n.clone()),
        JsonValue::String(s) => JsonValue::String(s.clone()),
        JsonValue::Array(items) => {
            let mut out: Vec<JsonValue> = Vec::new();
            let mut i: usize = 0;
            while i < items.len()
                invariant
                    *v == JsonValue::Array(*items),
                    i <= items.len(),
                    out@.len() == i,
                    forall|j: int| 0 <= j < i ==> (#[trigger] out@[j])@ == items@[j]@,
                decreases items.len() - i,
            {
                proof {
                    assert(*items == v->Array_0);
                    assert(decreases_to!(*v => v->Array_0));
                    assert(decreases_to!(*items => items[i as int]));
                }
                let c = clone_json(&items[i]);
                out.push(c);
                i = i + 1;
            }
            let r = JsonValue::Array(out);
            proof {
                let x = json_view(r)->Array_0;
                let y = json_view(*v)->Array_0;
                assert(x.len() == y.len());
                assert forall|j: int| 0 <= j < x.len() implies x[j] == y[j] by {
                    assert(x[j] == json_view(out@[j]));
                    assert(y[j] == json_view(items@[j]));
                }
                assert(x =~= y);
            }
            r
        },
        JsonValue::Object(members) => {
            let mut out: Vec<(String, JsonValue)> = Vec::new();
            let mut i: usize = 0;
            while i < members.len()
                invariant
                    *v == JsonValue::Object(*members),
                    i <= members.len(),
                    out@.len() == i,
                    forall|j: int|
                        0 <= j < i ==> (#[trigger] out@[j]).0@ == members@[j].0@ && out@[j].1@
                            == members@[j].1@,
                decreases members.len() - i,
            {
                proof {
                    assert(*members == v->Object_0);
                    assert(decreases_to!(*v => v->Object_0));
                    assert(decreases_to!(*members => members[i as int]));
                    assert(decreases_to!(members[i as int] => members[i as int].1));
                }
                let k = members[i].0.clone();
                let c = clone_json(&members[i].1);
                out.push((k, c));
                i = i + 1;
            }
            let r = JsonValue::Object(out);
            proof {
                let x = json_view(r)->Object_0;
                let y = json_view(*v)->Object_0;
                assert(x.len() == y.len());
                assert forall|j: int| 0 <= j < x.len() implies x[j] == y[j] by {
                    assert(x[j] == (out@[j].0@, json_view(out@[j].1)));
                    assert(y[j] == (members@[j].0@, json_view(members@[j].1)));
                }
                assert(x =~= y);
            }
            r
        },
    }
}

} // verus!

verus! {

/// The members of an object, as plain values.
pub open spec fn members_view(ms: Seq<(String, JsonValue)>) -> Seq<(Seq<char>, JsonView)> {
    ms.map_values(|m: (String, JsonValue)| (m.0@, m.1@))
}

/// The values of an array, as plain values.
pub open spec fn items_view(vs: Seq<JsonValue>) -> Seq<JsonView> {
    vs.map_values(|v: JsonValue| v@)
}

pub proof fn lemma_object_view(ms: Vec<(String, JsonValue)>)
    ensures
        JsonValue::Object(ms)@ == JsonView::Object(members_view(ms@)),
{
    let x = JsonValue::Object(ms)@->Object_0;
    assert(x =~= members_view(ms@));
}

pub proof fn lemma_array_view(vs: Vec<JsonValue>)
    ensures
        JsonValue::Array(vs)@ == JsonView::Array(items_view(vs@)),
{
    let x = JsonValue::Array(vs)@->Array_0;
    assert(x =~= items_view(vs@));
}

/// Index of the first member named `k`, or -1.
pub open spec fn key_index(ms: Seq<(Seq<char>, JsonView)>, k: Seq<char>) -> int
    decreases ms.len(),
{
    if ms.len() == 0 {
        -1
    } else if ms.last().0 == k && key_index(ms.drop_last(), k) == -1 {
        ms.len() - 1
    } else {
        key_index(ms.drop_last(), k)
    }
}

/// `ms` with member `k` set to `v`: replaced in place when present, appended otherwise.
pub open spec fn object_set(ms: Seq<(Seq<char>, JsonView)>, k: Seq<char>, v: JsonView) -> Seq<
    (Seq<char>, JsonView),
> {
    let i = key_index(ms, k);
    if i >= 0 {
        ms.update(i, (k, v))
    } else {
        ms.push((k, v))
    }
}

/// The value of the first member named `k`.
pub open spec fn member_value(ms: Seq<(Seq<char>, JsonView)>, k: Seq<char>) -> Option<JsonView> {
    let i = key_index(ms, k);
    if i >= 0 {
        Some(ms[i].1)
    } else {
        None
    }
}

proof fn lemma_key_index_bounds(ms: Seq<(Seq<char>, JsonView)>, k: Seq<char>)
    ensures
        -1 <= key_index(ms, k) < ms.len(),
        key_index(ms, k) >= 0 ==> ms[key_index(ms, k)].0 == k,
        key_index(ms, k) >= 0 ==> forall|j: int| 0 <= j < key_index(ms, k) ==> ms[j].0 != k,
        key_index(ms, k) == -1 ==> forall|j: int| 0 <= j < ms.len() ==> ms[j].0 != k,
    decreases ms.len(),
{
    if ms.len() > 0 {
        lemma_key_index_bounds(ms.drop_last(), k);
        let p = ms.drop_last();
        assert forall|j: int| 0 <= j < p.len() implies p[j] == ms[j] by {}
    }
}


/// After setting member `k` to `v`, member `k` reads `v`.
pub proof fn lemma_object_set_get(ms: Seq<(Seq<char>, JsonView)>, k: Seq<char>, v: JsonView)
    ensures
        member_value(object_set(ms, k, v), k) == Some(v),
{
    lemma_key_index_bounds(ms, k);
    let i = key_index(ms, k);
    let r = object_set(ms, k, v);
    if i >= 0 {
        assert forall|l: int| 0 <= l < i implies r[l].0 != k by {
            assert(r[l] == ms[l]);
        }
        lemma_key_index_first(r, k, i);
    } else {
        assert forall|l: int| 0 <= l < ms.len() implies r[l].0 != k by {
            assert(r[l] == ms[l]);
        }
        lemma_key_index_first(r, k, ms.len() as int);
    }
}

/// No two members of `ms` share a name.
pub open spec fn distinct_member_names(ms: Seq<(Seq<char>, JsonView)>) -> bool {
    forall|a: int, b: int| 0 <= a < b < ms.len() ==> (#[trigger] ms[a]).0 != (#[trigger] ms[b]).0
}

/// Setting a member keeps the members' names distinct.
pub proof fn lemma_object_set_keeps_names_distinct(
    ms: Seq<(Seq<char>, JsonView)>,
    k: Seq<char>,
    v: JsonView,
)
    requires
        distinct_member_names(ms),
    ensures
        distinct_member_names(object_set(ms, k, v)),
{
    lemma_key_index_bounds(ms, k);
    let i = key_index(ms, k);
    let r = object_set(ms, k, v);
    assert forall|a: int, b: int| 0 <= a < b < r.len() implies (#[trigger] r[a]).0 != (
    #[trigger] r[b]).0 by {
        if i >= 0 {
            assert(r[a].0 == ms[a].0);
            assert(r[b].0 == ms[b].0);
        } else if b < ms.len() {
            assert(r[a] == ms[a]);
            assert(r[b] == ms[b]);
        } else {
            assert(r[a] == ms[a]);
            assert(r[b].0 == k);
        }
    }
}

/// Setting member `k` leaves every other member as it was.
pub proof fn lemma_object_set_other(
    ms: Seq<(Seq<char>, JsonView)>,
    k: Seq<char>,
    v: JsonView,
    k2: Seq<char>,
)
    requires
        k2 != k,
    ensures
        member_value(object_set(ms, k, v), k2) == member_value(ms, k2),
{
    lemma_key_index_bounds(ms, k);
    lemma_key_index_bounds(ms, k2);
    let i = key_index(ms, k);
    let j = key_index(ms, k2);
    let r = object_set(ms, k, v);
    if i >= 0 {
        assert forall|l: int| 0 <= l < ms.len() implies r[l].0 == ms[l].0 by {}
        if j >= 0 {
            assert forall|l: int| 0 <= l < j implies r[l].0 != k2 by {}
            lemma_key_index_first(r, k2, j);
            assert(r[j] == ms[j]);
        } else {
            lemma_key_index_absent(r, k2);
        }
    } else {
        if j >= 0 {
            assert forall|l: int| 0 <= l < j implies r[l].0 != k2 by {
                assert(r[l] == ms[l]);
            }
            assert(r[j] == ms[j]);
            lemma_key_index_first(r, k2, j);
        } else {
            assert forall|l: int| 0 <= l < r.len() implies r[l].0 != k2 by {
                if l < ms.len() {
                    assert(r[l] == ms[l]);
                }
            }
            lemma_key_index_absent(r, k2);
        }
    }
}

/// The position of the first member named `k` in `ms`.
pub fn find_member(ms: &Vec<(String, JsonValue)>, k: &str) -> (r: Option<usize>)
    ensures
        match r {
            Some(i) => i < ms@.len() && key_index(members_view(ms@), k@) == i as int,
            None => key_index(members_view(ms@), k@) == -1,
        },
{
    let ghost mv = members_view(ms@);
    let mut i: usize = 0;
    while i < ms.len()
        invariant
            i <= ms@.len(),
            mv == members_view(ms@),
            forall|j: int| 0 <= j < i ==> mv[j].0 != k@,
        decreases ms@.len() - i,
    {
        if str_eq(ms[i].0.as_str(), k) {
            proof {
                lemma_key_index_first(mv, k@, i as int);
            }
            return Some(i);
        }
        i = i + 1;
    }
    proof {
        lemma_key_index_absent(mv, k@);
    }
    None
}

pub(crate) proof fn lemma_key_index_first(ms: Seq<(Seq<char>, JsonView)>, k: Seq<char>, i: int)
    requires
        0 <= i < ms.len(),
        ms[i].0 == k,
        forall|j: int| 0 <= j < i ==> ms[j].0 != k,
    ensures
        key_index(ms, k) == i,
    decreases ms.len(),
{
    if i < ms.len() - 1 {
        let p = ms.drop_last();
        assert forall|j: int| 0 <= j < i implies p[j].0 != k by {
            assert(p[j] == ms[j]);
        }
        assert(p[i] == ms[i]);
        lemma_key_index_first(p, k, i);
    } else {
        let p = ms.drop_last();
        assert forall|j: int| 0 <= j < p.len() implies p[j].0 != k by {
            assert(p[j] == ms[j]);
        }
        lemma_key_index_absent(p, k);
    }
}

proof fn lemma_key_index_absent(ms: Seq<(Seq<char>, JsonView)>, k: Seq<char>)
    requires
        forall|j: int| 0 <= j < ms.len() ==> ms[j].0 != k,
    ensures
        key_index(ms, k) == -1,
    decreases ms.len(),
{
    if ms.len() > 0 {
        let p = ms.drop_last();
        assert forall|j: int| 0 <= j < p.len() implies p[j].0 != k by {
            assert(p[j] == ms[j]);
        }
        lemma_key_index_absent(p, k);
    }
}

/// Set member `k` of the object members `ms` to `v` (replace or append).
pub fn object_insert(ms: &mut Vec<(String, JsonValue)>, k: String, v: JsonValue)
    ensures
        members_view(final(ms)@) == object_set(members_view(old(ms)@), k@, v@),
{
    let pos = find_member(ms, k.as_str());
    let ghost before = members_view(ms@);
    match pos {
        Some(i) => {
            ms.set(i, (k, v));
            proof {
                assert(members_view(ms@) =~= before.update(i as int, (k@, v@)));
            }
        },
        None => {
            ms.push((k, v));
            proof {
                assert(members_view(ms@) =~= before.push((k@, v@)));
            }
        },
    }
}

impl JsonValue {
    /// The member `key` of an object (`None` for other values or a missing key).
    pub fn get(&self, key: &str) -> (r: Option<&JsonValue>)
        ensures
            match self@ {
                JsonView::Object(ms) => match r {
                    Some(v) => member_value(ms, key@) == Some(v@),
                    None => member_value(ms, key@) is None,
                },
                _ => r is None,
            },
    {
        match self {
            JsonValue::Object(ms) => {
                proof {
                    lemma_object_view(*ms);
                }
                match find_member(ms, key) {
                    Some(i) => {
                        proof {
                            assert(members_view(ms@)[i as int] == (ms@[i as int].0@, ms@[i as int].1@));
                        }
                        Some(&ms[i].1)
                    },
                    None => None,
                }
            },
            _ => None,
        }
    }

    /// The text of a JSON string.
    pub fn as_str(&self) -> (r: Option<&str>)
        ensures
            match self@ {
                JsonView::String(s) => r is Some && r->0@ == s,
                _ => r is None,
            },
    {
        match self {
            JsonValue::String(s) => Some(s.as_str()),
            _ => None,
        }
    }

    /// The elements of a JSON array.
    pub fn as_array(&self) -> (r: Option<&Vec<JsonValue>>)
        ensures
            match self@ {
                JsonView::Array(vs) => r is Some && items_view(r->0@) == vs,
                _ => r is None,
            },
    {
        match self {
            JsonValue::Array(vs) => {
                proof {
                    lemma_array_view(*vs);
                }
                Some(vs)
            },
            _ => None,
        }
    }

    /// The members of a JSON object.
    pub fn as_object(&self) -> (r: Option<&Vec<(String, JsonValue)>>)
        ensures
            match self@ {
                JsonView::Object(ms) => r is Some && members_view(r->0@) == ms,
                _ => r is None,
            },
    {
        match self {
            JsonValue::Object(ms) => {
                proof {
                    lemma_object_view(*ms);
                }
                Some(ms)
            },
            _ => None,
        }
    }
}

} // verus!
