use vstd::prelude::*;
use crate::text::str_eq;

verus! {

broadcast use vstd::std_specs::vec::group_vec_axioms;

/// A JSON document as the settings files hold it. A number is kept as its JSON
/// text; an object is a list of entries, and where a key occurs more than once
/// the last entry with that key is the one that counts.
#[derive(Debug)]
pub enum JsonValue {
    Null,
    Bool(bool),
    Number(String),
    String(String),
    Array(Vec<JsonValue>),
    Object(Vec<(String, JsonValue)>),
}

/// What a JSON document means: objects are maps from keys to values.
pub enum JsonView {
    Null,
    Bool(bool),
    Number(Seq<char>),
    Str(Seq<char>),
    Array(Seq<JsonView>),
    Object(Map<Seq<char>, JsonView>),
}

/// The key of entry `i`.
pub open spec fn key_at(e: Seq<(String, JsonValue)>, i: int) -> Seq<char> {
    e[i].0@
}

/// Some entry of `e` has key `k`.
pub open spec fn has_key(e: Seq<(String, JsonValue)>, k: Seq<char>) -> bool {
    exists|i: int| 0 <= i < e.len() && #[trigger] key_at(e, i) == k
}

/// Entry `i` is the last entry of `e` with key `k`.
pub open spec fn is_last_with_key(e: Seq<(String, JsonValue)>, k: Seq<char>, i: int) -> bool {
    &&& 0 <= i < e.len()
    &&& key_at(e, i) == k
    &&& forall|j: int| i < j < e.len() ==> #[trigger] key_at(e, j) != k
}

/// The index of the last entry of `e` with key `k`.
pub open spec fn last_with_key(e: Seq<(String, JsonValue)>, k: Seq<char>) -> int {
    choose|i: int| is_last_with_key(e, k, i)
}

/// The meaning of a document.
pub open spec fn json_view(v: JsonValue) -> JsonView
    decreases v,
{
    match v {
        JsonValue::Null => JsonView::Null,
        JsonValue::Bool(b) => JsonView::Bool(b),
        JsonValue::Number(n) => JsonView::Number(n@),
        JsonValue::String(s) => JsonView::Str(s@),
        JsonValue::Array(items) => JsonView::Array(
            Seq::new(
                items.len() as nat,
                |i: int|
                    if 0 <= i < items.len() {
                        json_view(items[i])
                    } else {
                        JsonView::Null
                    },
            ),
        ),
        JsonValue::Object(entries) => JsonView::Object(
            Map::new(
                |k: Seq<char>| has_key(entries@, k),
                |k: Seq<char>|
                    {
                        let i = last_with_key(entries@, k);
                        if 0 <= i < entries.len() {
                            json_view(entries[i].1)
                        } else {
                            JsonView::Null
                        }
                    },
            ),
        ),
    }
}

/// The map that the entries `e` of an object stand for.
pub open spec fn entries_view(e: Seq<(String, JsonValue)>) -> Map<Seq<char>, JsonView> {
    Map::new(
        |k: Seq<char>| has_key(e, k),
        |k: Seq<char>|
            {
                let i = last_with_key(e, k);
                if 0 <= i < e.len() {
                    json_view(e[i].1)
                } else {
                    JsonView::Null
                }
            },
    )
}

pub(crate) proof fn lemma_object_view(entries: Vec<(String, JsonValue)>)
    ensures
        json_view(JsonValue::Object(entries)) == JsonView::Object(entries_view(entries@)),
{
    assert(json_view(JsonValue::Object(entries))->Object_0 =~= entries_view(entries@));
}

pub(crate) proof fn lemma_last_unique(e: Seq<(String, JsonValue)>, k: Seq<char>, i: int)
    requires
        is_last_with_key(e, k, i),
    ensures
        last_with_key(e, k) == i,
{
    let j = last_with_key(e, k);
    assert(is_last_with_key(e, k, j));
    if j < i {
        assert(key_at(e, i) != k);
    }
    if i < j {
        assert(key_at(e, j) != k);
    }
}

pub(crate) proof fn lemma_last_exists(e: Seq<(String, JsonValue)>, k: Seq<char>)
    requires
        has_key(e, k),
    ensures
        is_last_with_key(e, k, last_with_key(e, k)),
    decreases e.len(),
{
    let n = e.len() - 1;
    if key_at(e, n) == k {
        assert(is_last_with_key(e, k, n));
    } else {
        let p = e.drop_last();
        let w = choose|i: int| 0 <= i < e.len() && #[trigger] key_at(e, i) == k;
        assert(key_at(p, w) == k);
        lemma_last_exists(p, k);
        let li = last_with_key(p, k);
        assert forall|j: int| li < j < e.len() implies #[trigger] key_at(e, j) != k by {
            if j < n {
                assert(key_at(p, j) == key_at(e, j));
            }
        }
        assert(is_last_with_key(e, k, li));
    }
}

/// Looking a key up in the entries: the last entry with that key gives the value.
pub(crate) proof fn lemma_lookup(e: Seq<(String, JsonValue)>, k: Seq<char>, i: int)
    requires
        is_last_with_key(e, k, i),
    ensures
        entries_view(e).dom().contains(k),
        entries_view(e)[k] == json_view(e[i].1),
{
    lemma_last_unique(e, k, i);
}

pub(crate) proof fn lemma_view_push(e: Seq<(String, JsonValue)>, x: (String, JsonValue))
    ensures
        entries_view(e.push(x)) == entries_view(e).insert(x.0@, json_view(x.1)),
{
    let f = e.push(x);
    let n = e.len() as int;
    assert(key_at(f, n) == x.0@);
    assert(is_last_with_key(f, x.0@, n));
    lemma_last_unique(f, x.0@, n);
    assert forall|k: Seq<char>| k != x.0@ implies has_key(f, k) == has_key(e, k) by {
        if has_key(f, k) {
            let w = choose|i: int| 0 <= i < f.len() && #[trigger] key_at(f, i) == k;
            assert(key_at(e, w) == k);
        }
        if has_key(e, k) {
            let w = choose|i: int| 0 <= i < e.len() && #[trigger] key_at(e, i) == k;
            assert(key_at(f, w) == k);
        }
    }
    assert forall|k: Seq<char>| k != x.0@ && has_key(e, k) implies entries_view(f)[k]
        == entries_view(e)[k] by {
        lemma_last_exists(e, k);
        let li = last_with_key(e, k);
        assert forall|j: int| li < j < f.len() implies #[trigger] key_at(f, j) != k by {
            if j < n {
                assert(key_at(e, j) == key_at(f, j));
            }
        }
        assert(is_last_with_key(f, k, li));
        lemma_last_unique(f, k, li);
    }
    assert(entries_view(f) =~= entries_view(e).insert(x.0@, json_view(x.1)));
}

pub(crate) proof fn lemma_view_update_last(e: Seq<(String, JsonValue)>, i: int, x: (String, JsonValue))
    requires
        is_last_with_key(e, x.0@, i),
    ensures
        entries_view(e.update(i, x)) == entries_view(e).insert(x.0@, json_view(x.1)),
{
    let f = e.update(i, x);
    let key = x.0@;
    assert(key_at(f, i) == key);
    assert forall|j: int| i < j < f.len() implies #[trigger] key_at(f, j) != key by {
        assert(key_at(e, j) == key_at(f, j));
    }
    assert(is_last_with_key(f, key, i));
    lemma_last_unique(f, key, i);
    assert forall|k: Seq<char>| k != key implies has_key(f, k) == has_key(e, k) by {
        if has_key(f, k) {
            let w = choose|j: int| 0 <= j < f.len() && #[trigger] key_at(f, j) == k;
            assert(key_at(e, w) == k);
        }
        if has_key(e, k) {
            let w = choose|j: int| 0 <= j < e.len() && #[trigger] key_at(e, j) == k;
            assert(key_at(f, w) == k);
        }
    }
    assert forall|k: Seq<char>| k != key && has_key(e, k) implies entries_view(f)[k]
        == entries_view(e)[k] by {
        lemma_last_exists(e, k);
        let li = last_with_key(e, k);
        assert(li != i);
        assert forall|j: int| li < j < f.len() implies #[trigger] key_at(f, j) != k by {
            assert(key_at(e, j) == key_at(f, j));
        }
        assert(key_at(f, li) == key_at(e, li));
        assert(is_last_with_key(f, k, li));
        lemma_last_unique(f, k, li);
    }
    assert(entries_view(f) =~= entries_view(e).insert(key, json_view(x.1)));
}

pub(crate) proof fn lemma_view_empty(e: Seq<(String, JsonValue)>)
    requires
        e.len() == 0,
    ensures
        entries_view(e) == Map::<Seq<char>, JsonView>::empty(),
{
    assert(entries_view(e) =~= Map::<Seq<char>, JsonView>::empty());
}

/// Where the entries `e` have no entry with key `k`, or the last one with that key.
pub(crate) fn find_last(e: &Vec<(String, JsonValue)>, k: &str) -> (res: Option<usize>)
    ensures
        match res {
            Some(i) => is_last_with_key(e@, k@, i as int),
            None => !has_key(e@, k@),
        },
{
    let mut i: usize = e.len();
    while i > 0
        invariant
            i <= e@.len(),
            forall|j: int| i <= j < e@.len() ==> #[trigger] key_at(e@, j) != k@,
        decreases i,
    {
        i -= 1;
        if str_eq(e[i].0.as_str(), k) {
            return Some(i);
        }
    }
    None
}

/// Entries with the same keys, in the same order, whose values mean the same,
/// stand for the same map.
pub(crate) proof fn lemma_entries_congruent(a: Seq<(String, JsonValue)>, b: Seq<(String, JsonValue)>)
    requires
        a.len() == b.len(),
        forall|j: int| 0 <= j < a.len() ==> #[trigger] key_at(a, j) == key_at(b, j),
        forall|j: int| 0 <= j < a.len() ==> json_view(#[trigger] a[j].1) == json_view(b[j].1),
    ensures
        entries_view(a) == entries_view(b),
{
    assert forall|k: Seq<char>| has_key(a, k) == has_key(b, k) by {
        if has_key(a, k) {
            let w = choose|i: int| 0 <= i < a.len() && #[trigger] key_at(a, i) == k;
            assert(key_at(b, w) == k);
        }
        if has_key(b, k) {
            let w = choose|i: int| 0 <= i < b.len() && #[trigger] key_at(b, i) == k;
            assert(key_at(a, w) == k);
        }
    }
    assert forall|k: Seq<char>| has_key(a, k) implies entries_view(a)[k] == entries_view(b)[k] by {
        lemma_last_exists(a, k);
        let li = last_with_key(a, k);
        assert forall|j: int| li < j < b.len() implies #[trigger] key_at(b, j) != k by {
            assert(key_at(a, j) == key_at(b, j));
        }
        assert(is_last_with_key(b, k, li));
        lemma_last_unique(b, k, li);
    }
    assert(entries_view(a) =~= entries_view(b));
}

/// Entries stand for the empty map exactly when there are none.
pub(crate) proof fn lemma_view_empty_iff(e: Seq<(String, JsonValue)>)
    ensures
        (entries_view(e) == Map::<Seq<char>, JsonView>::empty()) == (e.len() == 0),
{
    if e.len() == 0 {
        lemma_view_empty(e);
    } else {
        assert(key_at(e, 0) == e[0].0@);
        assert(entries_view(e).dom().contains(e[0].0@));
    }
}

impl JsonValue {
    /// A copy of the document.
    pub fn duplicate(&self) -> (res: JsonValue)
        ensures
            json_view(res) == json_view(*self),
        decreases self,
    {
        match self {
            JsonValue::Null => JsonValue::Null,
            JsonValue::Bool(b) => JsonValue::Bool(*b),
            JsonValue::Number(n) => JsonValue::Number(n.clone()),
            JsonValue::String(s) => JsonValue::String(s.clone()),
            JsonValue::Array(items) => {
                let mut out: Vec<JsonValue> = Vec::new();
                let mut i: usize = 0;
                while i < items.len()
                    invariant
                        *self == JsonValue::Array(*items),
                        i <= items@.len(),
                        out@.len() == i,
                        forall|j: int| 0 <= j < i ==> json_view(#[trigger] out@[j]) == json_view(
                            items@[j],
                        ),
                    decreases items@.len() - i,
                {
                    proof {
                        assert(*self == JsonValue::Array(*items));
                        assert(decreases_to!(*self => self->Array_0));
                        assert(decreases_to!(*items => items[i as int]));
                    }
                    let c = items[i].duplicate();
                    out.push(c);
                    i += 1;
                }
                let res = JsonValue::Array(out);
                assert(json_view(res)->Array_0 =~= json_view(*self)->Array_0);
                res
            },
            JsonValue::Object(entries) => {
                let mut out: Vec<(String, JsonValue)> = Vec::new();
                let mut i: usize = 0;
                while i < entries.len()
                    invariant
                        *self == JsonValue::Object(*entries),
                        i <= entries@.len(),
                        out@.len() == i,
                        forall|j: int| 0 <= j < i ==> #[trigger] key_at(out@, j) == key_at(entries@, j),
                        forall|j: int| 0 <= j < i ==> json_view(#[trigger] out@[j].1) == json_view(
                            entries@[j].1,
                        ),
                    decreases entries@.len() - i,
                {
                    proof {
                        assert(*self == JsonValue::Object(*entries));
                        assert(decreases_to!(*self => self->Object_0));
                        assert(decreases_to!(*entries => entries[i as int]));
                        assert(decreases_to!(entries[i as int] => entries[i as int].1));
                    }
                    let v = entries[i].1.duplicate();
                    let k = entries[i].0.clone();
                    let ghost before = out@;
                    out.push((k, v));
                    proof {
                        assert forall|j: int| 0 <= j < i implies #[trigger] key_at(out@, j) == key_at(
                            entries@,
                            j,
                        ) by {
                            assert(out@[j] == before[j]);
                            assert(key_at(before, j) == key_at(entries@, j));
                        }
                        assert(key_at(out@, i as int) == key_at(entries@, i as int));
                    }
                    i += 1;
                }
                proof {
                    lemma_entries_congruent(out@, entries@);
                    lemma_object_view(out);
                    lemma_object_view(*entries);
                }
                JsonValue::Object(out)
            },
        }
    }

    /// The value under `key`, where the document is an object that has that key.
    pub fn get(&self, key: &str) -> (res: Option<&JsonValue>)
        ensures
            match res {
                Some(v) => {
                    &&& json_view(*self) is Object
                    &&& json_view(*self)->Object_0.dom().contains(key@)
                    &&& json_view(*v) == json_view(*self)->Object_0[key@]
                },
                None => !(json_view(*self) is Object && json_view(*self)->Object_0.dom().contains(
                    key@,
                )),
            },
    {
        match self {
            JsonValue::Object(entries) => {
                proof {
                    lemma_object_view(*entries);
                }
                match find_last(entries, key) {
                    Some(i) => {
                        proof {
                            lemma_lookup(entries@, key@, i as int);
                        }
                        Some(&entries[i].1)
                    },
                    None => None,
                }
            },
            _ => None,
        }
    }

    /// Whether the two documents mean the same: objects are compared as maps,
    /// whatever the order of their entries.
    pub fn same_as(&self, other: &JsonValue) -> (res: bool)
        ensures
            res == (json_view(*self) == json_view(*other)),
        decreases self,
    {
        match (self, other) {
            (JsonValue::Null, JsonValue::Null) => true,
            (JsonValue::Bool(a), JsonValue::Bool(b)) => *a == *b,
            (JsonValue::Number(a), JsonValue::Number(b)) => str_eq(a.as_str(), b.as_str()),
            (JsonValue::String(a), JsonValue::String(b)) => str_eq(a.as_str(), b.as_str()),
            (JsonValue::Array(xs), JsonValue::Array(ys)) => {
                if xs.len() != ys.len() {
                    assert(json_view(*self)->Array_0.len() != json_view(*other)->Array_0.len());
                    return false;
                }
                let mut i: usize = 0;
                while i < xs.len()
                    invariant
                        *self == JsonValue::Array(*xs),
                        *other == JsonValue::Array(*ys),
                        xs@.len() == ys@.len(),
                        i <= xs@.len(),
                        forall|j: int| 0 <= j < i ==> json_view(#[trigger] xs@[j]) == json_view(
                            ys@[j],
                        ),
                    decreases xs@.len() - i,
                {
                    proof {
                        assert(decreases_to!(*self => *xs));
                        assert(decreases_to!(*xs => xs[i as int]));
                    }
                    if !xs[i].same_as(&ys[i]) {
                        assert(json_view(*self)->Array_0[i as int] != json_view(
                            *other,
                        )->Array_0[i as int]);
                        return false;
                    }
                    i += 1;
                }
                assert(json_view(*self)->Array_0 =~= json_view(*other)->Array_0);
                true
            },
            (JsonValue::Object(xe), JsonValue::Object(ye)) => {
                proof {
                    lemma_object_view(*xe);
                    lemma_object_view(*ye);
                }
                let ghost xm = entries_view(xe@);
                let ghost ym = entries_view(ye@);
                let mut i: usize = 0;
                while i < xe.len()
                    invariant
                        *self == JsonValue::Object(*xe),
                        json_view(*self) == JsonView::Object(xm),
                        json_view(*other) == JsonView::Object(ym),
                        xm == entries_view(xe@),
                        ym == entries_view(ye@),
                        i <= xe@.len(),
                        forall|j: int|
                            0 <= j < i ==> #[trigger] ym.dom().contains(key_at(xe@, j)) && xm[key_at(
                                xe@,
                                j,
                            )] == ym[key_at(xe@, j)],
                    decreases xe@.len() - i,
                {
                    let ghost k = key_at(xe@, i as int);
                    assert(has_key(xe@, k));
                    match find_last(xe, xe[i].0.as_str()) {
                        Some(li) => {
                            proof {
                                lemma_lookup(xe@, k, li as int);
                                assert(decreases_to!(*self => *xe));
                                assert(decreases_to!(*xe => xe[li as int]));
                                assert(decreases_to!(xe[li as int] => xe[li as int].1));
                            }
                            match find_last(ye, xe[i].0.as_str()) {
                                Some(lj) => {
                                    proof {
                                        lemma_lookup(ye@, k, lj as int);
                                    }
                                    if !xe[li].1.same_as(&ye[lj].1) {
                                        assert(xm[k] != ym[k]);
                                        return false;
                                    }
                                    assert(ym.dom().contains(k) && xm[k] == ym[k]);
                                },
                                None => {
                                    assert(!ym.dom().contains(k));
                                    assert(xm.dom().contains(k));
                                    return false;
                                },
                            }
                        },
                        None => {
                            assert(false);
                        },
                    }
                    assert(ym.dom().contains(k) && xm[k] == ym[k]);
                    assert forall|j: int| 0 <= j < i + 1 implies #[trigger] ym.dom().contains(key_at(xe@, j)) && xm[key_at(xe@, j)] == ym[key_at(xe@, j)] by {
                        if j < i {
                            assert(ym.dom().contains(key_at(xe@, j)));
                        }
                    }
                    i += 1;
                }
                let mut j: usize = 0;
                while j < ye.len()
                    invariant
                        json_view(*self) == JsonView::Object(xm),
                        json_view(*other) == JsonView::Object(ym),
                        xm == entries_view(xe@),
                        ym == entries_view(ye@),
                        j <= ye@.len(),
                        forall|m: int| 0 <= m < j ==> #[trigger] xm.dom().contains(key_at(ye@, m)),
                    decreases ye@.len() - j,
                {
                    let ghost k = key_at(ye@, j as int);
                    assert(ym.dom().contains(k));
                    match find_last(xe, ye[j].0.as_str()) {
                        Some(_) => {},
                        None => {
                            assert(!xm.dom().contains(k));
                            return false;
                        },
                    }
                    j += 1;
                }
                assert forall|k: Seq<char>| xm.dom().contains(k) implies ym.dom().contains(k)
                    && xm[k] == ym[k] by {
                    let w = choose|m: int| 0 <= m < xe@.len() && #[trigger] key_at(xe@, m) == k;
                    assert(ym.dom().contains(key_at(xe@, w)));
                }
                assert forall|k: Seq<char>| ym.dom().contains(k) implies xm.dom().contains(k) by {
                    let w = choose|m: int| 0 <= m < ye@.len() && #[trigger] key_at(ye@, m) == k;
                    assert(xm.dom().contains(key_at(ye@, w)));
                }
                assert(xm =~= ym);
                true
            },
            _ => false,
        }
    }
}

} // verus!
