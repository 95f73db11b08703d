use vstd::prelude::*;
use crate::text::str_eq;
use crate::json::{
    JsonValue, JsonView, key_at, has_key, is_last_with_key, last_with_key, json_view, entries_view,
    lemma_object_view, lemma_last_unique, lemma_last_exists, lemma_lookup, lemma_view_push,
    lemma_view_update_last, lemma_view_empty, lemma_view_empty_iff, find_last,
};

verus! {

broadcast use vstd::std_specs::vec::group_vec_axioms;

/// The value under key `k` in `m`, or null where `m` has no such key.
pub open spec fn value_or_null(m: Map<Seq<char>, JsonView>, k: Seq<char>) -> JsonView {
    if m.dom().contains(k) {
        m[k]
    } else {
        JsonView::Null
    }
}

/// `over` laid over `base`. Where both are objects they are merged key by key:
/// a key of `over` gets its value laid over the value of `base` (or over null),
/// and a key of `base` alone keeps its value. Anything else in `over` replaces
/// `base` as a whole.
pub open spec fn merge_value(base: JsonView, over: JsonView) -> JsonView
    decreases over,
{
    match over {
        JsonView::Object(o) => match base {
            JsonView::Object(b) => JsonView::Object(
                Map::new(
                    |k: Seq<char>| b.dom().contains(k) || o.dom().contains(k),
                    |k: Seq<char>|
                        if o.dom().contains(k) {
                            merge_value(value_or_null(b, k), o[k])
                        } else {
                            b[k]
                        },
                ),
            ),
            _ => over,
        },
        _ => over,
    }
}

/// The object `o` laid over the object `b`.
pub open spec fn merge_map(b: Map<Seq<char>, JsonView>, o: Map<Seq<char>, JsonView>) -> Map<
    Seq<char>,
    JsonView,
> {
    merge_value(JsonView::Object(b), JsonView::Object(o))->Object_0
}

/// The keys of the entries from index `lo` on.
pub open spec fn keys_from(e: Seq<(String, JsonValue)>, lo: int) -> Set<Seq<char>> {
    Set::new(|k: Seq<char>| exists|i: int| lo <= i < e.len() && #[trigger] key_at(e, i) == k)
}

/// `o` laid over `b` on the keys `done` only.
pub open spec fn merge_on(
    b: Map<Seq<char>, JsonView>,
    o: Map<Seq<char>, JsonView>,
    done: Set<Seq<char>>,
) -> Map<Seq<char>, JsonView> {
    Map::new(
        |k: Seq<char>| b.dom().contains(k) || done.contains(k),
        |k: Seq<char>|
            if done.contains(k) {
                merge_value(value_or_null(b, k), o[k])
            } else {
                b[k]
            },
    )
}

proof fn lemma_keys_from_step(e: Seq<(String, JsonValue)>, j: int)
    requires
        1 <= j <= e.len(),
    ensures
        keys_from(e, j - 1) == keys_from(e, j).insert(key_at(e, j - 1)),
{
    assert forall|k: Seq<char>| #[trigger] keys_from(e, j - 1).contains(k) implies keys_from(
        e,
        j,
    ).insert(key_at(e, j - 1)).contains(k) by {
        let w = choose|i: int| j - 1 <= i < e.len() && #[trigger] key_at(e, i) == k;
        if w >= j {
            assert(keys_from(e, j).contains(k));
        }
    }
    assert forall|k: Seq<char>| #[trigger] keys_from(e, j).insert(key_at(e, j - 1)).contains(k)
        implies keys_from(e, j - 1).contains(k) by {
        if k != key_at(e, j - 1) {
            let w = choose|i: int| j <= i < e.len() && #[trigger] key_at(e, i) == k;
            assert(key_at(e, w) == k);
        } else {
            assert(key_at(e, j - 1) == k);
        }
    }
    assert(keys_from(e, j - 1) =~= keys_from(e, j).insert(key_at(e, j - 1)));
}

proof fn lemma_keys_from_ends(e: Seq<(String, JsonValue)>)
    ensures
        keys_from(e, e.len() as int) == Set::<Seq<char>>::empty(),
        keys_from(e, 0) == entries_view(e).dom(),
{
    assert(keys_from(e, e.len() as int) =~= Set::<Seq<char>>::empty());
    assert forall|k: Seq<char>| #[trigger] keys_from(e, 0).contains(k) == has_key(e, k) by {
        if keys_from(e, 0).contains(k) {
            let w = choose|i: int| 0 <= i < e.len() && #[trigger] key_at(e, i) == k;
            assert(key_at(e, w) == k);
        }
        if has_key(e, k) {
            let w = choose|i: int| 0 <= i < e.len() && #[trigger] key_at(e, i) == k;
            assert(key_at(e, w) == k);
        }
    }
    assert(keys_from(e, 0) =~= entries_view(e).dom());
}

/// Some name in `names` is `k`.
pub open spec fn names_has(names: Seq<String>, k: Seq<char>) -> bool {
    exists|i: int| 0 <= i < names.len() && #[trigger] names[i]@ == k
}

fn contains_name(names: &Vec<String>, k: &str) -> (res: bool)
    ensures
        res == names_has(names@, k@),
{
    let mut i: usize = 0;
    while i < names.len()
        invariant
            i <= names@.len(),
            forall|j: int| 0 <= j < i ==> #[trigger] names@[j]@ != k@,
        decreases names@.len() - i,
    {
        if str_eq(names[i].as_str(), k) {
            return true;
        }
        i += 1;
    }
    false
}

/// Lays the entries `over` over the entries `base`.
fn merge_entries(base: &mut Vec<(String, JsonValue)>, over: Vec<(String, JsonValue)>)
    ensures
        entries_view(final(base)@) == merge_map(entries_view(old(base)@), entries_view(over@)),
    decreases over,
{
    let ghost orig = over;
    let ghost b0 = entries_view(base@);
    let ghost o0 = entries_view(over@);
    let mut rest = over;
    let mut seen: Vec<String> = Vec::new();
    proof {
        lemma_keys_from_ends(orig@);
        assert(entries_view(base@) =~= merge_on(b0, o0, keys_from(orig@, orig@.len() as int)));
    }
    while rest.len() > 0
        invariant
            orig == over,
            rest@ == orig@.subrange(0, rest@.len() as int),
            rest@.len() <= orig@.len(),
            o0 == entries_view(orig@),
            forall|kk: Seq<char>|
                names_has(seen@, kk) <==> #[trigger] keys_from(orig@, rest@.len() as int).contains(
                    kk,
                ),
            entries_view(base@) == merge_on(b0, o0, keys_from(orig@, rest@.len() as int)),
        decreases rest@.len(),
    {
        let ghost j = rest@.len() as int;
        let ghost done = keys_from(orig@, j);
        let ghost before = entries_view(base@);
        let (k, v) = rest.pop().unwrap();
        proof {
            assert(orig@[j - 1] == (k, v));
            assert(key_at(orig@, j - 1) == k@);
            lemma_keys_from_step(orig@, j);
            assert(rest@ =~= orig@.subrange(0, j - 1));
        }
        if !contains_name(&seen, k.as_str()) {
            proof {
                assert(!done.contains(k@));
                assert forall|m: int| j - 1 < m < orig@.len() implies #[trigger] key_at(orig@, m)
                    != k@ by {
                    if key_at(orig@, m) == k@ {
                        assert(done.contains(k@));
                    }
                }
                assert(is_last_with_key(orig@, k@, j - 1));
                lemma_lookup(orig@, k@, j - 1);
            }
            let key = k.clone();
            match find_last(base, k.as_str()) {
                Some(i) => {
                    proof {
                        lemma_lookup(base@, k@, i as int);
                    }
                    let base_is_object = match &base[i].1 {
                        JsonValue::Object(_) => true,
                        _ => false,
                    };
                    let ghost old_base = base@;
                    match v {
                        JsonValue::Object(ve) => {
                            if base_is_object {
                                let (bk, bval) = base.remove(i);
                                match bval {
                                    JsonValue::Object(mut be) => {
                                        proof {
                                            assert(decreases_to!(orig => orig[j - 1]));
                                            assert(decreases_to!(orig[j - 1] => orig[j - 1].1));
                                            assert(orig[j - 1].1 == JsonValue::Object(ve));
                                            assert(decreases_to!(orig[j - 1].1 => orig[j - 1].1->Object_0));
                                            lemma_object_view(be);
                                            lemma_object_view(ve);
                                        }
                                        let ghost be0 = be@;
                                        merge_entries(&mut be, ve);
                                        let ghost nv = JsonValue::Object(be);
                                        proof {
                                            lemma_object_view(be);
                                        }
                                        base.insert(i, (bk, JsonValue::Object(be)));
                                        proof {
                                            assert(base@ =~= old_base.update(i as int, (bk, nv)));
                                            lemma_view_update_last(old_base, i as int, (bk, nv));
                                        }
                                    },
                                    other => {
                                        base.insert(i, (bk, other));
                                    },
                                }
                            } else {
                                let _ = base.remove(i);
                                base.insert(i, (key, JsonValue::Object(ve)));
                                proof {
                                    assert(base@ =~= old_base.update(
                                        i as int,
                                        (key, JsonValue::Object(ve)),
                                    ));
                                    lemma_view_update_last(
                                        old_base,
                                        i as int,
                                        (key, JsonValue::Object(ve)),
                                    );
                                }
                            }
                        },
                        other => {
                            let ghost ov = other;
                            let _ = base.remove(i);
                            base.insert(i, (key, other));
                            proof {
                                assert(base@ =~= old_base.update(i as int, (key, ov)));
                                lemma_view_update_last(old_base, i as int, (key, ov));
                            }
                        },
                    }
                },
                None => {
                    proof {
                        lemma_view_push(base@, (key, v));
                    }
                    base.push((key, v));
                },
            }
            proof {
                assert(entries_view(base@) == before.insert(
                    k@,
                    merge_value(value_or_null(before, k@), o0[k@]),
                ));
                assert(entries_view(base@) =~= merge_on(b0, o0, done.insert(k@)));
            }
            let ghost seen0 = seen@;
            seen.push(k);
            proof {
                assert forall|kk: Seq<char>| names_has(seen@, kk) <==> #[trigger] keys_from(
                    orig@,
                    j - 1,
                ).contains(kk) by {
                    if names_has(seen@, kk) {
                        let w = choose|m: int| 0 <= m < seen@.len() && #[trigger] seen@[m]@ == kk;
                        if w < seen0.len() {
                            assert(seen0[w]@ == kk);
                            assert(names_has(seen0, kk));
                        }
                    }
                    if keys_from(orig@, j - 1).contains(kk) {
                        if kk == k@ {
                            assert(seen@[seen0.len() as int]@ == kk);
                        } else {
                            assert(done.contains(kk));
                            assert(names_has(seen0, kk));
                            let w = choose|m: int| 0 <= m < seen0.len() && #[trigger] seen0[m]@ == kk;
                            assert(seen@[w]@ == kk);
                        }
                    }
                }
            }
        } else {
            proof {
                assert(done.contains(k@));
                assert(done.insert(k@) =~= done);
            }
        }
    }
    proof {
        lemma_keys_from_ends(orig@);
        assert(entries_view(base@) =~= merge_map(b0, o0));
    }
}

/// The entries of `v` where it is an object; no entries otherwise.
pub open spec fn object_or_empty_view(v: JsonView) -> Map<Seq<char>, JsonView> {
    match v {
        JsonView::Object(m) => m,
        _ => Map::empty(),
    }
}

/// The settings layer `layer` laid over the object `m`. A layer that is not an
/// object is ignored.
pub open spec fn merge_layer(m: Map<Seq<char>, JsonView>, layer: JsonView) -> Map<
    Seq<char>,
    JsonView,
> {
    match layer {
        JsonView::Object(o) => merge_map(m, o),
        _ => m,
    }
}

/// The settings that the defaults, `settings.json` and `settings.user.json` make
/// together, each later layer laid over the earlier ones.
pub open spec fn layered_settings(defaults: JsonView, packaged: JsonView, user: JsonView) -> JsonView {
    JsonView::Object(merge_layer(merge_layer(object_or_empty_view(defaults), packaged), user))
}

fn object_or_empty(value: JsonValue) -> (res: Vec<(String, JsonValue)>)
    ensures
        entries_view(res@) == object_or_empty_view(json_view(value)),
{
    match value {
        JsonValue::Object(map) => {
            proof {
                lemma_object_view(map);
            }
            map
        },
        _ => {
            let res: Vec<(String, JsonValue)> = Vec::new();
            proof {
                lemma_view_empty(res@);
            }
            res
        },
    }
}

fn merge_object_value(base: &mut Vec<(String, JsonValue)>, override_value: JsonValue)
    ensures
        entries_view(final(base)@) == merge_layer(entries_view(old(base)@), json_view(override_value)),
{
    match override_value {
        JsonValue::Object(override_map) => {
            proof {
                lemma_object_view(override_map);
            }
            merge_entries(base, override_map);
        },
        _ => {},
    }
}

/// The empty object.
pub fn empty_object() -> (res: JsonValue)
    ensures
        json_view(res) == JsonView::Object(Map::empty()),
{
    let entries: Vec<(String, JsonValue)> = Vec::new();
    proof {
        lemma_view_empty(entries@);
        lemma_object_view(entries);
    }
    JsonValue::Object(entries)
}

/// The settings of the three layers: the defaults, then `settings.json`, then
/// `settings.user.json`. Layers that are not objects are ignored.
pub fn merge_settings_layers(
    defaults: JsonValue,
    settings_json: JsonValue,
    settings_user_json: JsonValue,
) -> (res: JsonValue)
    ensures
        json_view(res) == layered_settings(
            json_view(defaults),
            json_view(settings_json),
            json_view(settings_user_json),
        ),
{
    let mut merged = object_or_empty(defaults);
    merge_object_value(&mut merged, settings_json);
    merge_object_value(&mut merged, settings_user_json);
    proof {
        lemma_object_view(merged);
    }
    JsonValue::Object(merged)
}

/// What must be stored so that `cur` is obtained when it is laid over `base`.
/// Where both are objects: each key of `cur` that `base` lacks, or whose value
/// differs from that of `base` (for two objects: whose own difference is not
/// empty), with that value or difference. Otherwise `cur` itself.
pub open spec fn diff_value(base: JsonView, cur: JsonView) -> JsonView
    decreases cur,
{
    match cur {
        JsonView::Object(c) => match base {
            JsonView::Object(b) => JsonView::Object(
                Map::new(
                    |k: Seq<char>|
                        c.dom().contains(k) && (!b.dom().contains(k) || if b[k] is Object
                            && c[k] is Object {
                            diff_value(b[k], c[k]) != JsonView::Object(Map::empty())
                        } else {
                            b[k] != c[k]
                        }),
                    |k: Seq<char>|
                        if c.dom().contains(k) && b.dom().contains(k) && b[k] is Object
                            && c[k] is Object {
                            diff_value(b[k], c[k])
                        } else {
                            c[k]
                        },
                ),
            ),
            _ => cur,
        },
        _ => cur,
    }
}

/// The difference of the object `c` from the object `b`.
pub open spec fn diff_map(b: Map<Seq<char>, JsonView>, c: Map<Seq<char>, JsonView>) -> Map<
    Seq<char>,
    JsonView,
> {
    diff_value(JsonView::Object(b), JsonView::Object(c))->Object_0
}

/// The keys whose last entry in `e` lies before index `i`.
pub open spec fn keys_before(e: Seq<(String, JsonValue)>, i: int) -> Set<Seq<char>> {
    Set::new(|k: Seq<char>| has_key(e, k) && last_with_key(e, k) < i)
}

proof fn lemma_keys_before_step(e: Seq<(String, JsonValue)>, i: int)
    requires
        0 <= i < e.len(),
    ensures
        is_last_with_key(e, key_at(e, i), i) ==> keys_before(e, i + 1) == keys_before(e, i).insert(
            key_at(e, i),
        ),
        !is_last_with_key(e, key_at(e, i), i) ==> keys_before(e, i + 1) == keys_before(e, i),
{
    let k = key_at(e, i);
    assert(has_key(e, k));
    lemma_last_exists(e, k);
    if is_last_with_key(e, k, i) {
        lemma_last_unique(e, k, i);
    }
    assert forall|kk: Seq<char>| #[trigger] keys_before(e, i + 1).contains(kk) && !keys_before(
        e,
        i,
    ).contains(kk) implies kk == k && last_with_key(e, k) == i by {
        lemma_last_exists(e, kk);
    }
    if is_last_with_key(e, k, i) {
        assert(keys_before(e, i + 1) =~= keys_before(e, i).insert(k));
    } else {
        assert(keys_before(e, i + 1) =~= keys_before(e, i));
    }
}

proof fn lemma_keys_before_all(e: Seq<(String, JsonValue)>)
    ensures
        keys_before(e, e.len() as int) == entries_view(e).dom(),
{
    assert forall|k: Seq<char>| has_key(e, k) implies #[trigger] keys_before(
        e,
        e.len() as int,
    ).contains(k) by {
        lemma_last_exists(e, k);
    }
    assert(keys_before(e, e.len() as int) =~= entries_view(e).dom());
}

/// The difference of the entries `c` from the entries `b`.
fn diff_entries(b: &Vec<(String, JsonValue)>, c: &Vec<(String, JsonValue)>) -> (res: Vec<
    (String, JsonValue),
>)
    ensures
        entries_view(res@) == diff_map(entries_view(b@), entries_view(c@)),
    decreases c,
{
    let ghost bm = entries_view(b@);
    let ghost cm = entries_view(c@);
    let ghost dm = diff_map(bm, cm);
    let mut out: Vec<(String, JsonValue)> = Vec::new();
    let mut i: usize = 0;
    proof {
        lemma_view_empty(out@);
        assert forall|k: Seq<char>| !#[trigger] keys_before(c@, 0).contains(k) by {
            if has_key(c@, k) {
                lemma_last_exists(c@, k);
            }
        }
        assert(dm.restrict(keys_before(c@, 0)) =~= Map::<Seq<char>, JsonView>::empty());
    }
    while i < c.len()
        invariant
            bm == entries_view(b@),
            cm == entries_view(c@),
            dm == diff_map(bm, cm),
            i <= c@.len(),
            entries_view(out@) == dm.restrict(keys_before(c@, i as int)),
        decreases c@.len() - i,
    {
        let ghost k = key_at(c@, i as int);
        let ghost before = entries_view(out@);
        proof {
            lemma_keys_before_step(c@, i as int);
            assert(has_key(c@, k));
        }
        let li = find_last(c, c[i].0.as_str());
        if li == Some(i) {
            proof {
                lemma_lookup(c@, k, i as int);
            }
            match find_last(b, c[i].0.as_str()) {
                None => {
                    let entry = (c[i].0.clone(), c[i].1.duplicate());
                    proof {
                        lemma_view_push(out@, entry);
                    }
                    out.push(entry);
                },
                Some(j) => {
                    proof {
                        lemma_lookup(b@, k, j as int);
                    }
                    match (&b[j].1, &c[i].1) {
                        (JsonValue::Object(be), JsonValue::Object(ce)) => {
                            proof {
                                assert(decreases_to!(*c => c[i as int]));
                                assert(decreases_to!(c[i as int] => c[i as int].1));
                                assert(c[i as int].1 == JsonValue::Object(*ce));
                                assert(decreases_to!(c[i as int].1 => c[i as int].1->Object_0));
                                lemma_object_view(*be);
                                lemma_object_view(*ce);
                            }
                            let sub = diff_entries(be, ce);
                            proof {
                                lemma_view_empty_iff(sub@);
                                lemma_object_view(sub);
                            }
                            if sub.len() > 0 {
                                let entry = (c[i].0.clone(), JsonValue::Object(sub));
                                proof {
                                    lemma_view_push(out@, entry);
                                }
                                out.push(entry);
                            }
                        },
                        _ => {
                            if !b[j].1.same_as(&c[i].1) {
                                let entry = (c[i].0.clone(), c[i].1.duplicate());
                                proof {
                                    lemma_view_push(out@, entry);
                                }
                                out.push(entry);
                            }
                        },
                    }
                },
            }
            proof {
                assert(entries_view(out@) =~= dm.restrict(keys_before(c@, i as int).insert(k)));
            }
        } else {
            proof {
                assert(!is_last_with_key(c@, k, i as int));
            }
        }
        i += 1;
    }
    proof {
        lemma_keys_before_all(c@);
        assert(dm.restrict(keys_before(c@, c@.len() as int)) =~= dm);
    }
    out
}

/// What `settings.user.json` must hold so that `current` is obtained when it is
/// laid over `base`.
pub fn diff_settings(base: &JsonValue, current: &JsonValue) -> (res: JsonValue)
    ensures
        json_view(res) == diff_value(json_view(*base), json_view(*current)),
{
    match (base, current) {
        (JsonValue::Object(b), JsonValue::Object(c)) => {
            proof {
                lemma_object_view(*b);
                lemma_object_view(*c);
            }
            let d = diff_entries(b, c);
            proof {
                lemma_object_view(d);
            }
            JsonValue::Object(d)
        },
        _ => current.duplicate(),
    }
}

/// `cur` keeps every key of `base`, at every depth where both are objects.
pub open spec fn keeps_keys(base: JsonView, cur: JsonView) -> bool
    decreases cur,
{
    match cur {
        JsonView::Object(c) => match base {
            JsonView::Object(b) => forall|k: Seq<char>|
                #![trigger b.dom().contains(k)]
                b.dom().contains(k) ==> c.dom().contains(k) && keeps_keys(b[k], c[k]),
            _ => true,
        },
        _ => true,
    }
}

/// Laying the empty object over an object changes nothing.
pub proof fn lemma_merge_empty_is_identity(m: Map<Seq<char>, JsonView>)
    ensures
        merge_map(m, Map::empty()) == m,
        merge_value(JsonView::Object(m), JsonView::Object(Map::empty())) == JsonView::Object(m),
{
    assert(merge_map(m, Map::empty()) =~= m);
}

/// Settings layers that are not objects are ignored: the defaults alone make
/// the settings.
pub proof fn lemma_non_object_layers_are_ignored(defaults: JsonView, packaged: JsonView, user: JsonView)
    requires
        !(packaged is Object),
        !(user is Object),
    ensures
        layered_settings(defaults, packaged, user) == JsonView::Object(object_or_empty_view(defaults)),
{
}

/// A value that `settings.user.json` gives a key, other than an object, is the
/// value of that key, whatever the defaults and `settings.json` say.
pub proof fn lemma_user_layer_overrides(
    defaults: JsonView,
    packaged: JsonView,
    user: JsonView,
    k: Seq<char>,
)
    requires
        user is Object,
        user->Object_0.dom().contains(k),
        !(user->Object_0[k] is Object),
    ensures
        layered_settings(defaults, packaged, user)->Object_0.dom().contains(k),
        layered_settings(defaults, packaged, user)->Object_0[k] == user->Object_0[k],
{
    let m = merge_layer(object_or_empty_view(defaults), packaged);
    assert(merge_value(value_or_null(m, k), user->Object_0[k]) == user->Object_0[k]);
}

/// A value that `settings.json` gives a key, other than an object, is the value
/// of that key where `settings.user.json` does not name it.
pub proof fn lemma_packaged_layer_overrides_defaults(
    defaults: JsonView,
    packaged: JsonView,
    user: JsonView,
    k: Seq<char>,
)
    requires
        packaged is Object,
        packaged->Object_0.dom().contains(k),
        !(packaged->Object_0[k] is Object),
        !(user is Object && user->Object_0.dom().contains(k)),
    ensures
        layered_settings(defaults, packaged, user)->Object_0.dom().contains(k),
        layered_settings(defaults, packaged, user)->Object_0[k] == packaged->Object_0[k],
{
    let d = object_or_empty_view(defaults);
    assert(merge_value(value_or_null(d, k), packaged->Object_0[k]) == packaged->Object_0[k]);
}

/// A key that only the defaults name keeps its default value.
pub proof fn lemma_defaults_fill_the_rest(
    defaults: JsonView,
    packaged: JsonView,
    user: JsonView,
    k: Seq<char>,
)
    requires
        defaults is Object,
        defaults->Object_0.dom().contains(k),
        !(packaged is Object && packaged->Object_0.dom().contains(k)),
        !(user is Object && user->Object_0.dom().contains(k)),
    ensures
        layered_settings(defaults, packaged, user)->Object_0.dom().contains(k),
        layered_settings(defaults, packaged, user)->Object_0[k] == defaults->Object_0[k],
{
}

/// An object differs from itself in nothing.
pub proof fn lemma_unchanged_settings_differ_in_nothing(v: JsonView)
    requires
        v is Object,
    ensures
        diff_value(v, v) == JsonView::Object(Map::empty()),
    decreases v,
{
    let m = v->Object_0;
    let d = diff_value(v, v)->Object_0;
    assert forall|k: Seq<char>| !#[trigger] d.dom().contains(k) by {
        if m.dom().contains(k) && m[k] is Object {
            lemma_unchanged_settings_differ_in_nothing(m[k]);
        }
    }
    assert(d =~= Map::<Seq<char>, JsonView>::empty());
}

/// Laying the difference of `cur` from `base` over `base` gives `cur` back,
/// where `cur` keeps every key of `base`.
pub proof fn lemma_diff_then_merge(base: JsonView, cur: JsonView)
    requires
        keeps_keys(base, cur),
    ensures
        merge_value(base, diff_value(base, cur)) == cur,
    decreases cur,
{
    match cur {
        JsonView::Object(cm) => match base {
            JsonView::Object(bm) => {
                let dm = diff_value(base, cur)->Object_0;
                let r = merge_value(base, diff_value(base, cur))->Object_0;
                assert forall|k: Seq<char>| #[trigger] cm.dom().contains(k) implies r.dom().contains(k)
                    && r[k] == cm[k] by {
                    if bm.dom().contains(k) && bm[k] is Object && cm[k] is Object {
                        assert(keeps_keys(bm[k], cm[k]));
                        lemma_diff_then_merge(bm[k], cm[k]);
                        if !dm.dom().contains(k) {
                            lemma_merge_empty_is_identity(bm[k]->Object_0);
                        } else {
                            assert(dm[k] == diff_value(bm[k], cm[k]));
                        }
                    } else if bm.dom().contains(k) {
                        if dm.dom().contains(k) {
                            assert(dm[k] == cm[k]);
                            assert(merge_value(bm[k], cm[k]) == cm[k]);
                        } else {
                            assert(bm[k] == cm[k]);
                        }
                    } else {
                        assert(dm[k] == cm[k]);
                        assert(merge_value(JsonView::Null, cm[k]) == cm[k]);
                    }
                }
                assert forall|k: Seq<char>| #[trigger] r.dom().contains(k) implies cm.dom().contains(
                    k,
                ) by {
                    if bm.dom().contains(k) {
                        assert(cm.dom().contains(k));
                    }
                }
                assert(r =~= cm);
            },
            _ => {},
        },
        _ => {},
    }
}

/// What is saved to `settings.user.json` restores the settings: the difference
/// of the current settings from the defaults and `settings.json` taken alone,
/// laid over them as the user layer, gives the current settings, where these
/// are an object that keeps every key of the former.
pub proof fn lemma_saved_difference_restores(defaults: JsonView, packaged: JsonView, cur: JsonView)
    requires
        cur is Object,
        keeps_keys(
            layered_settings(defaults, packaged, JsonView::Object(Map::empty())),
            cur,
        ),
    ensures
        layered_settings(
            defaults,
            packaged,
            diff_value(layered_settings(defaults, packaged, JsonView::Object(Map::empty())), cur),
        ) == cur,
{
    let m = merge_layer(object_or_empty_view(defaults), packaged);
    lemma_merge_empty_is_identity(m);
    let base = layered_settings(defaults, packaged, JsonView::Object(Map::empty()));
    assert(base == JsonView::Object(m));
    lemma_diff_then_merge(base, cur);
}

} // verus!
