use vstd::prelude::*;
use crate::json::{
    entries_view, find_last, has_key, is_last_with_key, json_view, key_at, last_with_key,
    lemma_last_exists, lemma_last_unique, lemma_lookup, lemma_object_view, lemma_view_empty,
    lemma_view_push, lemma_view_update_last, JsonValue, JsonView,
};
use crate::numbers::{decimal_digits, digits_of, parse_u64, spec_parse_u64};
use crate::text::string_from_chars;

verus! {

/// The highest level index of the sync filter.
pub const MAX_LEVEL_IDX: u64 = 29;

/// A linked account given as a bare V-Archive id becomes an entry with that id and
/// an empty account path; any other value stays.
pub open spec fn account_entry(v: JsonView) -> JsonView {
    match v {
        JsonView::Str(s) => JsonView::Object(
            Map::empty().insert("v_id"@, JsonView::Str(s)).insert(
                "account_path"@,
                JsonView::Str(Seq::empty()),
            ),
        ),
        _ => v,
    }
}

/// A level index that is an unsigned integer, capped at 29; any other value stays.
pub open spec fn capped_level(v: JsonView) -> JsonView {
    match v {
        JsonView::Number(n) => match spec_parse_u64(n) {
            Some(x) => JsonView::Number(
                decimal_digits(
                    if x <= MAX_LEVEL_IDX {
                        x as nat
                    } else {
                        MAX_LEVEL_IDX as nat
                    },
                ),
            ),
            None => v,
        },
        _ => v,
    }
}

/// `m` with the value under `key` replaced by `f` of it, where there is one.
pub open spec fn adjust(
    m: Map<Seq<char>, JsonView>,
    key: Seq<char>,
    f: spec_fn(JsonView) -> JsonView,
) -> Map<Seq<char>, JsonView> {
    if m.dom().contains(key) {
        m.insert(key, f(m[key]))
    } else {
        m
    }
}

/// The linked accounts of a `user_map` object, each made an entry.
pub open spec fn accounts_as_entries(user_map: JsonView) -> JsonView {
    match user_map {
        JsonView::Object(u) => JsonView::Object(u.map_values(|v: JsonView| account_entry(v))),
        _ => user_map,
    }
}

/// The `varchive` section with its linked accounts made entries.
pub open spec fn varchive_accounts(section: JsonView) -> JsonView {
    match section {
        JsonView::Object(m) => JsonView::Object(
            adjust(m, "user_map"@, |u: JsonView| accounts_as_entries(u)),
        ),
        _ => section,
    }
}

/// The `sync_filter` section with its level indexes capped.
pub open spec fn capped_levels(section: JsonView) -> JsonView {
    match section {
        JsonView::Object(m) => JsonView::Object(
            adjust(
                adjust(m, "min_level_idx"@, |v: JsonView| capped_level(v)),
                "max_level_idx"@,
                |v: JsonView| capped_level(v),
            ),
        ),
        _ => section,
    }
}

/// Settings with their linked accounts made entries and their level indexes
/// capped; what is not an object stays.
pub open spec fn spec_normalize_links_and_levels(v: JsonView) -> JsonView {
    match v {
        JsonView::Object(m) => JsonView::Object(
            adjust(
                adjust(m, "varchive"@, |s: JsonView| varchive_accounts(s)),
                "sync_filter"@,
                |s: JsonView| capped_levels(s),
            ),
        ),
        _ => v,
    }
}

/// Puts `v` in place of the value of entry `i`, keeping its key; gives the value
/// that was there.
fn replace_value(entries: &mut Vec<(String, JsonValue)>, i: usize, v: JsonValue) -> (prev: JsonValue)
    requires
        i < old(entries)@.len(),
    ensures
        final(entries)@ == old(entries)@.update(i as int, (old(entries)@[i as int].0, v)),
        prev == old(entries)@[i as int].1,
{
    let ghost before = entries@;
    let (k, prev) = entries.remove(i);
    entries.insert(i, (k, v));
    assert(entries@ =~= before.update(i as int, (before[i as int].0, v)));
    prev
}

fn account_entry_of(v: JsonValue) -> (res: JsonValue)
    ensures
        json_view(res) == account_entry(json_view(v)),
{
    match v {
        JsonValue::String(s) => {
            let mut e: Vec<(String, JsonValue)> = Vec::new();
            proof {
                lemma_view_empty(e@);
            }
            let x = (String::from_str("v_id"), JsonValue::String(s));
            proof {
                lemma_view_push(e@, x);
            }
            e.push(x);
            let y = (String::from_str("account_path"), JsonValue::String(String::new()));
            proof {
                lemma_view_push(e@, y);
            }
            e.push(y);
            proof {
                lemma_object_view(e);
                reveal_strlit("v_id");
                reveal_strlit("account_path");
            }
            JsonValue::Object(e)
        },
        other => other,
    }
}

fn capped_level_of(v: JsonValue) -> (res: JsonValue)
    ensures
        json_view(res) == capped_level(json_view(v)),
{
    match v {
        JsonValue::Number(n) => match parse_u64(n.as_str()) {
            Some(x) => {
                let c: u32 = if x <= MAX_LEVEL_IDX {
                    x as u32
                } else {
                    MAX_LEVEL_IDX as u32
                };
                JsonValue::Number(string_from_chars(&digits_of(c)))
            },
            None => JsonValue::Number(n),
        },
        other => other,
    }
}

/// Entries with the same keys whose values mean `f` of the values of `b` stand
/// for the map of `b` with `f` applied to every value.
proof fn lemma_entries_mapped(
    a: Seq<(String, JsonValue)>,
    b: Seq<(String, JsonValue)>,
    f: spec_fn(JsonView) -> JsonView,
)
    requires
        a.len() == b.len(),
        forall|j: int| 0 <= j < a.len() ==> #[trigger] key_at(a, j) == key_at(b, j),
        forall|j: int| 0 <= j < a.len() ==> json_view(#[trigger] a[j].1) == f(json_view(b[j].1)),
    ensures
        entries_view(a) == entries_view(b).map_values(f),
{
    assert forall|k: Seq<char>| has_key(a, k) == has_key(b, k) by {
        if has_key(a, k) {
            let w = choose|i: int| 0 <= i < a.len() && #[trigger] key_at(a, i) == k;
            assert(key_at(b, w) == k);
        }
        if has_key(b, k) {
            let w = choose|i: int| 0 <= i < b.len() && #[trigger] key_at(b, i) == k;
            assert(key_at(a, w) == k);
        }
    }
    assert forall|k: Seq<char>| has_key(a, k) implies entries_view(a)[k] == f(entries_view(b)[k]) by {
        lemma_last_exists(a, k);
        let li = last_with_key(a, k);
        assert forall|j: int| li < j < b.len() implies #[trigger] key_at(b, j) != k by {
            assert(key_at(a, j) == key_at(b, j));
        }
        assert(is_last_with_key(b, k, li));
        lemma_last_unique(b, k, li);
    }
    assert(entries_view(a) =~= entries_view(b).map_values(f));
}

fn accounts_as_entries_of(v: JsonValue) -> (res: JsonValue)
    ensures
        json_view(res) == accounts_as_entries(json_view(v)),
{
    match v {
        JsonValue::Object(entries) => {
            let ghost orig = entries@;
            let mut rest = entries;
            let mut out: Vec<(String, JsonValue)> = Vec::new();
            let n = rest.len();
            let mut i: usize = 0;
            while i < n
                invariant
                    n == orig.len(),
                    i <= n,
                    rest@ == orig.subrange(i as int, n as int),
                    out@.len() == i,
                    forall|j: int| 0 <= j < i ==> #[trigger] key_at(out@, j) == key_at(orig, j),
                    forall|j: int|
                        0 <= j < i ==> json_view(#[trigger] out@[j].1) == account_entry(
                            json_view(orig[j].1),
                        ),
                decreases n - i,
            {
                let (k, val) = rest.remove(0);
                assert(orig[i as int] == (k, val));
                let ghost before = out@;
                let ghost kk = k;
                let mapped = account_entry_of(val);
                out.push((k, mapped));
                assert(out@[i as int].0 == kk);
                assert(orig[i as int].0 == kk);
                assert forall|j: int| 0 <= j < i + 1 implies #[trigger] key_at(out@, j) == key_at(
                    orig,
                    j,
                ) by {
                    if j < i {
                        assert(out@[j] == before[j]);
                        assert(key_at(before, j) == key_at(orig, j));
                    }
                }
                assert forall|j: int| 0 <= j < i + 1 implies json_view(#[trigger] out@[j].1)
                    == account_entry(json_view(orig[j].1)) by {
                    if j < i {
                        assert(out@[j] == before[j]);
                        assert(json_view(before[j].1) == account_entry(json_view(orig[j].1)));
                    }
                }
                i += 1;
            }
            proof {
                lemma_entries_mapped(out@, orig, |w: JsonView| account_entry(w));
                lemma_object_view(out);
                assert(json_view(JsonValue::Object(entries)) == JsonView::Object(entries_view(orig)))
                    by {
                    lemma_object_view(entries);
                }
            }
            JsonValue::Object(out)
        },
        other => other,
    }
}

fn varchive_accounts_of(v: JsonValue) -> (res: JsonValue)
    ensures
        json_view(res) == varchive_accounts(json_view(v)),
{
    match v {
        JsonValue::Object(entries) => {
            let ghost orig = entries@;
            proof {
                lemma_object_view(entries);
            }
            let mut e = entries;
            match find_last(&e, "user_map") {
                Some(i) => {
                    let prev = replace_value(&mut e, i, JsonValue::Null);
                    let new_value = accounts_as_entries_of(prev);
                    let _ = replace_value(&mut e, i, new_value);
                    proof {
                        lemma_lookup(orig, "user_map"@, i as int);
                        lemma_view_update_last(orig, i as int, (orig[i as int].0, new_value));
                        assert(e@ =~= orig.update(i as int, (orig[i as int].0, new_value)));
                        lemma_object_view(e);
                    }
                    JsonValue::Object(e)
                },
                None => {
                    proof {
                        lemma_object_view(e);
                    }
                    JsonValue::Object(e)
                },
            }
        },
        other => other,
    }
}

fn cap_level_entry(e: &mut Vec<(String, JsonValue)>, key: &str)
    ensures
        entries_view(final(e)@) == adjust(entries_view(old(e)@), key@, |v: JsonView| capped_level(v)),
{
    let ghost orig = e@;
    match find_last(e, key) {
        Some(i) => {
            let prev = replace_value(e, i, JsonValue::Null);
            let new_value = capped_level_of(prev);
            let _ = replace_value(e, i, new_value);
            proof {
                lemma_lookup(orig, key@, i as int);
                lemma_view_update_last(orig, i as int, (orig[i as int].0, new_value));
                assert(e@ =~= orig.update(i as int, (orig[i as int].0, new_value)));
            }
        },
        None => {},
    }
}

fn capped_levels_of(v: JsonValue) -> (res: JsonValue)
    ensures
        json_view(res) == capped_levels(json_view(v)),
{
    match v {
        JsonValue::Object(entries) => {
            proof {
                lemma_object_view(entries);
            }
            let mut e = entries;
            cap_level_entry(&mut e, "min_level_idx");
            cap_level_entry(&mut e, "max_level_idx");
            proof {
                lemma_object_view(e);
            }
            JsonValue::Object(e)
        },
        other => other,
    }
}

/// Settings with every linked account of `varchive.user_map` given as a bare id
/// made an entry `{v_id, account_path: ""}`, and the level indexes of
/// `sync_filter` that are unsigned integers capped at 29.
pub fn normalize_links_and_levels(settings: JsonValue) -> (res: JsonValue)
    ensures
        json_view(res) == spec_normalize_links_and_levels(json_view(settings)),
{
    match settings {
        JsonValue::Object(entries) => {
            let ghost orig = entries@;
            proof {
                lemma_object_view(entries);
            }
            let mut e = entries;
            match find_last(&e, "varchive") {
                Some(i) => {
                    let prev = replace_value(&mut e, i, JsonValue::Null);
                    let new_value = varchive_accounts_of(prev);
                    let _ = replace_value(&mut e, i, new_value);
                    proof {
                        lemma_lookup(orig, "varchive"@, i as int);
                        lemma_view_update_last(orig, i as int, (orig[i as int].0, new_value));
                        assert(e@ =~= orig.update(i as int, (orig[i as int].0, new_value)));
                    }
                },
                None => {},
            }
            let ghost mid = e@;
            match find_last(&e, "sync_filter") {
                Some(i) => {
                    let prev = replace_value(&mut e, i, JsonValue::Null);
                    let new_value = capped_levels_of(prev);
                    let _ = replace_value(&mut e, i, new_value);
                    proof {
                        lemma_lookup(mid, "sync_filter"@, i as int);
                        lemma_view_update_last(mid, i as int, (mid[i as int].0, new_value));
                        assert(e@ =~= mid.update(i as int, (mid[i as int].0, new_value)));
                    }
                },
                None => {},
            }
            proof {
                lemma_object_view(e);
            }
            JsonValue::Object(e)
        },
        other => other,
    }
}

} // verus!
