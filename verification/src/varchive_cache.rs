use vstd::prelude::*;
use crate::json::{
    JsonValue, JsonView, json_view, entries_view, find_last, lemma_object_view, lemma_view_push,
    lemma_view_update_last, lemma_lookup,
};
use crate::numbers::{
    decimal_text, int_text, parse_i32, parse_i64, parse_u64, spec_parse_i32, spec_parse_i64,
    spec_parse_u64,
};
use crate::text::str_eq;

verus! {

broadcast use vstd::std_specs::vec::group_vec_axioms;

/// The meanings of a list of documents.
pub open spec fn views_of(v: Seq<JsonValue>) -> Seq<JsonView> {
    v.map_values(|x: JsonValue| json_view(x))
}

/// The value under `key` of an object, if it has one.
pub open spec fn field(v: JsonView, key: Seq<char>) -> Option<JsonView> {
    match v {
        JsonView::Object(m) => if m.dom().contains(key) {
            Some(m[key])
        } else {
            None
        },
        _ => None,
    }
}

/// The song id a record's `title` gives: a number that is an integer fitting in
/// `i32`, or a text that parses as one.
pub open spec fn spec_song_id(title: JsonView) -> Option<i32> {
    match title {
        JsonView::Number(n) => match spec_parse_i64(n, false) {
            Some(v) => if i32::MIN <= v <= i32::MAX {
                Some(v as i32)
            } else {
                None
            },
            None => None,
        },
        JsonView::Str(s) => spec_parse_i32(s),
        _ => None,
    }
}

/// The song id of a cached V-Archive record's title.
pub fn parse_song_id(title: &JsonValue) -> (res: Option<i32>)
    ensures
        res == spec_song_id(json_view(*title)),
{
    match title {
        JsonValue::Number(n) => match parse_i64(n.as_str(), false) {
            Some(v) => if i32::MIN as i64 <= v && v <= i32::MAX as i64 {
                Some(v as i32)
            } else {
                None
            },
            None => None,
        },
        JsonValue::String(s) => parse_i32(s.as_str()),
        _ => None,
    }
}

/// Whether a cached record says the chart was cleared with max combo: `maxCombo`
/// is `true`, or a non-zero unsigned integer.
pub open spec fn spec_max_combo(rec: JsonView) -> bool {
    match field(rec, "maxCombo"@) {
        Some(JsonView::Bool(b)) => b,
        Some(JsonView::Number(n)) => match spec_parse_u64(n) {
            Some(v) => v != 0,
            None => false,
        },
        _ => false,
    }
}

/// The max-combo flag of a cached record.
pub fn record_max_combo(rec: &JsonValue) -> (res: bool)
    ensures
        res == spec_max_combo(json_view(*rec)),
{
    match rec.get("maxCombo") {
        Some(JsonValue::Bool(b)) => *b,
        Some(JsonValue::Number(n)) => match parse_u64(n.as_str()) {
            Some(v) => v != 0,
            None => false,
        },
        _ => false,
    }
}

/// A title names the song `song_id`: a text equal to its decimal id, or a number
/// of that value.
pub open spec fn title_names_song(title: JsonView, song_id: i32) -> bool {
    match title {
        JsonView::Str(s) => s == decimal_text(song_id as int),
        JsonView::Number(n) => spec_parse_i64(n, false) == Some(song_id as i64),
        _ => false,
    }
}

/// A cached record is the one of the chart: an object whose title names the song
/// and whose pattern is the difficulty.
pub open spec fn record_matches(rec: JsonView, song_id: i32, difficulty: Seq<char>) -> bool {
    &&& field(rec, "title"@) matches Some(t) && title_names_song(t, song_id)
    &&& field(rec, "pattern"@) == Some(JsonView::Str(difficulty))
}

fn title_matches(title: &JsonValue, song_id: i32, id_text: &str) -> (res: bool)
    requires
        id_text@ == decimal_text(song_id as int),
    ensures
        res == title_names_song(json_view(*title), song_id),
{
    match title {
        JsonValue::String(s) => str_eq(s.as_str(), id_text),
        JsonValue::Number(n) => match parse_i64(n.as_str(), false) {
            Some(v) => v == song_id as i64,
            None => false,
        },
        _ => false,
    }
}

fn matches_chart(rec: &JsonValue, song_id: i32, id_text: &str, difficulty: &str) -> (res: bool)
    requires
        id_text@ == decimal_text(song_id as int),
    ensures
        res == record_matches(json_view(*rec), song_id, difficulty@),
{
    let title_ok = match rec.get("title") {
        Some(t) => title_matches(t, song_id, id_text),
        None => false,
    };
    let pattern_ok = match rec.get("pattern") {
        Some(JsonValue::String(p)) => str_eq(p.as_str(), difficulty),
        _ => false,
    };
    title_ok && pattern_ok
}

/// `key` set to `value` in the entries of an object.
fn set_key(entries: &mut Vec<(String, JsonValue)>, key: &str, value: JsonValue)
    ensures
        entries_view(final(entries)@) == entries_view(old(entries)@).insert(key@, json_view(value)),
{
    let entry = (String::from_str(key), value);
    match find_last(entries, key) {
        Some(i) => {
            let ghost before = entries@;
            let _ = entries.remove(i);
            entries.insert(i, entry);
            proof {
                assert(entries@ =~= before.update(i as int, entry));
                lemma_view_update_last(before, i as int, entry);
            }
        },
        None => {
            proof {
                lemma_view_push(entries@, entry);
            }
            entries.push(entry);
        },
    }
}

/// The index of the first record of the chart, if there is one.
pub open spec fn first_match(recs: Seq<JsonView>, song_id: i32, difficulty: Seq<char>) -> Option<int> {
    if exists|i: int| 0 <= i < recs.len() && record_matches(#[trigger] recs[i], song_id, difficulty) {
        Some(
            choose|i: int|
                0 <= i < recs.len() && record_matches(recs[i], song_id, difficulty) && forall|j: int|
                    0 <= j < i ==> !record_matches(#[trigger] recs[j], song_id, difficulty),
        )
    } else {
        None
    }
}

/// A record with a new score and max-combo flag.
pub open spec fn with_score(rec: JsonView, score: JsonView, max_combo: bool) -> JsonView {
    match rec {
        JsonView::Object(m) => JsonView::Object(
            m.insert("score"@, score).insert("maxCombo"@, JsonView::Bool(max_combo)),
        ),
        _ => rec,
    }
}

/// A new record of the chart.
pub open spec fn new_record(song_id: i32, difficulty: Seq<char>, score: JsonView, max_combo: bool) -> JsonView {
    JsonView::Object(
        Map::empty().insert("title"@, JsonView::Str(decimal_text(song_id as int))).insert(
            "pattern"@,
            JsonView::Str(difficulty),
        ).insert("score"@, score).insert("maxCombo"@, JsonView::Bool(max_combo)),
    )
}

/// The records with the score of the chart set: the first record of the chart
/// gets the score and flag, or a new record is appended.
pub open spec fn spec_upsert_records(
    recs: Seq<JsonView>,
    song_id: i32,
    difficulty: Seq<char>,
    score: JsonView,
    max_combo: bool,
) -> Seq<JsonView> {
    match first_match(recs, song_id, difficulty) {
        Some(i) => recs.update(i, with_score(recs[i], score, max_combo)),
        None => recs.push(new_record(song_id, difficulty, score, max_combo)),
    }
}

proof fn lemma_first_match(recs: Seq<JsonView>, song_id: i32, difficulty: Seq<char>, i: int)
    requires
        0 <= i < recs.len(),
        record_matches(recs[i], song_id, difficulty),
        forall|j: int| 0 <= j < i ==> !record_matches(#[trigger] recs[j], song_id, difficulty),
    ensures
        first_match(recs, song_id, difficulty) == Some(i),
{
    let k = choose|k: int|
        0 <= k < recs.len() && record_matches(recs[k], song_id, difficulty) && forall|j: int|
            0 <= j < k ==> !record_matches(#[trigger] recs[j], song_id, difficulty);
    assert(0 <= k < recs.len() && record_matches(recs[k], song_id, difficulty));
    if k < i {
        assert(!record_matches(recs[k], song_id, difficulty));
    }
    if i < k {
        assert(!record_matches(recs[i], song_id, difficulty));
    }
}

/// Sets the score of the chart in the records.
pub fn upsert_record(
    records: &mut Vec<JsonValue>,
    song_id: i32,
    difficulty: &str,
    score: JsonValue,
    is_max_combo: bool,
)
    ensures
        views_of(final(records)@) == spec_upsert_records(
            views_of(old(records)@),
            song_id,
            difficulty@,
            json_view(score),
            is_max_combo,
        ),
{
    let title = int_text(song_id);
    let ghost before = records@;
    let mut i: usize = 0;
    while i < records.len()
        invariant
            records@ == before,
            before == old(records)@,
            title@ == decimal_text(song_id as int),
            i <= records@.len(),
            forall|j: int| 0 <= j < i ==> !record_matches(
                #[trigger] views_of(before)[j],
                song_id,
                difficulty@,
            ),
        decreases records@.len() - i,
    {
        if matches_chart(&records[i], song_id, title.as_str(), difficulty) {
            proof {
                lemma_first_match(views_of(before), song_id, difficulty@, i as int);
            }
            let rec = records.remove(i);
            let updated = match rec {
                JsonValue::Object(mut entries) => {
                    let ghost orig_entries = entries;
                    proof {
                        lemma_object_view(orig_entries);
                    }
                    set_key(&mut entries, "score", score);
                    set_key(&mut entries, "maxCombo", JsonValue::Bool(is_max_combo));
                    proof {
                        lemma_object_view(entries);
                    }
                    JsonValue::Object(entries)
                },
                other => other,
            };
            let ghost u = updated;
            records.insert(i, updated);
            proof {
                assert(records@ =~= before.update(i as int, u));
                assert(json_view(u) == with_score(views_of(before)[i as int], json_view(score), is_max_combo));
                assert(views_of(records@) =~= views_of(before).update(
                    i as int,
                    with_score(views_of(before)[i as int], json_view(score), is_max_combo),
                ));
            }
            return;
        }
        i += 1;
    }
    proof {
        assert(!(exists|j: int|
            0 <= j < views_of(before).len() && record_matches(
                #[trigger] views_of(before)[j],
                song_id,
                difficulty@,
            )));
    }
    let mut entries: Vec<(String, JsonValue)> = Vec::new();
    proof {
        crate::json::lemma_view_empty(entries@);
    }
    set_key(&mut entries, "title", JsonValue::String(title));
    set_key(&mut entries, "pattern", JsonValue::String(String::from_str(difficulty)));
    set_key(&mut entries, "score", score);
    set_key(&mut entries, "maxCombo", JsonValue::Bool(is_max_combo));
    proof {
        lemma_object_view(entries);
    }
    records.push(JsonValue::Object(entries));
    proof {
        assert(views_of(records@) =~= views_of(before).push(
            new_record(song_id, difficulty@, json_view(score), is_max_combo),
        ));
    }
}

proof fn lemma_array_view(items: Vec<JsonValue>)
    ensures
        json_view(JsonValue::Array(items)) == JsonView::Array(views_of(items@)),
{
    assert(json_view(JsonValue::Array(items))->Array_0 =~= views_of(items@));
}

/// The cache file of a button mode is not an object, or its `records` is not a
/// list.
#[derive(Clone, Copy, Debug, PartialEq, Eq, Structural)]
pub struct InvalidCacheShape;

/// The cache file with the score of the chart set in its `records` (a missing
/// list counts as empty); nothing where the file has not the expected shape.
pub open spec fn spec_upsert_cache(
    root: JsonView,
    song_id: i32,
    difficulty: Seq<char>,
    score: JsonView,
    max_combo: bool,
) -> Option<JsonView> {
    match root {
        JsonView::Object(m) => {
            let recs = if m.dom().contains("records"@) {
                m["records"@]
            } else {
                JsonView::Array(Seq::empty())
            };
            match recs {
                JsonView::Array(rs) => Some(
                    JsonView::Object(
                        m.insert(
                            "records"@,
                            JsonView::Array(
                                spec_upsert_records(rs, song_id, difficulty, score, max_combo),
                            ),
                        ),
                    ),
                ),
                _ => None,
            }
        },
        _ => None,
    }
}

/// Sets the score of the chart in the V-Archive cache file `root` of one button
/// mode.
pub fn upsert_cache_record(
    root: JsonValue,
    song_id: i32,
    difficulty: &str,
    score: JsonValue,
    is_max_combo: bool,
) -> (res: Result<JsonValue, InvalidCacheShape>)
    ensures
        match res {
            Ok(v) => spec_upsert_cache(
                json_view(root),
                song_id,
                difficulty@,
                json_view(score),
                is_max_combo,
            ) == Some(json_view(v)),
            Err(_) => spec_upsert_cache(
                json_view(root),
                song_id,
                difficulty@,
                json_view(score),
                is_max_combo,
            ) is None,
        },
{
    let ghost score_view = json_view(score);
    let mut records: Vec<JsonValue> = match root.get("records") {
        Some(v) => match v.duplicate() {
            JsonValue::Array(items) => {
                proof {
                    lemma_array_view(items);
                }
                items
            },
            _ => {
                return Err(InvalidCacheShape);
            },
        },
        None => Vec::new(),
    };
    let ghost r0 = records@;
    match root {
        JsonValue::Object(mut entries) => {
            let ghost orig = entries;
            proof {
                lemma_object_view(orig);
                assert(views_of(r0) =~= match json_view(JsonValue::Object(orig))->Object_0.dom().contains("records"@) {
                    true => json_view(JsonValue::Object(orig))->Object_0["records"@]->Array_0,
                    false => Seq::<JsonView>::empty(),
                });
            }
            upsert_record(&mut records, song_id, difficulty, score, is_max_combo);
            let ghost r1 = records;
            proof {
                lemma_array_view(r1);
            }
            set_key(&mut entries, "records", JsonValue::Array(records));
            proof {
                lemma_object_view(entries);
            }
            Ok(JsonValue::Object(entries))
        },
        _ => Err(InvalidCacheShape),
    }
}

/// The records that are not of the chart, in order.
pub open spec fn keep_unmatched(rs: Seq<JsonView>, song_id: i32, difficulty: Seq<char>) -> Seq<JsonView>
    decreases rs.len(),
{
    if rs.len() == 0 {
        rs
    } else if record_matches(rs.last(), song_id, difficulty) {
        keep_unmatched(rs.drop_last(), song_id, difficulty)
    } else {
        keep_unmatched(rs.drop_last(), song_id, difficulty).push(rs.last())
    }
}

/// The cache file without the records of the chart; a file without a list of
/// records stays as it is.
pub open spec fn spec_delete_cache(root: JsonView, song_id: i32, difficulty: Seq<char>) -> JsonView {
    match root {
        JsonView::Object(m) => match field(root, "records"@) {
            Some(JsonView::Array(rs)) => JsonView::Object(
                m.insert("records"@, JsonView::Array(keep_unmatched(rs, song_id, difficulty))),
            ),
            _ => root,
        },
        _ => root,
    }
}

/// Removes the records of the chart from the V-Archive cache file `root` of one
/// button mode.
pub fn delete_cache_records(root: JsonValue, song_id: i32, difficulty: &str) -> (res: JsonValue)
    ensures
        json_view(res) == spec_delete_cache(json_view(root), song_id, difficulty@),
{
    let items = match root.get("records") {
        Some(v) => match v.duplicate() {
            JsonValue::Array(items) => {
                proof {
                    lemma_array_view(items);
                }
                items
            },
            _ => {
                return root;
            },
        },
        None => {
            return root;
        },
    };
    let title = int_text(song_id);
    let ghost rs = views_of(items@);
    let mut kept: Vec<JsonValue> = Vec::new();
    let mut i: usize = 0;
    while i < items.len()
        invariant
            rs == views_of(items@),
            title@ == decimal_text(song_id as int),
            i <= items@.len(),
            views_of(kept@) == keep_unmatched(rs.subrange(0, i as int), song_id, difficulty@),
        decreases items@.len() - i,
    {
        assert(rs.subrange(0, i + 1).drop_last() =~= rs.subrange(0, i as int));
        if !matches_chart(&items[i], song_id, title.as_str(), difficulty) {
            let ghost before = kept@;
            kept.push(items[i].duplicate());
            assert(views_of(kept@) =~= views_of(before).push(rs[i as int]));
        }
        i += 1;
    }
    assert(rs.subrange(0, items@.len() as int) =~= rs);
    match root {
        JsonValue::Object(mut entries) => {
            let ghost orig = entries;
            proof {
                lemma_object_view(orig);
            }
            let ghost k = kept;
            proof {
                lemma_array_view(k);
            }
            set_key(&mut entries, "records", JsonValue::Array(kept));
            proof {
                lemma_object_view(entries);
            }
            JsonValue::Object(entries)
        },
        other => other,
    }
}

} // verus!
