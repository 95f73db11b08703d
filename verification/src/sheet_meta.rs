use vstd::prelude::*;
use crate::text::{
    chars_of, push_char, split_fields, split_on, string_views, spec_to_uppercase, to_uppercase, remove_whitespace, spec_to_lowercase, str_eq, string_from_chars,
    to_lowercase, trim_chars, trimmed, without_white_space, ascii_folded, is_ascii_text,
    lemma_ascii_folded_trimmed,
};

use crate::varchive_db::{best_match, MatchQuery, SongView, VArchiveDB};
use crate::varchive::Dlc;

verus! {

/// What the pattern sheet says of one chart.
#[derive(Debug, PartialEq, Eq)]
pub struct PatternSheetMetaItem {
    pub gold: String,
    pub note: String,
    pub assist_key: String,
    pub keypart: bool,
}

impl View for PatternSheetMetaItem {
    type V = (Seq<char>, Seq<char>, Seq<char>, bool);

    open spec fn view(&self) -> Self::V {
        (self.gold@, self.note@, self.assist_key@, self.keypart)
    }
}

/// An item with nothing in it.
pub open spec fn empty_item_view() -> (Seq<char>, Seq<char>, Seq<char>, bool) {
    (Seq::empty(), Seq::empty(), Seq::empty(), false)
}

impl Default for PatternSheetMetaItem {
    fn default() -> (res: Self)
        ensures
            res@ == empty_item_view(),
    {
        PatternSheetMetaItem {
            gold: String::new(),
            note: String::new(),
            assist_key: String::new(),
            keypart: false,
        }
    }
}

impl PatternSheetMetaItem {
    /// A copy of the item.
    pub fn duplicate(&self) -> (res: Self)
        ensures
            res@ == self@,
    {
        PatternSheetMetaItem {
            gold: self.gold.clone(),
            note: self.note.clone(),
            assist_key: self.assist_key.clone(),
            keypart: self.keypart,
        }
    }
}

/// Whether a flag is off (an unset flag is left out when the sheet is stored).
pub fn is_false(val: &bool) -> (res: bool)
    ensures
        res == !*val,
{
    !*val
}

/// A difficulty name as sheet keys hold it: trimmed, lower-cased, without white space.
pub open spec fn normalized_diff(value: Seq<char>) -> Seq<char> {
    without_white_space(spec_to_lowercase(trimmed(value)))
}

fn normalize(value: &str) -> (res: String)
    ensures
        res@ == normalized_diff(value@),
        is_ascii_text(value@) ==> res@ == ascii_folded(value@),
{
    let t = string_from_chars(&trim_chars(&chars_of(value)));
    proof {
        if is_ascii_text(value@) {
            lemma_ascii_folded_trimmed(value@);
        }
    }
    let lower = to_lowercase(t.as_str());
    string_from_chars(&remove_whitespace(&chars_of(lower.as_str())))
}

/// The key of a chart: `song_id|mode|diff`, the difficulty normalized.
pub open spec fn spec_sheet_key(song_id: Seq<char>, mode: Seq<char>, diff: Seq<char>) -> Seq<char> {
    song_id + seq!['|'] + mode + seq!['|'] + normalized_diff(diff)
}

/// The key under which the sheet holds a chart.
pub fn sheet_key(song_id: &str, mode: &str, diff: &str) -> (res: String)
    ensures
        res@ == spec_sheet_key(song_id@, mode@, diff@),
        is_ascii_text(diff@) ==> res@ == song_id@ + seq!['|'] + mode@ + seq!['|'] + ascii_folded(diff@),
{
    let mut key = String::from_str(song_id);
    push_char(&mut key, '|');
    key.append(mode);
    push_char(&mut key, '|');
    let d = normalize(diff);
    key.append(d.as_str());
    key
}

/// The pattern sheet: items by chart key, each key at most once.
pub struct PatternSheetMeta {
    items: Vec<(String, PatternSheetMetaItem)>,
}

impl PatternSheetMeta {
    #[verifier::type_invariant]
    spec fn keys_unique(self) -> bool {
        forall|i: int, j: int|
            0 <= i < j < self.items@.len() ==> #[trigger] self.items@[i].0@ != #[trigger] self.items@[j].0@
    }

    /// The items by key.
    pub closed spec fn entries(self) -> Map<Seq<char>, (Seq<char>, Seq<char>, Seq<char>, bool)> {
        Map::new(
            |k: Seq<char>| exists|i: int| 0 <= i < self.items@.len() && #[trigger] self.items@[i].0@ == k,
            |k: Seq<char>|
                self.items@[choose|i: int| 0 <= i < self.items@.len() && #[trigger] self.items@[i].0@ == k].1@,
        )
    }

    proof fn lemma_entry(self, i: int)
        requires
            self.keys_unique(),
            0 <= i < self.items@.len(),
        ensures
            self.entries().dom().contains(self.items@[i].0@),
            self.entries()[self.items@[i].0@] == self.items@[i].1@,
    {
        let k = self.items@[i].0@;
        assert(self.items@[i].0@ == k);
        let j = choose|j: int| 0 <= j < self.items@.len() && #[trigger] self.items@[j].0@ == k;
        if j != i {
            if j < i {
                assert(self.items@[j].0@ != self.items@[i].0@);
            } else {
                assert(self.items@[i].0@ != self.items@[j].0@);
            }
        }
    }

    fn find(&self, key: &str) -> (res: Option<usize>)
        ensures
            match res {
                Some(i) => i < self.items@.len() && self.items@[i as int].0@ == key@,
                None => !self.entries().dom().contains(key@),
            },
    {
        let mut i: usize = 0;
        while i < self.items.len()
            invariant
                i <= self.items@.len(),
                forall|j: int| 0 <= j < i ==> #[trigger] self.items@[j].0@ != key@,
            decreases self.items@.len() - i,
        {
            if str_eq(self.items[i].0.as_str(), key) {
                return Some(i);
            }
            i += 1;
        }
        None
    }

    /// The empty sheet.
    pub fn new() -> (res: Self)
        ensures
            res.entries() == Map::<Seq<char>, (Seq<char>, Seq<char>, Seq<char>, bool)>::empty(),
    {
        let res = PatternSheetMeta { items: Vec::new() };
        assert(res.entries() =~= Map::<Seq<char>, (Seq<char>, Seq<char>, Seq<char>, bool)>::empty());
        res
    }

    /// Files `item` under `key`, in place of what was there.
    pub fn insert(&mut self, key: String, item: PatternSheetMetaItem)
        ensures
            final(self).entries() == old(self).entries().insert(key@, item@),
    {
        proof {
            use_type_invariant(&*self);
        }
        let ghost old_items = self.items@;
        let ghost k = key@;
        let ghost v = item@;
        let found = self.find(key.as_str());
        let mut items: Vec<(String, PatternSheetMetaItem)> = Vec::new();
        std::mem::swap(&mut items, &mut self.items);
        match found {
            Some(i) => {
                let _ = items.remove(i);
                items.insert(i, (key, item));
                proof {
                    assert(items@ =~= old_items.update(i as int, items@[i as int]));
                }
            },
            None => {
                items.push((key, item));
            },
        }
        proof {
            assert forall|a: int, b: int| 0 <= a < b < items@.len() implies #[trigger] items@[a].0@
                != #[trigger] items@[b].0@ by {
                if b < old_items.len() {
                    assert(old_items[a].0@ != old_items[b].0@);
                }
            }
        }
        self.items = items;
        proof {
            use_type_invariant(&*self);
            let e = self.entries();
            let oe = old(self).entries();
            let n = old_items.len() as int;
            let w: int = match found {
                Some(i) => i as int,
                None => n,
            };
            assert(self.items@[w].0@ == k);
            assert forall|j: int| 0 <= j < self.items@.len() && j != w implies #[trigger] self.items@[j]
                == old_items[j] by {}
            assert forall|kk: Seq<char>| #[trigger] e.dom().contains(kk) == oe.insert(k, v).dom().contains(kk) by {
                if e.dom().contains(kk) && kk != k {
                    let j = choose|j: int| 0 <= j < self.items@.len() && #[trigger] self.items@[j].0@ == kk;
                    assert(j != w);
                    assert(old_items[j].0@ == kk);
                }
                if oe.dom().contains(kk) && kk != k {
                    let j = choose|j: int| 0 <= j < old_items.len() && #[trigger] old_items[j].0@ == kk;
                    if found.is_some() {
                        assert(j != w);
                    }
                    assert(self.items@[j].0@ == kk);
                }
            }
            assert forall|kk: Seq<char>| #[trigger] e.dom().contains(kk) implies e[kk] == oe.insert(k, v)[kk] by {
                let j = choose|j: int| 0 <= j < self.items@.len() && #[trigger] self.items@[j].0@ == kk;
                self.lemma_entry(j);
                if kk != k {
                    assert(j != w);
                    assert(old_items[j].0@ == kk);
                    old(self).lemma_entry(j);
                } else {
                    self.lemma_entry(w);
                }
            }
            assert(e =~= oe.insert(k, v));
        }
    }

    /// Every key of the sheet with its item, each key once.
    pub fn items(&self) -> (res: Vec<(String, PatternSheetMetaItem)>)
        ensures
            forall|i: int|
                0 <= i < res@.len() ==> self.entries().dom().contains(#[trigger] res@[i].0@)
                    && self.entries()[res@[i].0@] == res@[i].1@,
            forall|k: Seq<char>|
                #[trigger] self.entries().dom().contains(k) ==> exists|i: int|
                    0 <= i < res@.len() && res@[i].0@ == k,
            forall|i: int, j: int| 0 <= i < j < res@.len() ==> res@[i].0@ != res@[j].0@,
    {
        proof {
            use_type_invariant(self);
        }
        let mut out: Vec<(String, PatternSheetMetaItem)> = Vec::new();
        let mut i: usize = 0;
        while i < self.items.len()
            invariant
                self.keys_unique(),
                i <= self.items@.len(),
                out@.len() == i,
                forall|j: int| 0 <= j < i ==> (#[trigger] out@[j]).0@ == self.items@[j].0@ && out@[j].1@
                    == self.items@[j].1@,
            decreases self.items@.len() - i,
        {
            out.push((self.items[i].0.clone(), self.items[i].1.duplicate()));
            i += 1;
        }
        proof {
            assert forall|j: int| 0 <= j < out@.len() implies self.entries().dom().contains(
                #[trigger] out@[j].0@,
            ) && self.entries()[out@[j].0@] == out@[j].1@ by {
                self.lemma_entry(j);
            }
            assert forall|k: Seq<char>| #[trigger] self.entries().dom().contains(k) implies exists|
                j: int,
            | 0 <= j < out@.len() && out@[j].0@ == k by {
                let j = choose|j: int| 0 <= j < self.items@.len() && #[trigger] self.items@[j].0@ == k;
                assert(out@[j].0@ == k);
            }
            assert forall|a: int, b: int| 0 <= a < b < out@.len() implies out@[a].0@ != out@[b].0@ by {
                assert(self.items@[a].0@ != self.items@[b].0@);
            }
        }
        out
    }

    /// The item of a chart, or an empty item where the sheet says nothing of it.
    pub fn get(&self, song_id: &str, mode: &str, diff: &str) -> (res: PatternSheetMetaItem)
        ensures
            res@ == if self.entries().dom().contains(spec_sheet_key(song_id@, mode@, diff@)) {
                self.entries()[spec_sheet_key(song_id@, mode@, diff@)]
            } else {
                empty_item_view()
            },
            is_ascii_text(diff@) ==> spec_sheet_key(song_id@, mode@, diff@) == song_id@ + seq!['|']
                + mode@ + seq!['|'] + ascii_folded(diff@),
    {
        proof {
            use_type_invariant(self);
        }
        let key = sheet_key(song_id, mode, diff);
        match self.find(key.as_str()) {
            Some(i) => {
                proof {
                    self.lemma_entry(i as int);
                }
                self.items[i].1.duplicate()
            },
            None => PatternSheetMetaItem::default(),
        }
    }
}

/// A button mode as the first field of a key of the old shape holds it.
pub open spec fn is_button_mode(lower: Seq<char>) -> bool {
    lower == "4b"@ || lower == "5b"@ || lower == "6b"@ || lower == "8b"@
}

/// The parts of a key of the old shape `mode|title|diff`: the title, the mode and
/// the difficulty, both upper-cased. Keys of the new shape `song_id|mode|diff`
/// have none.
pub open spec fn spec_legacy_key_parts(key: Seq<char>) -> Option<(Seq<char>, Seq<char>, Seq<char>)> {
    let parts = split_fields(key, '|');
    if parts.len() == 3 && is_button_mode(spec_to_lowercase(parts[0])) {
        Some((parts[1], spec_to_uppercase(parts[0]), spec_to_uppercase(parts[2])))
    } else {
        None
    }
}

/// The title, mode and difficulty of a sheet key of the old shape, which must be
/// moved to the key of the song that the title names.
pub fn legacy_key_parts(key: &str) -> (res: Option<(String, String, String)>)
    ensures
        match (res, spec_legacy_key_parts(key@)) {
            (Some((t, m, d)), Some((st, sm, sd))) => t@ == st && m@ == sm && d@ == sd,
            (None, None) => true,
            _ => false,
        },
{
    let parts = split_on(key, '|');
    proof {
        assert(string_views(parts@).len() == parts@.len());
    }
    if parts.len() != 3 {
        return None;
    }
    proof {
        assert(string_views(parts@)[0] == parts@[0]@);
        assert(string_views(parts@)[1] == parts@[1]@);
        assert(string_views(parts@)[2] == parts@[2]@);
    }
    let first = to_lowercase(parts[0].as_str());
    let f = first.as_str();
    if str_eq(f, "4b") || str_eq(f, "5b") || str_eq(f, "6b") || str_eq(f, "8b") {
        Some((parts[1].clone(), to_uppercase(parts[0].as_str()), to_uppercase(parts[2].as_str())))
    } else {
        None
    }
}

/// The key under which an item of a cache file is kept: a key of the old shape
/// moves to the key of the song that its title (with the item's note) best
/// matches, when one does; every other key stays. The flag tells whether the key
/// moved.
pub open spec fn migrated_key(
    key: Seq<char>,
    note: Seq<char>,
    songs: Seq<SongView>,
    dlcs: Seq<Dlc>,
) -> (Seq<char>, bool) {
    match spec_legacy_key_parts(key) {
        Some((title, mode, diff)) => match best_match(
            MatchQuery {
                title,
                mode,
                diff,
                level: None,
                category: Seq::empty(),
                note,
            },
            songs,
            dlcs,
        ) {
            Some(song) => (spec_sheet_key(song.title, mode, diff), true),
            None => (key, false),
        },
        None => (key, false),
    }
}

/// The entries of a sheet made from the items of a cache file in order, each
/// under its migrated key (a later item replaces an earlier one of the same key),
/// and whether any key moved.
pub open spec fn migrated_entries(
    raw: Seq<(Seq<char>, (Seq<char>, Seq<char>, Seq<char>, bool))>,
    songs: Seq<SongView>,
    dlcs: Seq<Dlc>,
) -> (Map<Seq<char>, (Seq<char>, Seq<char>, Seq<char>, bool)>, bool)
    decreases raw.len(),
{
    if raw.len() == 0 {
        (Map::empty(), false)
    } else {
        let prev = migrated_entries(raw.drop_last(), songs, dlcs);
        let item = raw.last().1;
        let k = migrated_key(raw.last().0, item.1, songs, dlcs);
        (prev.0.insert(k.0, item), prev.1 || k.1)
    }
}

/// The views of the items of a cache file.
pub open spec fn raw_view(raw: Seq<(String, PatternSheetMetaItem)>) -> Seq<
    (Seq<char>, (Seq<char>, Seq<char>, Seq<char>, bool)),
> {
    raw.map_values(|e: (String, PatternSheetMetaItem)| (e.0@, e.1@))
}

impl PatternSheetMeta {
    /// The sheet of the items of a cache file, keys of the old shape `mode|title|diff`
    /// moved to the keys `song_id|mode|diff` of the songs their titles name; and
    /// whether any key moved (the file is then written back).
    pub fn from_cache_items(raw: Vec<(String, PatternSheetMetaItem)>, db: &VArchiveDB) -> (res: (
        Self,
        bool,
    ))
        ensures
            res.0.entries() == migrated_entries(raw_view(raw@), db.song_list(), db.dlc_list()).0,
            res.1 == migrated_entries(raw_view(raw@), db.song_list(), db.dlc_list()).1,
    {
        let ghost all = raw_view(raw@);
        let ghost songs = db.song_list();
        let ghost dlcs = db.dlc_list();
        let mut sheet = PatternSheetMeta::new();
        let mut dirty = false;
        let ghost orig = raw@;
        let mut rest = raw;
        let mut i: usize = 0;
        let n = rest.len();
        while i < n
            invariant
                n == all.len(),
                all == raw_view(orig),
                i <= n,
                rest@ == orig.subrange(i as int, n as int),
                sheet.entries() == migrated_entries(all.take(i as int), songs, dlcs).0,
                dirty == migrated_entries(all.take(i as int), songs, dlcs).1,
                songs == db.song_list(),
                dlcs == db.dlc_list(),
            decreases n - i,
        {
            let (key, item) = rest.remove(0);
            assert(orig[i as int] == (key, item));
            assert((key@, item@) == all[i as int]);
            assert(all.take(i + 1).drop_last() =~= all.take(i as int));
            let (new_key, moved) = match legacy_key_parts(key.as_str()) {
                Some((title, mode, diff)) => {
                    match db.find_best_match(
                        title.as_str(),
                        mode.as_str(),
                        diff.as_str(),
                        None,
                        "",
                        item.note.as_str(),
                    ) {
                        Some(song) => (sheet_key(song.title.as_str(), mode.as_str(), diff.as_str()), true),
                        None => (key, false),
                    }
                },
                None => (key, false),
            };
            proof {
                reveal_strlit("");
                assert(""@ =~= Seq::<char>::empty());
            }
            sheet.insert(new_key, item);
            dirty = dirty || moved;
            i += 1;
        }
        assert(all.take(n as int) =~= all);
        (sheet, dirty)
    }
}

} // verus!
