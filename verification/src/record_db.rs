use vstd::prelude::*;
use vstd::utf8::{decode_utf8, encode_utf8, is_char_boundary};
use vstd::string::StringSliceAdditionalSpecFns;
use crate::text::{chars_of, str_eq, string_from_chars, trim_chars, trimmed};

verus! {

broadcast use vstd::utf8::encode_utf8_decode_utf8;

/// The Steam ID used while none is known.
pub open spec fn unknown_steam_id() -> Seq<char> {
    "__unknown__"@
}

/// The Steam ID that an optional, possibly padded, Steam ID stands for: the
/// trimmed text where some is left, and the unknown ID otherwise.
pub open spec fn spec_normalize_steam_id(steam_id: Option<Seq<char>>) -> Seq<char> {
    match steam_id {
        Some(s) if trimmed(s).len() > 0 => trimmed(s),
        _ => unknown_steam_id(),
    }
}

/// A Steam ID can be shown masked: it is the unknown ID, it has at most eight
/// bytes, or its first four and last four bytes are whole characters.
pub open spec fn maskable(id: Seq<char>) -> bool {
    let b = encode_utf8(id);
    ||| id == unknown_steam_id()
    ||| b.len() <= 8
    ||| (is_char_boundary(b, 4) && is_char_boundary(b, b.len() - 4))
}

/// A Steam ID as logs show it: the unknown ID as it is, an ID of at most eight
/// bytes as `***`, and any other as its first four bytes, `...` and its last four.
pub open spec fn spec_mask_id(id: Seq<char>) -> Seq<char> {
    let b = encode_utf8(id);
    if id == unknown_steam_id() {
        id
    } else if b.len() <= 8 {
        "***"@
    } else {
        decode_utf8(b.subrange(0, 4)) + "..."@ + decode_utf8(b.subrange(b.len() - 4, b.len() as int))
    }
}

/// The store of play records of one Steam account.
pub struct RecordDB {
    db_path: String,
    steam_id: String,
    pub is_ready: bool,
}

impl RecordDB {
    /// The Steam ID the records are filed under.
    pub closed spec fn steam_id(&self) -> Seq<char> {
        self.steam_id@
    }

    /// The path of the database file.
    pub closed spec fn path(&self) -> Seq<char> {
        self.db_path@
    }

    /// The public flag `is_ready`: the database was opened and its tables made.
    pub closed spec fn ready(&self) -> bool {
        self.is_ready
    }

    /// A store at `db_path` for the account `steam_id`, not yet opened.
    pub fn new(db_path: &str, steam_id: Option<&str>) -> (res: Self)
        ensures
            res.path() == db_path@,
            res.steam_id() == spec_normalize_steam_id(
                match steam_id {
                    Some(s) => Some(s@),
                    None => None,
                },
            ),
            !res.ready(),
    {
        RecordDB {
            db_path: String::from_str(db_path),
            steam_id: Self::normalize_steam_id(steam_id),
            is_ready: false,
        }
    }

    fn normalize_steam_id(steam_id: Option<&str>) -> (res: String)
        ensures
            res@ == spec_normalize_steam_id(
                match steam_id {
                    Some(s) => Some(s@),
                    None => None,
                },
            ),
    {
        match steam_id {
            Some(s) => {
                let t = trim_chars(&chars_of(s));
                if t.len() > 0 {
                    string_from_chars(&t)
                } else {
                    String::from_str("__unknown__")
                }
            },
            None => String::from_str("__unknown__"),
        }
    }

    /// The path of the database file.
    pub fn db_path(&self) -> (res: &str)
        ensures
            res@ == self.path(),
    {
        self.db_path.as_str()
    }

    /// The current Steam ID, masked for logs.
    pub fn masked_steam_id(&self) -> (res: String)
        requires
            maskable(self.steam_id()),
        ensures
            res@ == spec_mask_id(self.steam_id()),
    {
        let id = self.get_steam_id();
        self.mask_id(id.as_str())
    }

    fn mask_id(&self, steam_id: &str) -> (res: String)
        requires
            maskable(steam_id@),
        ensures
            res@ == spec_mask_id(steam_id@),
    {
        if str_eq(steam_id, "__unknown__") {
            return String::from_str(steam_id);
        }
        let n = steam_id.as_bytes().len();
        if n <= 8 {
            return String::from_str("***");
        }
        let (head, _) = steam_id.split_at(4);
        let (_, tail) = steam_id.split_at(n - 4);
        let mut out = String::from_str(head);
        out.append("...");
        out.append(tail);
        proof {
            let b = steam_id.spec_bytes();
            assert(encode_utf8(head@) == b.subrange(0, 4));
            assert(encode_utf8(tail@) == b.subrange(n - 4, b.len() as int));
            assert(head@ == decode_utf8(encode_utf8(head@)));
            assert(tail@ == decode_utf8(encode_utf8(tail@)));
        }
        out
    }

    /// Files the records under another Steam ID. Returns whether it changed, and
    /// the old and the new ID masked for logs.
    pub fn set_steam_id(&mut self, steam_id: Option<&str>) -> (res: (bool, String, String))
        requires
            maskable(old(self).steam_id()),
            maskable(
                spec_normalize_steam_id(
                    match steam_id {
                        Some(s) => Some(s@),
                        None => None,
                    },
                ),
            ),
        ensures
            final(self).steam_id() == spec_normalize_steam_id(
                match steam_id {
                    Some(s) => Some(s@),
                    None => None,
                },
            ),
            final(self).path() == old(self).path(),
            final(self).ready() == old(self).ready(),
            res.0 == (old(self).steam_id() != final(self).steam_id()),
            res.1@ == spec_mask_id(old(self).steam_id()),
            res.2@ == spec_mask_id(final(self).steam_id()),
    {
        let new_sid = Self::normalize_steam_id(steam_id);
        let old_sid = self.steam_id.clone();
        let changed = !str_eq(old_sid.as_str(), new_sid.as_str());
        self.steam_id = new_sid.clone();
        (changed, self.mask_id(old_sid.as_str()), self.mask_id(new_sid.as_str()))
    }

    /// The current Steam ID.
    pub fn get_steam_id(&self) -> (res: String)
        ensures
            res@ == self.steam_id(),
    {
        self.steam_id.clone()
    }
}


/// A chart's key as the record store files it: song, button mode, difficulty.
pub type RecordKey = (i32, String, String);

/// A record key taken by the views of its texts.
pub open spec fn key_view(k: RecordKey) -> (i32, Seq<char>, Seq<char>) {
    (k.0, k.1@, k.2@)
}

/// The keys of `v`, as a set.
pub open spec fn key_set(v: Seq<RecordKey>) -> Set<(i32, Seq<char>, Seq<char>)> {
    Set::new(|k: (i32, Seq<char>, Seq<char>)| exists|i: int| 0 <= i < v.len() && key_view(#[trigger] v[i]) == k)
}

/// No key occurs twice in `v`.
pub open spec fn keys_distinct(v: Seq<RecordKey>) -> bool {
    forall|i: int, j: int| 0 <= i < j < v.len() ==> key_view(#[trigger] v[i]) != key_view(#[trigger] v[j])
}

/// The revision after one more change; it wraps around at the end of `u64`.
pub open spec fn next_revision(r: u64) -> u64 {
    if r == u64::MAX {
        0
    } else {
        (r + 1) as u64
    }
}

/// What changed in the record store since the record views last caught up: every
/// record (after a reload), or the keys of the charts changed one by one; and a
/// revision that counts the changes.
pub struct RecordChanges {
    full_dirty: bool,
    keys: Vec<RecordKey>,
    revision: u64,
}

impl RecordChanges {
    #[verifier::type_invariant]
    spec fn keys_once(self) -> bool {
        keys_distinct(self.keys@)
    }

    /// Every record is to be read again.
    pub closed spec fn all_dirty(self) -> bool {
        self.full_dirty
    }

    /// The charts changed one by one.
    pub closed spec fn dirty_keys(self) -> Set<(i32, Seq<char>, Seq<char>)> {
        key_set(self.keys@)
    }

    /// The number of changes so far, wrapping around.
    pub closed spec fn revision(self) -> u64 {
        self.revision
    }

    /// A store never read: every record is to be read.
    pub fn new() -> (res: Self)
        ensures
            res.all_dirty(),
            res.dirty_keys() == Set::<(i32, Seq<char>, Seq<char>)>::empty(),
            res.revision() == 0,
    {
        let res = RecordChanges { full_dirty: true, keys: Vec::new(), revision: 0 };
        assert(res.dirty_keys() =~= Set::<(i32, Seq<char>, Seq<char>)>::empty());
        res
    }

    /// The records were reloaded: every record is to be read again, and the keys
    /// noted one by one are forgotten.
    pub fn refresh(&mut self)
        ensures
            final(self).all_dirty(),
            final(self).dirty_keys() == Set::<(i32, Seq<char>, Seq<char>)>::empty(),
            final(self).revision() == next_revision(old(self).revision()),
    {
        proof {
            use_type_invariant(&*self);
        }
        self.full_dirty = true;
        self.keys = Vec::new();
        self.revision = if self.revision == u64::MAX { 0 } else { self.revision + 1 };
        assert(key_set(self.keys@) =~= Set::<(i32, Seq<char>, Seq<char>)>::empty());
    }

    /// The record of one chart was written or deleted.
    pub fn note_change(&mut self, song_id: i32, button_mode: &str, difficulty: &str)
        ensures
            final(self).all_dirty() == old(self).all_dirty(),
            final(self).dirty_keys() == old(self).dirty_keys().insert((song_id, button_mode@, difficulty@)),
            final(self).revision() == next_revision(old(self).revision()),
    {
        proof {
            use_type_invariant(&*self);
        }
        let ghost k = (song_id, button_mode@, difficulty@);
        let mut found = false;
        let mut i: usize = 0;
        while i < self.keys.len()
            invariant
                i <= self.keys@.len(),
                k == (song_id, button_mode@, difficulty@),
                !found ==> forall|j: int| 0 <= j < i ==> key_view(#[trigger] self.keys@[j]) != k,
                found ==> key_set(self.keys@).contains(k),
            decreases self.keys@.len() - i,
        {
            let e = &self.keys[i];
            if e.0 == song_id && str_eq(e.1.as_str(), button_mode) && str_eq(e.2.as_str(), difficulty) {
                assert(key_view(self.keys@[i as int]) == k);
                found = true;
            }
            i += 1;
        }
        let ghost before = self.keys@;
        if !found {
            let mut keys: Vec<RecordKey> = Vec::new();
            std::mem::swap(&mut keys, &mut self.keys);
            keys.push((song_id, String::from_str(button_mode), String::from_str(difficulty)));
            proof {
                assert(keys@.drop_last() == before);
                assert forall|a: int, b: int| 0 <= a < b < keys@.len() implies key_view(#[trigger] keys@[a]) != key_view(#[trigger] keys@[b]) by {
                    if b == keys@.len() - 1 {
                        assert(keys@[a] == before[a]);
                    } else {
                        assert(keys@[a] == before[a]);
                        assert(keys@[b] == before[b]);
                    }
                }
                assert forall|x: (i32, Seq<char>, Seq<char>)| key_set(keys@).contains(x) == key_set(before).insert(k).contains(x) by {
                    if key_set(before).contains(x) {
                        let j = choose|j: int| 0 <= j < before.len() && key_view(#[trigger] before[j]) == x;
                        assert(keys@[j] == before[j]);
                    }
                    if x == k {
                        assert(key_view(keys@[before.len() as int]) == k);
                    }
                    if key_set(keys@).contains(x) {
                        let j = choose|j: int| 0 <= j < keys@.len() && key_view(#[trigger] keys@[j]) == x;
                        if j < before.len() {
                            assert(keys@[j] == before[j]);
                        }
                    }
                }
                assert(key_set(keys@) =~= key_set(before).insert(k));
            }
            self.keys = keys;
        } else {
            assert(key_set(before).insert(k) =~= key_set(before));
        }
        self.revision = if self.revision == u64::MAX { 0 } else { self.revision + 1 };
    }

    /// The number of changes so far.
    pub fn data_revision(&self) -> (res: u64)
        ensures
            res == self.revision(),
    {
        self.revision
    }

    /// Hands out what changed since the last call, each key once, and forgets it.
    pub fn consume_dirty_info(&mut self) -> (res: (bool, Vec<RecordKey>))
        ensures
            res.0 == old(self).all_dirty(),
            key_set(res.1@) == old(self).dirty_keys(),
            keys_distinct(res.1@),
            !final(self).all_dirty(),
            final(self).dirty_keys() == Set::<(i32, Seq<char>, Seq<char>)>::empty(),
            final(self).revision() == old(self).revision(),
    {
        proof {
            use_type_invariant(&*self);
        }
        let full = self.full_dirty;
        self.full_dirty = false;
        let mut keys: Vec<RecordKey> = Vec::new();
        std::mem::swap(&mut keys, &mut self.keys);
        assert(key_set(self.keys@) =~= Set::<(i32, Seq<char>, Seq<char>)>::empty());
        (full, keys)
    }
}

} // verus!
