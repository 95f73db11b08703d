use vstd::prelude::*;
use crate::text::{
    chars_of, contains_chars, contains_seq, remove_whitespace, spec_to_lowercase,
    string_from_chars, to_lowercase, trim_chars, trimmed, without_white_space,
};
use crate::numbers::{decimal_text, int_text};
use crate::text::str_eq;
use crate::varchive::{category_matches_dlc, spec_category_matches_dlc, Dlc};
use crate::text::{split_fields, split_on};
use vstd::utf8::encode_utf8;
use crate::json::JsonValue;

verus! {

/// One chart of a song in `songs.json`.
#[derive(Clone, Debug)]
pub struct PatternInfo {
    pub level: Option<u32>,
    /// The floor as written in `songs.json` (a decimal number), if any.
    pub floor: Option<String>,
    pub floor_name: Option<String>,
    pub rating: Option<u32>,
}

/// What a chart holds, as values.
pub struct PatternInfoView {
    pub level: Option<u32>,
    pub floor: Option<Seq<char>>,
    pub floor_name: Option<Seq<char>>,
    pub rating: Option<u32>,
}

/// The characters of an optional string.
pub open spec fn opt_text(o: Option<String>) -> Option<Seq<char>> {
    match o {
        Some(s) => Some(s@),
        None => None,
    }
}

impl View for PatternInfo {
    type V = PatternInfoView;

    open spec fn view(&self) -> PatternInfoView {
        PatternInfoView {
            level: self.level,
            floor: opt_text(self.floor),
            floor_name: opt_text(self.floor_name),
            rating: self.rating,
        }
    }
}

fn copy_text(o: &Option<String>) -> (res: Option<String>)
    ensures
        opt_text(res) == opt_text(*o),
{
    match o {
        Some(s) => Some(s.clone()),
        None => None,
    }
}

impl PatternInfo {
    /// A copy of the chart.
    pub fn duplicate(&self) -> (res: Self)
        ensures
            res@ == self@,
    {
        PatternInfo {
            level: self.level,
            floor: copy_text(&self.floor),
            floor_name: copy_text(&self.floor_name),
            rating: self.rating,
        }
    }
}

/// The charts of one button mode: each difficulty with its chart.
pub type ModeCharts = Vec<(String, PatternInfo)>;

/// A song of V-Archive's `songs.json`. `title` holds the song id.
#[derive(Clone, Debug)]
pub struct Song {
    pub title: String,
    pub name: String,
    pub composer: String,
    pub dlc_code: String,
    /// Each button mode with its charts.
    pub patterns: Vec<(String, ModeCharts)>,
}

/// What a song holds, as values.
pub struct SongView {
    pub title: Seq<char>,
    pub name: Seq<char>,
    pub composer: Seq<char>,
    pub dlc_code: Seq<char>,
    pub patterns: Seq<(Seq<char>, Seq<(Seq<char>, PatternInfoView)>)>,
}

/// The view of the charts of one mode.
pub open spec fn charts_view(c: Seq<(String, PatternInfo)>) -> Seq<(Seq<char>, PatternInfoView)> {
    c.map_values(|e: (String, PatternInfo)| (e.0@, e.1@))
}

/// The view of the charts of every mode.
pub open spec fn patterns_view(p: Seq<(String, ModeCharts)>) -> Seq<
    (Seq<char>, Seq<(Seq<char>, PatternInfoView)>),
> {
    p.map_values(|e: (String, ModeCharts)| (e.0@, charts_view(e.1@)))
}

impl View for Song {
    type V = SongView;

    open spec fn view(&self) -> SongView {
        SongView {
            title: self.title@,
            name: self.name@,
            composer: self.composer@,
            dlc_code: self.dlc_code@,
            patterns: patterns_view(self.patterns@),
        }
    }
}

fn copy_charts(c: &ModeCharts) -> (res: ModeCharts)
    ensures
        charts_view(res@) == charts_view(c@),
{
    let mut out: ModeCharts = Vec::new();
    let mut i: usize = 0;
    while i < c.len()
        invariant
            i <= c@.len(),
            charts_view(out@) == charts_view(c@.subrange(0, i as int)),
        decreases c@.len() - i,
    {
        let e = (c[i].0.clone(), c[i].1.duplicate());
        out.push(e);
        assert(charts_view(c@.subrange(0, i + 1)) =~= charts_view(c@.subrange(0, i as int)).push(
            (c@[i as int].0@, c@[i as int].1@),
        ));
        i += 1;
    }
    assert(c@.subrange(0, c@.len() as int) == c@);
    out
}

impl Song {
    /// A copy of the song.
    pub fn duplicate(&self) -> (res: Self)
        ensures
            res@ == self@,
    {
        let mut patterns: Vec<(String, ModeCharts)> = Vec::new();
        let mut i: usize = 0;
        while i < self.patterns.len()
            invariant
                i <= self.patterns@.len(),
                patterns_view(patterns@) == patterns_view(self.patterns@.subrange(0, i as int)),
            decreases self.patterns@.len() - i,
        {
            let e = (self.patterns[i].0.clone(), copy_charts(&self.patterns[i].1));
            patterns.push(e);
            assert(patterns_view(self.patterns@.subrange(0, i + 1)) =~= patterns_view(
                self.patterns@.subrange(0, i as int),
            ).push((self.patterns@[i as int].0@, charts_view(self.patterns@[i as int].1@))));
            i += 1;
        }
        assert(self.patterns@.subrange(0, self.patterns@.len() as int) == self.patterns@);
        Song {
            title: self.title.clone(),
            name: self.name.clone(),
            composer: self.composer.clone(),
            dlc_code: self.dlc_code.clone(),
            patterns,
        }
    }
}

/// The views of a list of songs.
pub open spec fn songs_view(s: Seq<Song>) -> Seq<SongView> {
    s.map_values(|x: Song| x@)
}

/// The Damerau–Levenshtein distance between two strings, counted in characters,
/// as `strsim::damerau_levenshtein` computes it.
pub uninterp spec fn spec_damerau_levenshtein(a: Seq<char>, b: Seq<char>) -> nat;

/// `strsim::damerau_levenshtein`. Its result is named by `spec_damerau_levenshtein`;
/// beyond that, it is claimed to be at most the length of the longer string, which
/// the crate documents as the normalized score lying between 0 and 1.
#[verifier::external_body]
fn damerau_levenshtein(a: &str, b: &str) -> (res: usize)
    ensures
        res == spec_damerau_levenshtein(a@, b@),
        res <= if a@.len() >= b@.len() { a@.len() } else { b@.len() },
{
    strsim::damerau_levenshtein(a, b)
}

/// The normalized Damerau–Levenshtein similarity of two strings as a fraction
/// (numerator, positive denominator): 1 for two empty strings, otherwise
/// `1 - distance / longer length`.
pub open spec fn similarity(a: Seq<char>, b: Seq<char>) -> (int, int) {
    if a.len() == 0 && b.len() == 0 {
        (1, 1)
    } else {
        let m = if a.len() >= b.len() { a.len() as int } else { b.len() as int };
        (m - spec_damerau_levenshtein(a, b), m)
    }
}

/// The fraction `x` is greater than the fraction `y` (both denominators positive).
pub open spec fn ratio_gt(x: (int, int), y: (int, int)) -> bool {
    x.0 * y.1 > y.0 * x.1
}

/// The similarity of `a` and `b`, with `0 <= numerator <= denominator`.
fn similarity_of(a: &Vec<char>, b: &Vec<char>) -> (res: (u128, u128))
    ensures
        res.0 == similarity(a@, b@).0,
        res.1 == similarity(a@, b@).1,
        0 < res.1 <= usize::MAX,
        res.0 <= res.1,
{
    if a.len() == 0 && b.len() == 0 {
        return (1, 1);
    }
    let sa = string_from_chars(a);
    let sb = string_from_chars(b);
    let d = damerau_levenshtein(sa.as_str(), sb.as_str());
    let m: usize = if a.len() >= b.len() { a.len() } else { b.len() };
    ((m - d) as u128, m as u128)
}

/// A fraction as scores are kept: a similarity (numerator at most the
/// denominator) or one of the small fixed scores.
pub open spec fn bounded_ratio(x: (u128, u128)) -> bool {
    &&& 0 < x.1 <= usize::MAX
    &&& (x.0 <= x.1 || (x.1 <= 2 && x.0 <= 4))
}

proof fn lemma_ratio_product(x: (u128, u128), y: (u128, u128))
    requires
        bounded_ratio(x),
        bounded_ratio(y),
    ensures
        x.0 * y.1 <= u128::MAX,
{
    assert(usize::MAX * usize::MAX <= u128::MAX) by (nonlinear_arith)
        requires
            usize::MAX <= u64::MAX,
    ;
    if x.0 <= x.1 {
        assert(x.0 * y.1 <= usize::MAX * usize::MAX) by (nonlinear_arith)
            requires
                x.0 <= x.1,
                x.1 <= usize::MAX,
                y.1 <= usize::MAX,
        ;
    } else {
        assert(x.0 * y.1 <= 4 * usize::MAX) by (nonlinear_arith)
            requires
                x.0 <= 4,
                y.1 <= usize::MAX,
        ;
    }
}

/// Whether the fraction `x` is greater than `y`.
fn ratio_greater(x: (u128, u128), y: (u128, u128)) -> (res: bool)
    requires
        bounded_ratio(x),
        bounded_ratio(y),
    ensures
        res == ratio_gt((x.0 as int, x.1 as int), (y.0 as int, y.1 as int)),
{
    proof {
        lemma_ratio_product(x, y);
        lemma_ratio_product(y, x);
    }
    x.0 * y.1 > y.0 * x.1
}

/// A title as the index keys it: lower-cased, without leading and trailing
/// white space.
pub open spec fn title_key(s: Seq<char>) -> Seq<char> {
    trimmed(spec_to_lowercase(s))
}

fn title_key_of(s: &str) -> (res: Vec<char>)
    ensures
        res@ == title_key(s@),
{
    let lower = to_lowercase(s);
    trim_chars(&chars_of(lower.as_str()))
}

/// A character with its common variant replaced: `腦` becomes `脳`, `擊` becomes `撃`.
pub open spec fn fold_variant(c: char) -> char {
    if c == '腦' {
        '脳'
    } else if c == '擊' {
        '撃'
    } else {
        c
    }
}

/// A text as titles and composers are compared: lower-cased, with the common
/// variants of two characters folded, without white space.
pub open spec fn normalized_text(s: Seq<char>) -> Seq<char> {
    without_white_space(spec_to_lowercase(s).map_values(|c: char| fold_variant(c)))
}

fn normalize_text(s: &str) -> (res: Vec<char>)
    ensures
        res@ == normalized_text(s@),
{
    let lower = chars_of(to_lowercase(s).as_str());
    let mut folded: Vec<char> = Vec::new();
    let mut i: usize = 0;
    while i < lower.len()
        invariant
            i <= lower@.len(),
            folded@ == lower@.subrange(0, i as int).map_values(|c: char| fold_variant(c)),
        decreases lower@.len() - i,
    {
        let c = lower[i];
        let f = if c == '腦' {
            '脳'
        } else if c == '擊' {
            '撃'
        } else {
            c
        };
        folded.push(f);
        assert(lower@.subrange(0, i + 1).map_values(|c: char| fold_variant(c))
            =~= lower@.subrange(0, i as int).map_values(|c: char| fold_variant(c)).push(f));
        i += 1;
    }
    assert(lower@.subrange(0, lower@.len() as int) == lower@);
    remove_whitespace(&folded)
}

/// The position of the first of `keys` equal to `key`, or -1.
pub open spec fn first_position(keys: Seq<Seq<char>>, key: Seq<char>) -> int
    decreases keys.len(),
{
    if keys.len() == 0 {
        -1
    } else if keys[0] == key {
        0
    } else {
        let p = first_position(keys.drop_first(), key);
        if p < 0 {
            -1
        } else {
            p + 1
        }
    }
}

proof fn lemma_first_position_found(keys: Seq<Seq<char>>, key: Seq<char>, i: int)
    requires
        0 <= i < keys.len(),
        keys[i] == key,
        forall|j: int| 0 <= j < i ==> keys[j] != key,
    ensures
        first_position(keys, key) == i,
    decreases i,
{
    if i > 0 {
        assert(keys[0] != key);
        assert forall|j: int| 0 <= j < i - 1 implies keys.drop_first()[j] != key by {
            assert(keys.drop_first()[j] == keys[j + 1]);
        }
        lemma_first_position_found(keys.drop_first(), key, i - 1);
    }
}

proof fn lemma_first_position_absent(keys: Seq<Seq<char>>, key: Seq<char>)
    requires
        forall|j: int| 0 <= j < keys.len() ==> keys[j] != key,
    ensures
        first_position(keys, key) == -1,
    decreases keys.len(),
{
    if keys.len() > 0 {
        assert(keys[0] != key);
        assert forall|j: int| 0 <= j < keys.len() - 1 implies keys.drop_first()[j] != key by {
            assert(keys.drop_first()[j] == keys[j + 1]);
        }
        lemma_first_position_absent(keys.drop_first(), key);
    }
}

proof fn lemma_first_position_range(keys: Seq<Seq<char>>, key: Seq<char>)
    ensures
        -1 <= first_position(keys, key) < keys.len(),
        first_position(keys, key) >= 0 ==> keys[first_position(keys, key)] == key,
        first_position(keys, key) == -1 ==> forall|j: int| 0 <= j < keys.len() ==> keys[j] != key,
    decreases keys.len(),
{
    if keys.len() > 0 && keys[0] != key {
        lemma_first_position_range(keys.drop_first(), key);
        if first_position(keys, key) == -1 {
            assert forall|j: int| 0 <= j < keys.len() implies keys[j] != key by {
                if j > 0 {
                    assert(keys[j] == keys.drop_first()[j - 1]);
                }
            }
        }
    }
}

/// The title index as values: each key with the songs that have it.
pub type TitleIndexView = Seq<(Seq<char>, Seq<SongView>)>;

/// The keys of a title index, in order.
pub open spec fn index_keys(index: TitleIndexView) -> Seq<Seq<char>> {
    index.map_values(|g: (Seq<char>, Seq<SongView>)| g.0)
}

/// `index` with `song` filed under `key`: appended to the songs of that key, or
/// under a new key at the end.
pub open spec fn add_song(index: TitleIndexView, key: Seq<char>, song: SongView) -> TitleIndexView {
    let p = first_position(index_keys(index), key);
    if p >= 0 {
        index.update(p, (key, index[p].1.push(song)))
    } else {
        index.push((key, seq![song]))
    }
}

/// The title index of `songs`: songs grouped by `title_key` of their names,
/// keys in order of first appearance, songs of a key in their order.
pub open spec fn title_index(songs: Seq<SongView>) -> TitleIndexView
    decreases songs.len(),
{
    if songs.len() == 0 {
        Seq::empty()
    } else {
        add_song(title_index(songs.drop_last()), title_key(songs.last().name), songs.last())
    }
}

/// Every group of `title_index(songs)` holds at least one song, every song of a
/// group has the group's key, and the key of every song is among the keys.
proof fn lemma_title_index_shape(songs: Seq<SongView>)
    ensures
        forall|g: int|
            0 <= g < title_index(songs).len() ==> #[trigger] title_index(songs)[g].1.len() > 0,
        forall|g: int, k: int|
            0 <= g < title_index(songs).len() && 0 <= k < title_index(songs)[g].1.len() ==> title_key(
                #[trigger] title_index(songs)[g].1[k].name,
            ) == title_index(songs)[g].0,
        forall|i: int|
            0 <= i < songs.len() ==> index_keys(title_index(songs)).contains(
                title_key(#[trigger] songs[i].name),
            ),
    decreases songs.len(),
{
    if songs.len() > 0 {
        let prev = songs.drop_last();
        lemma_title_index_shape(prev);
        let idx = title_index(prev);
        let key = title_key(songs.last().name);
        let keys = index_keys(idx);
        lemma_first_position_range(keys, key);
        let p = first_position(keys, key);
        let next = title_index(songs);
        assert(next == add_song(idx, key, songs.last()));
        assert forall|g: int| 0 <= g < next.len() implies #[trigger] next[g].1.len() > 0 by {
            if g < idx.len() {
                assert(idx[g].1.len() > 0);
            }
        }
        assert forall|g: int, k: int|
            0 <= g < next.len() && 0 <= k < next[g].1.len() implies title_key(
                #[trigger] next[g].1[k].name,
            ) == next[g].0 by {
            if g == p && k == idx[g].1.len() {
            } else if g < idx.len() {
                assert(next[g].1[k] == idx[g].1[k]);
                assert(keys[g] == idx[g].0);
            }
        }
        assert forall|i: int| 0 <= i < songs.len() implies index_keys(next).contains(
            title_key(#[trigger] songs[i].name),
        ) by {
            if i == songs.len() - 1 {
                if p >= 0 {
                    assert(index_keys(next)[p] == key);
                } else {
                    assert(index_keys(next)[idx.len() as int] == key);
                }
            } else {
                assert(songs[i] == prev[i]);
                let j = choose|j: int| 0 <= j < keys.len() && keys[j] == title_key(prev[i].name);
                assert(index_keys(next)[j] == keys[j]);
            }
        }
    }
}

/// Once the index is built from `songs`, each of them is found by its own name:
/// `find_exact` with that name and no composer gives a song with the same key.
pub proof fn lemma_song_found_by_own_name(songs: Seq<SongView>, i: int)
    requires
        0 <= i < songs.len(),
    ensures
        exact_match(title_index(songs), songs[i].name, Seq::empty()) matches Some(s) && title_key(
            s.name,
        ) == title_key(songs[i].name),
{
    lemma_title_index_shape(songs);
    let idx = title_index(songs);
    let key = title_key(songs[i].name);
    let keys = index_keys(idx);
    assert(keys.contains(key));
    lemma_first_position_range(keys, key);
    let p = first_position(keys, key);
    assert(p >= 0);
    assert(idx[p].1.len() > 0);
    assert(title_key(idx[p].1[0].name) == idx[p].0);
}

proof fn lemma_composer_pick_member(songs: Seq<SongView>, composer: Seq<char>)
    ensures
        composer_pick(songs, composer) matches Some(s) ==> exists|k: int|
            0 <= k < songs.len() && songs[k] == s,
{
    if songs.len() > 0 && composer.len() > 0 && normalized_text(composer).len() > 0 {
        let scores = composer_scores(songs, normalized_text(composer));
        lemma_first_best_range(scores);
        let k = first_best(scores);
        assert(0 <= k < songs.len() && songs[k] == songs[k]);
    } else if songs.len() > 0 {
        assert(songs[0] == songs[0]);
    }
}

proof fn lemma_fuzzy_pick_reaches(query: Seq<char>, keys: Seq<Seq<char>>, threshold: int)
    ensures
        fuzzy_pick(query, keys, threshold) matches Some(p) ==> 0 <= p < keys.len()
            && reaches_threshold(similarity(query, keys[p]), threshold),
    decreases keys.len(),
{
    if keys.len() > 0 {
        lemma_fuzzy_pick_reaches(query, keys.drop_last(), threshold);
    }
}

/// `find_exact` on an index built from `songs` gives only a song whose title key is
/// the key of the title asked for.
pub proof fn lemma_exact_match_has_the_title(
    songs: Seq<SongView>,
    title: Seq<char>,
    composer: Seq<char>,
)
    ensures
        exact_match(title_index(songs), title, composer) matches Some(s) ==> title_key(s.name)
            == title_key(title),
{
    let idx = title_index(songs);
    let keys = index_keys(idx);
    lemma_title_index_shape(songs);
    lemma_first_position_range(keys, title_key(title));
    let p = first_position(keys, title_key(title));
    if p >= 0 {
        lemma_composer_pick_member(idx[p].1, composer);
        if let Some(s) = composer_pick(idx[p].1, composer) {
            let k = choose|k: int| 0 <= k < idx[p].1.len() && idx[p].1[k] == s;
            assert(title_key(idx[p].1[k].name) == idx[p].0);
        }
    }
}

/// `find_fuzzy` on an index built from `songs` gives only a song whose title key is
/// at least `threshold` percent similar to the key of the title asked for.
pub proof fn lemma_fuzzy_match_reaches_threshold(
    songs: Seq<SongView>,
    title: Seq<char>,
    composer: Seq<char>,
    threshold: int,
)
    ensures
        fuzzy_match(title_index(songs), title, composer, threshold) matches Some(s) ==> reaches_threshold(
            similarity(title_key(title), title_key(s.name)),
            threshold,
        ),
{
    let idx = title_index(songs);
    let keys = index_keys(idx);
    lemma_title_index_shape(songs);
    lemma_fuzzy_pick_reaches(title_key(title), keys, threshold);
    if let Some(p) = fuzzy_pick(title_key(title), keys, threshold) {
        lemma_composer_pick_member(idx[p].1, composer);
        if let Some(s) = composer_pick(idx[p].1, composer) {
            let k = choose|k: int| 0 <= k < idx[p].1.len() && idx[p].1[k] == s;
            assert(title_key(idx[p].1[k].name) == idx[p].0);
            assert(keys[p] == idx[p].0);
        }
    }
}

/// The views of the groups of an index.
pub open spec fn groups_view(g: Seq<(String, Vec<Song>)>) -> TitleIndexView {
    g.map_values(|e: (String, Vec<Song>)| (e.0@, songs_view(e.1@)))
}

/// The views of an optional song.
pub open spec fn opt_song(o: Option<Song>) -> Option<SongView> {
    match o {
        Some(s) => Some(s@),
        None => None,
    }
}

/// How well a composer `c` matches the query `q`, as a fraction: 2 when they are
/// equal, 3/2 when one contains the other, otherwise their similarity (all scaled
/// by 1/100).
pub open spec fn composer_score(q: Seq<char>, c: Seq<char>) -> (int, int) {
    if q == c {
        (2, 1)
    } else if q.len() > 0 && c.len() > 0 && (contains_seq(c, q) || contains_seq(q, c)) {
        (3, 2)
    } else {
        similarity(q, c)
    }
}

/// The scores of the composers of `songs` against the query `q`.
pub open spec fn composer_scores(songs: Seq<SongView>, q: Seq<char>) -> Seq<(int, int)> {
    songs.map_values(|s: SongView| composer_score(q, normalized_text(s.composer)))
}

/// The position of the first of the highest scores (0 for fewer than two).
pub open spec fn first_best(scores: Seq<(int, int)>) -> int
    decreases scores.len(),
{
    if scores.len() <= 1 {
        0
    } else {
        let b = first_best(scores.drop_last());
        if ratio_gt(scores.last(), scores[b]) {
            scores.len() - 1
        } else {
            b
        }
    }
}

proof fn lemma_first_best_range(scores: Seq<(int, int)>)
    requires
        scores.len() >= 1,
    ensures
        0 <= first_best(scores) < scores.len(),
    decreases scores.len(),
{
    if scores.len() > 1 {
        lemma_first_best_range(scores.drop_last());
    }
}

/// Which of `songs` a composer picks: none of no songs, the first when the
/// composer is empty (or normalizes to nothing), otherwise the first song whose
/// composer scores highest.
pub open spec fn composer_pick(songs: Seq<SongView>, composer: Seq<char>) -> Option<SongView> {
    if songs.len() == 0 {
        None
    } else if composer.len() == 0 {
        Some(songs[0])
    } else {
        let q = normalized_text(composer);
        if q.len() == 0 {
            Some(songs[0])
        } else {
            Some(songs[first_best(composer_scores(songs, q))])
        }
    }
}

fn composer_score_of(q: &Vec<char>, c: &Vec<char>) -> (res: (u128, u128))
    ensures
        res.0 == composer_score(q@, c@).0,
        res.1 == composer_score(q@, c@).1,
        bounded_ratio(res),
{
    let qs = string_from_chars(q);
    let cs = string_from_chars(c);
    if str_eq(qs.as_str(), cs.as_str()) {
        (2, 1)
    } else if q.len() > 0 && c.len() > 0 && (contains_chars(c, q) || contains_chars(q, c)) {
        (3, 2)
    } else {
        similarity_of(q, c)
    }
}

fn pick_by_composer(songs: &Vec<Song>, composer: &str) -> (res: Option<Song>)
    ensures
        opt_song(res) == composer_pick(songs_view(songs@), composer@),
{
    if songs.len() == 0 {
        return None;
    }
    if composer.is_empty() {
        return Some(songs[0].duplicate());
    }
    let q = normalize_text(composer);
    if q.len() == 0 {
        return Some(songs[0].duplicate());
    }
    let ghost scores = composer_scores(songs_view(songs@), q@);
    let mut best: usize = 0;
    let mut best_score = composer_score_of(&q, &normalize_text(songs[0].composer.as_str()));
    assert(scores.take(1).len() == 1);
    let mut i: usize = 1;
    while i < songs.len()
        invariant
            1 <= i <= songs@.len(),
            scores == composer_scores(songs_view(songs@), q@),
            best < i,
            best == first_best(scores.take(i as int)),
            best_score.0 == scores[best as int].0,
            best_score.1 == scores[best as int].1,
            bounded_ratio(best_score),
        decreases songs@.len() - i,
    {
        let s = composer_score_of(&q, &normalize_text(songs[i].composer.as_str()));
        assert(scores.take(i + 1).drop_last() =~= scores.take(i as int));
        assert(scores.take(i + 1)[best as int] == scores[best as int]);
        if ratio_greater(s, best_score) {
            best = i;
            best_score = s;
        }
        i += 1;
    }
    assert(scores.take(songs@.len() as int) =~= scores);
    Some(songs[best].duplicate())
}

/// Whether the similarity `s` reaches `threshold` percent.
pub open spec fn reaches_threshold(s: (int, int), threshold: int) -> bool {
    100 * s.0 >= threshold * s.1
}

/// The position of the key most similar to `query` among those whose similarity
/// reaches `threshold` percent and is above zero: the first of the best, or none.
pub open spec fn fuzzy_pick(query: Seq<char>, keys: Seq<Seq<char>>, threshold: int) -> Option<int>
    decreases keys.len(),
{
    if keys.len() == 0 {
        None
    } else {
        let prev = fuzzy_pick(query, keys.drop_last(), threshold);
        let s = similarity(query, keys.last());
        let best = match prev {
            Some(p) => similarity(query, keys[p]),
            None => (0, 1),
        };
        if reaches_threshold(s, threshold) && ratio_gt(s, best) {
            Some(keys.len() - 1)
        } else {
            prev
        }
    }
}

/// What `find_exact` gives: the composer's pick among the songs filed under the
/// title's key, or none when the key is absent.
pub open spec fn exact_match(index: TitleIndexView, title: Seq<char>, composer: Seq<char>) -> Option<
    SongView,
> {
    let p = first_position(index_keys(index), title_key(title));
    if p >= 0 {
        composer_pick(index[p].1, composer)
    } else {
        None
    }
}

/// What `find_fuzzy` gives: the composer's pick among the songs of the key most
/// similar to the title's key, when one reaches the threshold.
pub open spec fn fuzzy_match(
    index: TitleIndexView,
    title: Seq<char>,
    composer: Seq<char>,
    threshold: int,
) -> Option<SongView> {
    match fuzzy_pick(title_key(title), index_keys(index), threshold) {
        Some(p) => composer_pick(index[p].1, composer),
        None => None,
    }
}

/// The titles (song ids) of `songs`.
pub open spec fn song_titles(songs: Seq<SongView>) -> Seq<Seq<char>> {
    songs.map_values(|s: SongView| s.title)
}

/// The first of `songs` whose id is the decimal text of `song_id`.
pub open spec fn song_with_id(songs: Seq<SongView>, song_id: int) -> Option<SongView> {
    let p = first_position(song_titles(songs), decimal_text(song_id));
    if p >= 0 {
        Some(songs[p])
    } else {
        None
    }
}

/// How well a song name matches the query title, both normalized: 100 when
/// equal, 80 when one begins with the other and both are at least five bytes
/// long (none when shorter), 50 when their similarity is at least 4/5, none
/// otherwise.
pub open spec fn title_score(q: Seq<char>, name: Seq<char>) -> Option<int> {
    if q == name {
        Some(100)
    } else if name.is_prefix_of(q) || q.is_prefix_of(name) {
        if encode_utf8(q).len() >= 5 && encode_utf8(name).len() >= 5 {
            Some(80)
        } else {
            None
        }
    } else {
        let s = similarity(q, name);
        if 5 * s.0 >= 4 * s.1 {
            Some(50)
        } else {
            None
        }
    }
}

/// The chart of a song for a mode and a difficulty, if it has one.
pub open spec fn chart_of(
    patterns: Seq<(Seq<char>, Seq<(Seq<char>, PatternInfoView)>)>,
    mode: Seq<char>,
    diff: Seq<char>,
) -> Option<PatternInfoView> {
    let mp = first_position(
        patterns.map_values(|m: (Seq<char>, Seq<(Seq<char>, PatternInfoView)>)| m.0),
        mode,
    );
    if mp < 0 {
        None
    } else {
        let charts = patterns[mp].1;
        let dp = first_position(charts.map_values(|c: (Seq<char>, PatternInfoView)| c.0), diff);
        if dp < 0 {
            None
        } else {
            Some(charts[dp].1)
        }
    }
}

/// The score of a song's chart: 50 when it has the chart, then 100 more when the
/// level asked for is the chart's, 50 less when it is another; 0 without the chart.
pub open spec fn chart_score(
    song: SongView,
    mode: Seq<char>,
    diff: Seq<char>,
    level: Option<u32>,
) -> int {
    match chart_of(song.patterns, mode, diff) {
        Some(p) => 50 + match level {
            Some(t) => if p.level == Some(t) {
                100
            } else {
                -50
            },
            None => 0,
        },
        None => 0,
    }
}

/// 150 when the note and the composer, both lower-cased and non-empty, contain one
/// another; 0 otherwise.
pub open spec fn note_score(note: Seq<char>, composer: Seq<char>) -> int {
    lowered_note_score(spec_to_lowercase(note), spec_to_lowercase(composer))
}

/// The note bonus for a lower-cased note and a lower-cased composer: both present
/// and one containing the other.
pub open spec fn lowered_note_score(n: Seq<char>, c: Seq<char>) -> int {
    if n.len() > 0 && c.len() > 0 && (contains_seq(n, c) || contains_seq(c, n)) {
        150
    } else {
        0
    }
}

/// The note bonus for the lower-cased note `note` and lower-cased composer
/// `composer`.
pub fn note_bonus(note: &str, composer: &str) -> (res: i64)
    ensures
        res == lowered_note_score(note@, composer@),
{
    let n = chars_of(note);
    let c = chars_of(composer);
    if n.len() > 0 && c.len() > 0 && (contains_chars(&n, &c) || contains_chars(&c, &n)) {
        150
    } else {
        0
    }
}

/// What a result screen tells of a song: its title, mode, difficulty, level,
/// category and note.
pub struct MatchQuery {
    pub title: Seq<char>,
    pub mode: Seq<char>,
    pub diff: Seq<char>,
    pub level: Option<u32>,
    pub category: Seq<char>,
    pub note: Seq<char>,
}

/// The score of a song against the query (whose title is normalized to `q`):
/// none when the titles do not match, otherwise the title score plus the chart
/// score, 80 when the category names the song's pack, and the note score.
pub open spec fn match_score(q: Seq<char>, query: MatchQuery, song: SongView, dlcs: Seq<Dlc>) -> Option<
    int,
> {
    match title_score(q, normalized_text(song.name)) {
        None => None,
        Some(t) => Some(
            t + chart_score(song, query.mode, query.diff, query.level) + (if spec_category_matches_dlc(
                query.category,
                song.dlc_code,
                dlcs,
            ) {
                80int
            } else {
                0int
            }) + note_score(query.note, song.composer),
        ),
    }
}

/// Among the first `n` songs, the first of those with the highest score above
/// -1000, with that score.
pub open spec fn best_scored(
    q: Seq<char>,
    query: MatchQuery,
    songs: Seq<SongView>,
    dlcs: Seq<Dlc>,
    n: int,
) -> Option<(int, int)>
    decreases n,
{
    if n <= 0 {
        None
    } else {
        let prev = best_scored(q, query, songs, dlcs, n - 1);
        match match_score(q, query, songs[n - 1], dlcs) {
            None => prev,
            Some(sc) => {
                let b = match prev {
                    Some(x) => x.1,
                    None => -1000,
                };
                if sc > b {
                    Some((n - 1, sc))
                } else {
                    prev
                }
            },
        }
    }
}

proof fn lemma_best_scored_range(
    q: Seq<char>,
    query: MatchQuery,
    songs: Seq<SongView>,
    dlcs: Seq<Dlc>,
    n: int,
)
    ensures
        best_scored(q, query, songs, dlcs, n) matches Some(x) ==> 0 <= x.0 < n && match_score(
            q,
            query,
            songs[x.0],
            dlcs,
        ) == Some(x.1),
    decreases n,
{
    if n > 0 {
        lemma_best_scored_range(q, query, songs, dlcs, n - 1);
    }
}

/// The best-scoring song for the query with its title as given, if any song's
/// title matches.
pub open spec fn best_match_for(query: MatchQuery, songs: Seq<SongView>, dlcs: Seq<Dlc>) -> Option<
    SongView,
> {
    let q = normalized_text(query.title);
    if q.len() == 0 {
        None
    } else {
        match best_scored(q, query, songs, dlcs, songs.len() as int) {
            Some(x) => Some(songs[x.0]),
            None => None,
        }
    }
}

/// What `find_best_match` gives: the best match of the whole title, else, for a
/// title with a `/`, the best match of its part before the first `/`.
pub open spec fn best_match(query: MatchQuery, songs: Seq<SongView>, dlcs: Seq<Dlc>) -> Option<
    SongView,
> {
    if songs.len() == 0 {
        None
    } else {
        match best_match_for(query, songs, dlcs) {
            Some(s) => Some(s),
            None => if query.title.contains('/') {
                best_match_for(
                    MatchQuery { title: split_fields(query.title, '/')[0], ..query },
                    songs,
                    dlcs,
                )
            } else {
                None
            },
        }
    }
}

fn is_prefix(a: &Vec<char>, b: &Vec<char>) -> (res: bool)
    ensures
        res == a@.is_prefix_of(b@),
{
    if a.len() > b.len() {
        return false;
    }
    let mut i: usize = 0;
    while i < a.len()
        invariant
            a@.len() <= b@.len(),
            i <= a@.len(),
            forall|j: int| 0 <= j < i ==> a@[j] == b@[j],
        decreases a@.len() - i,
    {
        if a[i] != b[i] {
            assert(b@.subrange(0, a@.len() as int)[i as int] == b@[i as int]);
            return false;
        }
        i += 1;
    }
    assert(a@ =~= b@.subrange(0, a@.len() as int));
    true
}

fn utf8_len(v: &Vec<char>) -> (res: usize)
    ensures
        res == encode_utf8(v@).len(),
{
    let s = string_from_chars(v);
    s.as_str().as_bytes().len()
}

fn title_score_of(q: &Vec<char>, name: &Vec<char>) -> (res: Option<i64>)
    ensures
        match title_score(q@, name@) {
            Some(t) => res == Some(t as i64),
            None => res is None,
        },
{
    let qs = string_from_chars(q);
    let ns = string_from_chars(name);
    if str_eq(qs.as_str(), ns.as_str()) {
        Some(100)
    } else if is_prefix(name, q) || is_prefix(q, name) {
        if utf8_len(q) >= 5 && utf8_len(name) >= 5 {
            Some(80)
        } else {
            None
        }
    } else {
        let s = similarity_of(q, name);
        if 5 * s.0 >= 4 * s.1 {
            Some(50)
        } else {
            None
        }
    }
}

fn chart_level(song: &Song, mode: &str, diff: &str) -> (res: Option<Option<u32>>)
    ensures
        match chart_of(song@.patterns, mode@, diff@) {
            Some(p) => res == Some(p.level),
            None => res is None,
        },
{
    let ghost pv = song@.patterns;
    let ghost mode_keys = pv.map_values(
        |m: (Seq<char>, Seq<(Seq<char>, PatternInfoView)>)| m.0,
    );
    let mut i: usize = 0;
    while i < song.patterns.len()
        invariant
            i <= song.patterns@.len(),
            pv == song@.patterns,
            pv.len() == song.patterns@.len(),
            mode_keys == pv.map_values(|m: (Seq<char>, Seq<(Seq<char>, PatternInfoView)>)| m.0),
            forall|j: int| 0 <= j < i ==> mode_keys[j] != mode@,
        decreases song.patterns@.len() - i,
    {
        if str_eq(song.patterns[i].0.as_str(), mode) {
            proof {
                lemma_first_position_found(mode_keys, mode@, i as int);
            }
            let charts = &song.patterns[i].1;
            let ghost cv = pv[i as int].1;
            let ghost diff_keys = cv.map_values(|c: (Seq<char>, PatternInfoView)| c.0);
            assert(cv == charts_view(charts@));
            let mut k: usize = 0;
            while k < charts.len()
                invariant
                    k <= charts@.len(),
                    pv == song@.patterns,
                    0 <= i < pv.len(),
                    cv == pv[i as int].1,
                    mode_keys == pv.map_values(
                        |m: (Seq<char>, Seq<(Seq<char>, PatternInfoView)>)| m.0,
                    ),
                    first_position(mode_keys, mode@) == i,
                    cv == charts_view(charts@),
                    cv.len() == charts@.len(),
                    diff_keys == cv.map_values(|c: (Seq<char>, PatternInfoView)| c.0),
                    forall|j: int| 0 <= j < k ==> diff_keys[j] != diff@,
                decreases charts@.len() - k,
            {
                if str_eq(charts[k].0.as_str(), diff) {
                    proof {
                        lemma_first_position_found(diff_keys, diff@, k as int);
                        assert(cv[k as int] == (charts@[k as int].0@, charts@[k as int].1@));
                    }
                    return Some(charts[k].1.level);
                }
                k += 1;
            }
            proof {
                lemma_first_position_absent(diff_keys, diff@);
            }
            return None;
        }
        i += 1;
    }
    proof {
        lemma_first_position_absent(mode_keys, mode@);
    }
    None
}

/// The song list of V-Archive, with an index of the songs by title.
pub struct VArchiveDB {
    pub songs: Vec<Song>,
    pub dlcs: Vec<Dlc>,
    title_map: Vec<(String, Vec<Song>)>,
}

impl Default for VArchiveDB {
    fn default() -> (res: Self)
        ensures
            res.song_list().len() == 0,
            res.dlc_list().len() == 0,
            res.index() == title_index(Seq::empty()),
    {
        VArchiveDB::new()
    }
}

/// The position of the group with key `key`, if any.
fn group_position(groups: &Vec<(String, Vec<Song>)>, key: &str) -> (res: Option<usize>)
    ensures
        match res {
            Some(p) => p == first_position(index_keys(groups_view(groups@)), key@),
            None => first_position(index_keys(groups_view(groups@)), key@) == -1,
        },
{
    let ghost keys = index_keys(groups_view(groups@));
    let mut i: usize = 0;
    while i < groups.len()
        invariant
            i <= groups@.len(),
            keys == index_keys(groups_view(groups@)),
            keys.len() == groups@.len(),
            forall|j: int| 0 <= j < i ==> keys[j] != key@,
        decreases groups@.len() - i,
    {
        if str_eq(groups[i].0.as_str(), key) {
            proof {
                lemma_first_position_found(keys, key@, i as int);
            }
            return Some(i);
        }
        i += 1;
    }
    proof {
        lemma_first_position_absent(keys, key@);
    }
    None
}

impl VArchiveDB {
    /// The title index, as values.
    pub closed spec fn index(&self) -> TitleIndexView {
        groups_view(self.title_map@)
    }

    /// The songs, as values.
    pub closed spec fn song_list(&self) -> Seq<SongView> {
        songs_view(self.songs@)
    }

    /// The packs, as values.
    pub closed spec fn dlc_list(&self) -> Seq<Dlc> {
        self.dlcs@
    }

    /// An empty list.
    pub fn new() -> (res: Self)
        ensures
            res.song_list().len() == 0,
            res.dlc_list().len() == 0,
            res.index() == title_index(Seq::empty()),
    {
        VArchiveDB { songs: Vec::new(), dlcs: Vec::new(), title_map: Vec::new() }
    }

    /// Rebuilds the title index from the songs.
    pub fn build_index(&mut self)
        ensures
            final(self).song_list() == old(self).song_list(),
            final(self).dlc_list() == old(self).dlc_list(),
            final(self).index() == title_index(old(self).song_list()),
    {
        let mut groups: Vec<(String, Vec<Song>)> = Vec::new();
        let ghost all = songs_view(self.songs@);
        let mut i: usize = 0;
        while i < self.songs.len()
            invariant
                i <= self.songs@.len(),
                all == songs_view(self.songs@),
                groups_view(groups@) == title_index(all.take(i as int)),
            decreases self.songs@.len() - i,
        {
            let key = string_from_chars(&title_key_of(self.songs[i].name.as_str()));
            let song = self.songs[i].duplicate();
            let pos = group_position(&groups, key.as_str());
            let ghost before = groups_view(groups@);
            assert(all.take(i + 1).drop_last() =~= all.take(i as int));
            assert(all.take(i + 1).last() == all[i as int]);
            match pos {
                Some(p) => {
                    proof {
                        lemma_first_position_range(index_keys(before), key@);
                    }
                    let mut g = groups.remove(p);
                    let ghost old_songs = songs_view(g.1@);
                    g.1.push(song);
                    assert(songs_view(g.1@) =~= old_songs.push(song@));
                    groups.insert(p, g);
                    assert(groups_view(groups@) =~= before.update(
                        p as int,
                        (key@, before[p as int].1.push(song@)),
                    ));
                },
                None => {
                    let mut v: Vec<Song> = Vec::new();
                    v.push(song);
                    groups.push((key, v));
                    assert(songs_view(v@) =~= seq![song@]);
                    assert(groups_view(groups@) =~= before.push((key@, seq![song@])));
                },
            }
            i += 1;
        }
        assert(all.take(self.songs@.len() as int) =~= all);
        self.title_map = groups;
    }

    /// The song filed under the title's key whose composer fits best.
    pub fn find_exact(&self, title: &str, composer: &str) -> (res: Option<Song>)
        ensures
            opt_song(res) == exact_match(self.index(), title@, composer@),
    {
        let key = string_from_chars(&title_key_of(title));
        match group_position(&self.title_map, key.as_str()) {
            Some(p) => {
                proof {
                    lemma_first_position_range(index_keys(self.index()), key@);
                }
                pick_by_composer(&self.title_map[p].1, composer)
            },
            None => None,
        }
    }

    /// The song filed under the key most similar to the title's key, when its
    /// similarity reaches `threshold` percent.
    pub fn find_fuzzy(&self, title: &str, composer: &str, threshold: u32) -> (res: Option<Song>)
        ensures
            opt_song(res) == fuzzy_match(self.index(), title@, composer@, threshold as int),
    {
        let ghost keys = index_keys(self.index());
        if self.title_map.len() == 0 {
            return None;
        }
        let query = title_key_of(title);
        let mut best: Option<usize> = None;
        let mut best_score: (u128, u128) = (0, 1);
        let mut i: usize = 0;
        while i < self.title_map.len()
            invariant
                i <= self.title_map@.len(),
                keys == index_keys(self.index()),
                keys.len() == self.title_map@.len(),
                (match best {
                    Some(b) => fuzzy_pick(query@, keys.take(i as int), threshold as int) == Some(
                        b as int,
                    ),
                    None => fuzzy_pick(query@, keys.take(i as int), threshold as int) is None,
                }),
                fuzzy_pick(query@, keys.take(i as int), threshold as int) matches Some(p) ==> (0
                    <= p < i && best_score.0 == similarity(query@, keys[p]).0 && best_score.1
                    == similarity(query@, keys[p]).1),
                fuzzy_pick(query@, keys.take(i as int), threshold as int) is None ==> best_score
                    == (0u128, 1u128),
                bounded_ratio(best_score),
            decreases self.title_map@.len() - i,
        {
            let key = chars_of(self.title_map[i].0.as_str());
            let s = similarity_of(&query, &key);
            assert(keys.take(i + 1).drop_last() =~= keys.take(i as int));
            assert(keys.take(i + 1).last() == keys[i as int]);
            proof {
                lemma_fuzzy_pick_reaches(query@, keys.take(i as int), threshold as int);
                if let Some(p) = fuzzy_pick(query@, keys.take(i as int), threshold as int) {
                    assert(keys.take(i + 1)[p] == keys[p]);
                    assert(keys.take(i as int)[p] == keys[p]);
                }
            }
            assert((threshold as u128) * s.1 <= u32::MAX * u64::MAX) by (nonlinear_arith)
                requires
                    s.1 <= usize::MAX,
                    usize::MAX <= u64::MAX,
                    threshold <= u32::MAX,
            ;
            if 100 * s.0 >= (threshold as u128) * s.1 && ratio_greater(s, best_score) {
                best = Some(i);
                best_score = s;
            }
            i += 1;
        }
        assert(keys.take(self.title_map@.len() as int) =~= keys);
        match best {
            Some(p) => pick_by_composer(&self.title_map[p].1, composer),
            None => None,
        }
    }

    /// The first song whose id is `song_id`.
    pub fn search_by_id(&self, song_id: i32) -> (res: Option<Song>)
        ensures
            opt_song(res) == song_with_id(self.song_list(), song_id as int),
    {
        let id = int_text(song_id);
        let ghost titles = song_titles(songs_view(self.songs@));
        let mut i: usize = 0;
        while i < self.songs.len()
            invariant
                i <= self.songs@.len(),
                titles == song_titles(songs_view(self.songs@)),
                titles.len() == self.songs@.len(),
                id@ == decimal_text(song_id as int),
                forall|j: int| 0 <= j < i ==> titles[j] != id@,
            decreases self.songs@.len() - i,
        {
            if str_eq(self.songs[i].title.as_str(), id.as_str()) {
                proof {
                    lemma_first_position_found(titles, id@, i as int);
                }
                return Some(self.songs[i].duplicate());
            }
            i += 1;
        }
        proof {
            lemma_first_position_absent(titles, id@);
        }
        None
    }

    /// The exact match of the title if there is one, else the fuzzy match.
    pub fn search(&self, title: &str, composer: &str, threshold: u32) -> (res: Option<Song>)
        ensures
            opt_song(res) == match exact_match(self.index(), title@, composer@) {
                Some(s) => Some(s),
                None => fuzzy_match(self.index(), title@, composer@, threshold as int),
            },
    {
        match self.find_exact(title, composer) {
            Some(s) => Some(s),
            None => self.find_fuzzy(title, composer, threshold),
        }
    }
}

impl VArchiveDB {
    fn best_match_for_title(
        &self,
        title: &str,
        mode: &str,
        diff: &str,
        level: Option<u32>,
        category: &str,
        note: &str,
    ) -> (res: Option<Song>)
        ensures
            opt_song(res) == best_match_for(
                MatchQuery {
                    title: title@,
                    mode: mode@,
                    diff: diff@,
                    level,
                    category: category@,
                    note: note@,
                },
                self.song_list(),
                self.dlc_list(),
            ),
    {
        let ghost query = MatchQuery {
            title: title@,
            mode: mode@,
            diff: diff@,
            level,
            category: category@,
            note: note@,
        };
        let q = normalize_text(title);
        if q.len() == 0 {
            return None;
        }
        let note_lower = to_lowercase(note);
        let ghost songs = self.song_list();
        let ghost dlcs = self.dlc_list();
        let mut best: Option<usize> = None;
        let mut best_score: i64 = -1000;
        let mut i: usize = 0;
        while i < self.songs.len()
            invariant
                i <= self.songs@.len(),
                songs == songs_view(self.songs@),
                songs.len() == self.songs@.len(),
                dlcs == self.dlcs@,
                q@ == normalized_text(title@),
                note_lower@ == spec_to_lowercase(note@),
                query == (MatchQuery {
                    title: title@,
                    mode: mode@,
                    diff: diff@,
                    level,
                    category: category@,
                    note: note@,
                }),
                match best_scored(q@, query, songs, dlcs, i as int) {
                    Some(x) => best == Some(x.0 as usize) && best_score == x.1 && 0 <= x.0 < i,
                    None => best is None && best_score == -1000,
                },
                -1000 <= best_score <= 480,
            decreases self.songs@.len() - i,
        {
            let song = &self.songs[i];
            assert(songs[i as int] == song@);
            let name = normalize_text(song.name.as_str());
            match title_score_of(&q, &name) {
                None => {},
                Some(t) => {
                    let chart = match chart_level(song, mode, diff) {
                        Some(l) => {
                            let bonus: i64 = match level {
                                Some(target) => if l == Some(target) {
                                    100
                                } else {
                                    -50
                                },
                                None => 0,
                            };
                            50 + bonus
                        },
                        None => 0,
                    };
                    let cat: i64 = if category_matches_dlc(
                        category,
                        song.dlc_code.as_str(),
                        self.dlcs.as_slice(),
                    ) {
                        80
                    } else {
                        0
                    };
                    let comp_lower = to_lowercase(song.composer.as_str());
                    let by_note = note_bonus(note_lower.as_str(), comp_lower.as_str());
                    let score = t + chart + cat + by_note;
                    assert(match_score(q@, query, songs[i as int], dlcs) == Some(score as int));
                    if score > best_score {
                        best = Some(i);
                        best_score = score;
                    }
                },
            }
            i += 1;
        }
        proof {
            lemma_best_scored_range(q@, query, songs, dlcs, songs.len() as int);
        }
        match best {
            Some(b) => Some(self.songs[b].duplicate()),
            None => None,
        }
    }

    /// The song that best fits what a result screen shows: its title (or, failing
    /// that, the part of the title before the first `/`), mode, difficulty, level,
    /// category and note.
    pub fn find_best_match(
        &self,
        title: &str,
        mode: &str,
        diff: &str,
        level: Option<u32>,
        category: &str,
        note: &str,
    ) -> (res: Option<Song>)
        ensures
            opt_song(res) == best_match(
                MatchQuery {
                    title: title@,
                    mode: mode@,
                    diff: diff@,
                    level,
                    category: category@,
                    note: note@,
                },
                self.song_list(),
                self.dlc_list(),
            ),
    {
        if self.songs.len() == 0 {
            return None;
        }
        if let Some(song) = self.best_match_for_title(title, mode, diff, level, category, note) {
            return Some(song);
        }
        let chars = chars_of(title);
        let mut has_slash = false;
        let mut i: usize = 0;
        while i < chars.len()
            invariant
                i <= chars@.len(),
                chars@ == title@,
                has_slash == (exists|j: int| 0 <= j < i && chars@[j] == '/'),
            decreases chars@.len() - i,
        {
            if chars[i] == '/' {
                has_slash = true;
            }
            i += 1;
        }
        if has_slash {
            assert(title@.contains('/'));
            let parts = split_on(title, '/');
            proof {
                crate::text::lemma_split_nonempty(title@, '/');
            }
            assert(parts@[0]@ == split_fields(title@, '/')[0]);
            self.best_match_for_title(parts[0].as_str(), mode, diff, level, category, note)
        } else {
            assert(!title@.contains('/'));
            None
        }
    }
}


/// The song id of a `songs.json` entry's `title`: a string as it is, a number as
/// its text; anything else is no id.
pub fn song_id_text(value: &JsonValue) -> (res: Option<String>)
    ensures
        match value {
            JsonValue::String(s) => res matches Some(t) && t@ == s@,
            JsonValue::Number(n) => res matches Some(t) && t@ == n@,
            _ => res is None,
        },
{
    match value {
        JsonValue::String(s) => Some(s.clone()),
        JsonValue::Number(n) => Some(n.clone()),
        _ => None,
    }
}


/// When a level is asked for, a song whose chart has that level scores 150 more
/// than a song that fares the same on title, pack and note but whose chart has
/// another level: a level mismatch never scores as much as a match.
pub proof fn lemma_level_match_outscores_mismatch(
    q: Seq<char>,
    query: MatchQuery,
    a: SongView,
    b: SongView,
    dlcs: Seq<Dlc>,
    target: u32,
)
    requires
        query.level == Some(target),
        title_score(q, normalized_text(a.name)) is Some,
        title_score(q, normalized_text(a.name)) == title_score(q, normalized_text(b.name)),
        spec_category_matches_dlc(query.category, a.dlc_code, dlcs)
            == spec_category_matches_dlc(query.category, b.dlc_code, dlcs),
        note_score(query.note, a.composer) == note_score(query.note, b.composer),
        chart_of(a.patterns, query.mode, query.diff) matches Some(pa) && pa.level == Some(target),
        chart_of(b.patterns, query.mode, query.diff) matches Some(pb) && pb.level != Some(target),
    ensures
        match_score(q, query, a, dlcs) matches Some(sa) && match_score(q, query, b, dlcs) matches Some(sb)
            && sa == sb + 150,
{
}

/// A song that has the chart asked for scores more than one that fares the same
/// on title, pack and note but lacks it, unless a level was asked for that the
/// chart does not have.
pub proof fn lemma_chart_presence_scores(
    q: Seq<char>,
    query: MatchQuery,
    a: SongView,
    b: SongView,
    dlcs: Seq<Dlc>,
)
    requires
        title_score(q, normalized_text(a.name)) is Some,
        title_score(q, normalized_text(a.name)) == title_score(q, normalized_text(b.name)),
        spec_category_matches_dlc(query.category, a.dlc_code, dlcs)
            == spec_category_matches_dlc(query.category, b.dlc_code, dlcs),
        note_score(query.note, a.composer) == note_score(query.note, b.composer),
        chart_of(a.patterns, query.mode, query.diff) matches Some(pa)
            && (query.level is None || pa.level == query.level),
        chart_of(b.patterns, query.mode, query.diff) is None,
    ensures
        match_score(q, query, a, dlcs) matches Some(sa) && match_score(q, query, b, dlcs) matches Some(sb)
            && sa > sb,
{
}


/// The pick among the first `n` songs has the highest score of them, and is the
/// first song with that score: every song scores at most as much, and every
/// earlier song scores less. Where some song scores (above -1000), there is a pick.
pub proof fn lemma_best_scored_is_first_highest(
    q: Seq<char>,
    query: MatchQuery,
    songs: Seq<SongView>,
    dlcs: Seq<Dlc>,
    n: int,
)
    requires
        0 <= n <= songs.len(),
    ensures
        best_scored(q, query, songs, dlcs, n) matches Some(x) ==> 0 <= x.0 < n && match_score(
            q,
            query,
            songs[x.0],
            dlcs,
        ) == Some(x.1) && x.1 > -1000,
        forall|j: int|
            0 <= j < n ==> (#[trigger] match_score(q, query, songs[j], dlcs) matches Some(sj) ==> (sj
                > -1000 ==> (best_scored(q, query, songs, dlcs, n) matches Some(x) && sj <= x.1 && (j
                < x.0 ==> sj < x.1)))),
    decreases n,
{
    if n > 0 {
        lemma_best_scored_is_first_highest(q, query, songs, dlcs, n - 1);
    }
}


/// Between two songs that fare the same on title and chart, the one in the pack
/// that the category names gains 80, and the one whose composer the note names
/// gains 150.
pub proof fn lemma_pack_and_note_bonuses(q: Seq<char>, query: MatchQuery, a: SongView, b: SongView, dlcs: Seq<Dlc>)
    requires
        title_score(q, normalized_text(a.name)) is Some,
        title_score(q, normalized_text(a.name)) == title_score(q, normalized_text(b.name)),
        chart_score(a, query.mode, query.diff, query.level) == chart_score(b, query.mode, query.diff, query.level),
    ensures
        spec_category_matches_dlc(query.category, a.dlc_code, dlcs) && !spec_category_matches_dlc(
            query.category,
            b.dlc_code,
            dlcs,
        ) && note_score(query.note, a.composer) == note_score(query.note, b.composer) ==> match_score(
            q,
            query,
            a,
            dlcs,
        )->0 == match_score(q, query, b, dlcs)->0 + 80,
        spec_category_matches_dlc(query.category, a.dlc_code, dlcs) == spec_category_matches_dlc(
            query.category,
            b.dlc_code,
            dlcs,
        ) && lowered_note_score(spec_to_lowercase(query.note), spec_to_lowercase(a.composer)) == 150
            && !(contains_seq(spec_to_lowercase(query.note), spec_to_lowercase(b.composer)) || contains_seq(
            spec_to_lowercase(b.composer),
            spec_to_lowercase(query.note),
        )) ==> match_score(q, query, a, dlcs)->0 == match_score(q, query, b, dlcs)->0 + 150,
{
}

} // verus!
