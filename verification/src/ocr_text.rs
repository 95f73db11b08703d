use vstd::prelude::*;
use crate::geometry::{ImageRegion, SceneType};
use crate::text::{
    to_lowercase, spec_to_lowercase, chars_of, contains_chars, contains_seq, occurs_at, push_char,
    trim_chars, trimmed, to_ascii_lower, to_ascii_upper,
};
use vstd::string::StringSliceAdditionalSpecFns;

verus! {

pub open spec fn is_ascii_digit(c: char) -> bool {
    '0' <= c && c <= '9'
}

pub open spec fn is_ascii_alphanumeric(c: char) -> bool {
    ('0' <= c && c <= '9') || ('a' <= c && c <= 'z') || ('A' <= c && c <= 'Z')
}

/// The ASCII digits of `s`, in order.
pub open spec fn ascii_digits(s: Seq<char>) -> Seq<char>
    decreases s.len(),
{
    if s.len() == 0 {
        Seq::empty()
    } else if is_ascii_digit(s.last()) {
        ascii_digits(s.drop_last()).push(s.last())
    } else {
        ascii_digits(s.drop_last())
    }
}

/// The number that the ASCII digits `d` spell in base 10.
pub open spec fn decimal_value(d: Seq<char>) -> nat
    decreases d.len(),
{
    if d.len() == 0 {
        0
    } else {
        decimal_value(d.drop_last()) * 10 + ((d.last() as u32) - ('0' as u32)) as nat
    }
}

/// `10^n`.
pub open spec fn pow10(n: nat) -> nat
    decreases n,
{
    if n == 0 {
        1
    } else {
        10 * pow10((n - 1) as nat)
    }
}

proof fn lemma_pow10_small(n: nat)
    requires
        n <= 7,
    ensures
        pow10(n) <= 10_000_000,
{
    reveal_with_fuel(pow10, 8);
}

/// A score read from text: the text's digits (separators and noise dropped), when
/// there are six or seven of them.
pub open spec fn spec_parse_score_text(text: Seq<char>) -> Option<u32> {
    let d = ascii_digits(text);
    if d.len() == 6 || d.len() == 7 {
        Some(decimal_value(d) as u32)
    } else {
        None
    }
}

/// Reads a score such as "999,800" or "1,000,000".
pub fn parse_score_text(text: &str) -> (res: Option<u32>)
    ensures
        res == spec_parse_score_text(text@),
        res matches Some(v) ==> v == decimal_value(ascii_digits(text@)),
{
    let chars = chars_of(text);
    let mut digits: Vec<char> = Vec::new();
    let mut i: usize = 0;
    while i < chars.len()
        invariant
            chars@ == text@,
            i <= chars@.len(),
            digits@ == ascii_digits(text@.subrange(0, i as int)),
            forall|k: int| 0 <= k < digits@.len() ==> is_ascii_digit(#[trigger] digits@[k]),
        decreases chars@.len() - i,
    {
        let c = chars[i];
        assert(text@.subrange(0, i + 1).drop_last() == text@.subrange(0, i as int));
        if '0' <= c && c <= '9' {
            digits.push(c);
        }
        i += 1;
    }
    assert(text@.subrange(0, chars@.len() as int) == text@);
    if digits.len() != 6 && digits.len() != 7 {
        return None;
    }
    let mut value: u32 = 0;
    let mut k: usize = 0;
    while k < digits.len()
        invariant
            k <= digits@.len() <= 7,
            forall|j: int| 0 <= j < digits@.len() ==> is_ascii_digit(#[trigger] digits@[j]),
            value == decimal_value(digits@.subrange(0, k as int)),
            value < pow10(k as nat),
        decreases digits@.len() - k,
    {
        proof {
            let pre = digits@.subrange(0, k + 1);
            assert(pre.drop_last() == digits@.subrange(0, k as int));
            lemma_pow10_small(k as nat);
            assert(is_ascii_digit(digits@[k as int]));
        }
        let d: u32 = (digits[k] as u32) - ('0' as u32);
        value = value * 10 + d;
        k += 1;
    }
    assert(digits@.subrange(0, digits@.len() as int) == digits@);
    Some(value)
}

/// The ASCII letters and digits of `s`, in order, letters in upper case.
pub open spec fn alnum_upper(s: Seq<char>) -> Seq<char>
    decreases s.len(),
{
    if s.len() == 0 {
        Seq::empty()
    } else if is_ascii_alphanumeric(s.last()) {
        alnum_upper(s.drop_last()).push(to_ascii_upper(s.last()))
    } else {
        alnum_upper(s.drop_last())
    }
}

/// Keeps the ASCII letters and digits of `text`, letters in upper case.
pub fn normalize_alnum(text: &str) -> (res: String)
    ensures
        res@ == alnum_upper(text@),
{
    let chars = chars_of(text);
    let mut out = String::new();
    let mut i: usize = 0;
    while i < chars.len()
        invariant
            chars@ == text@,
            i <= chars@.len(),
            out@ == alnum_upper(text@.subrange(0, i as int)),
        decreases chars@.len() - i,
    {
        let c = chars[i];
        assert(text@.subrange(0, i + 1).drop_last() == text@.subrange(0, i as int));
        if ('0' <= c && c <= '9') || ('A' <= c && c <= 'Z') {
            push_char(&mut out, c);
        } else if 'a' <= c && c <= 'z' {
            let u = ((c as u32) - 32) as u8;
            push_char(&mut out, u as char);
        }
        i += 1;
    }
    assert(text@.subrange(0, chars@.len() as int) == text@);
    out
}

/// Length of a longest common subsequence of `a` and `b`, by the usual recurrence
/// on their last elements.
pub open spec fn lcs(a: Seq<u8>, b: Seq<u8>) -> nat
    decreases a.len() + b.len(),
{
    if a.len() == 0 || b.len() == 0 {
        0
    } else if a.last() == b.last() {
        lcs(a.drop_last(), b.drop_last()) + 1
    } else {
        let x = lcs(a.drop_last(), b);
        let y = lcs(a, b.drop_last());
        if x >= y { x } else { y }
    }
}

/// A common subsequence is no longer than either sequence.
pub proof fn lemma_lcs_bounded(a: Seq<u8>, b: Seq<u8>)
    ensures
        lcs(a, b) <= a.len(),
        lcs(a, b) <= b.len(),
    decreases a.len() + b.len(),
{
    if a.len() > 0 && b.len() > 0 {
        lemma_lcs_bounded(a.drop_last(), b.drop_last());
        lemma_lcs_bounded(a.drop_last(), b);
        lemma_lcs_bounded(a, b.drop_last());
    }
}

/// Length of a longest common subsequence, computed row by row with two rows of
/// the dynamic-programming table.
pub fn lcs_len(left: &[u8], right: &[u8]) -> (res: usize)
    requires
        right@.len() < usize::MAX,
    ensures
        res == lcs(left@, right@),
{
    let n = right.len();
    let mut prev: Vec<usize> = Vec::new();
    let mut curr: Vec<usize> = Vec::new();
    let mut z: usize = 0;
    while z <= n
        invariant
            n == right@.len(),
            n < usize::MAX,
            z <= n + 1,
            prev@.len() == z,
            curr@.len() == z,
            forall|j: int| 0 <= j < z ==> prev@[j] == 0 && curr@[j] == 0,
        decreases n + 1 - z,
    {
        prev.push(0);
        curr.push(0);
        z += 1;
    }
    let mut i: usize = 0;
    while i < left.len()
        invariant
            n == right@.len(),
            i <= left@.len(),
            prev@.len() == n + 1,
            curr@.len() == n + 1,
            curr@[0] == 0,
            forall|j: int| 0 <= j <= n ==> #[trigger] prev@[j] == lcs(left@.subrange(0, i as int), right@.subrange(0, j)),
        decreases left@.len() - i,
    {
        let a = left[i];
        let ghost la = left@.subrange(0, i + 1);
        proof {
            assert(la.drop_last() == left@.subrange(0, i as int));
            assert(la.last() == a);
        }
        let mut idx: usize = 0;
        while idx < n
            invariant
                n == right@.len(),
                i < left@.len(),
                idx <= n,
                la == left@.subrange(0, i + 1),
                la.drop_last() == left@.subrange(0, i as int),
                la.last() == a,
                prev@.len() == n + 1,
                curr@.len() == n + 1,
                forall|j: int| 0 <= j <= n ==> #[trigger] prev@[j] == lcs(left@.subrange(0, i as int), right@.subrange(0, j)),
                forall|j: int| 0 <= j <= idx ==> #[trigger] curr@[j] == lcs(la, right@.subrange(0, j)),
            decreases n - idx,
        {
            let b = right[idx];
            proof {
                let rb = right@.subrange(0, idx + 1);
                assert(rb.drop_last() == right@.subrange(0, idx as int));
                assert(rb.last() == b);
                lemma_lcs_bounded(left@.subrange(0, i as int), right@.subrange(0, idx as int));
                assert(prev@[idx as int] == lcs(left@.subrange(0, i as int), right@.subrange(0, idx as int)));
                assert(curr@[idx as int] == lcs(la, right@.subrange(0, idx as int)));
                assert(prev@[idx + 1] == lcs(left@.subrange(0, i as int), rb));
            }
            let v = if a == b {
                prev[idx] + 1
            } else if curr[idx] >= prev[idx + 1] {
                curr[idx]
            } else {
                prev[idx + 1]
            };
            curr.set(idx + 1, v);
            idx += 1;
        }
        proof {
            assert forall|j: int| 0 <= j <= n implies #[trigger] curr@[j] == lcs(left@.subrange(0, i + 1), right@.subrange(0, j)) by {
            }
        }
        std::mem::swap(&mut prev, &mut curr);
        proof {
            assert(curr@[0] == lcs(left@.subrange(0, i as int), right@.subrange(0, 0)));
        }
        i += 1;
    }
    proof {
        assert(left@.subrange(0, left@.len() as int) == left@);
        assert(right@.subrange(0, n as int) == right@);
    }
    prev[n]
}

/// Whether `needle[start..start + len]` occurs in `hay` at position `i`.
fn occurs_range_at(hay: &[u8], needle: &[u8], start: usize, len: usize, i: usize) -> (res: bool)
    requires
        start + len <= needle@.len(),
        i + len <= hay@.len(),
    ensures
        res == occurs_at(hay@, needle@.subrange(start as int, start + len), i as int),
{
    let hl = hay.len();
    let nl = needle.len();
    let ghost sub = needle@.subrange(start as int, start + len);
    let mut k: usize = 0;
    while k < len
        invariant
            hl == hay@.len(),
            nl == needle@.len(),
            start + len <= needle@.len(),
            i + len <= hay@.len(),
            sub == needle@.subrange(start as int, start + len),
            k <= len,
            forall|j: int| 0 <= j < k ==> hay@[i + j] == sub[j],
        decreases len - k,
    {
        if hay[i + k] != needle[start + k] {
            assert(hay@.subrange(i as int, i + len)[k as int] != sub[k as int]);
            return false;
        }
        k += 1;
    }
    assert(hay@.subrange(i as int, i + len) =~= sub);
    true
}

/// Whether `needle[start..start + len]` occurs as a contiguous part of `hay`.
pub fn contains_byte_range(hay: &[u8], needle: &[u8], start: usize, len: usize) -> (res: bool)
    requires
        start + len <= needle@.len(),
    ensures
        res == contains_seq(hay@, needle@.subrange(start as int, start + len)),
{
    let ghost sub = needle@.subrange(start as int, start + len);
    if len > hay.len() {
        assert forall|j: int| !occurs_at(hay@, sub, j) by {}
        return false;
    }
    let last = hay.len() - len;
    let mut i: usize = 0;
    while i <= last
        invariant
            start + len <= needle@.len(),
            sub == needle@.subrange(start as int, start + len),
            last == hay@.len() - len,
            i <= last + 1,
            forall|j: int| 0 <= j < i ==> !occurs_at(hay@, sub, j),
        decreases last + 1 - i,
    {
        if occurs_range_at(hay, needle, start, len, i) {
            return true;
        }
        if i == last {
            assert forall|j: int| !occurs_at(hay@, sub, j) by {}
            return false;
        }
        i += 1;
    }
    false
}

/// Width of the keyword windows tried when the whole keyword does not occur.
pub open spec fn partial_len(k: Seq<u8>) -> int {
    if k.len() < 6 { k.len() as int } else { 6 }
}

/// The OCR text matches a logo keyword: it contains the keyword, or one of the
/// keyword's six-byte windows (the whole keyword when it is shorter), or the two
/// are similar, meaning that twice their longest common subsequence is at least
/// 72% of their total length.
pub open spec fn spec_logo_keyword_match(k: Seq<u8>, o: Seq<u8>) -> bool {
    &&& k.len() > 0
    &&& o.len() > 0
    &&& {
        ||| contains_seq(o, k)
        ||| exists|idx: int| 0 <= idx <= k.len() - partial_len(k)
                && #[trigger] contains_seq(o, k.subrange(idx, idx + partial_len(k)))
        ||| lcs(k, o) * 200 >= (k.len() + o.len()) * 72
    }
}

/// Matches OCR text (already reduced to upper-case letters and digits) against
/// a logo keyword, tolerating a few misread characters.
pub fn is_logo_keyword_match(keyword: &str, normalized_ocr: &str) -> (res: bool)
    requires
        forall|idx: int| 0 <= idx <= keyword.spec_bytes().len() - partial_len(keyword.spec_bytes())
            ==> #[trigger] vstd::utf8::is_char_boundary(keyword.spec_bytes(), idx)
                && vstd::utf8::is_char_boundary(keyword.spec_bytes(), idx + partial_len(keyword.spec_bytes())),
        normalized_ocr.spec_bytes().len() < usize::MAX,
    ensures
        res == spec_logo_keyword_match(keyword.spec_bytes(), normalized_ocr.spec_bytes()),
{
    let k = keyword.as_bytes();
    let o = normalized_ocr.as_bytes();
    let kl = k.len();
    let ol = o.len();
    if kl == 0 || ol == 0 {
        return false;
    }
    if contains_byte_range(o, k, 0, kl) {
        assert(k@.subrange(0, kl as int) == k@);
        return true;
    }
    assert(k@.subrange(0, kl as int) == k@);
    let m: usize = if kl < 6 { kl } else { 6 };
    let mut idx: usize = 0;
    while idx <= kl - m
        invariant
            kl == k@.len(),
            kl > 0,
            ol == o@.len(),
            ol > 0,
            !contains_seq(o@, k@),
            k@ == keyword.spec_bytes(),
            o@ == normalized_ocr.spec_bytes(),
            m == partial_len(k@),
            m <= kl,
            idx <= kl - m + 1,
            forall|j: int| 0 <= j < idx ==> !#[trigger] contains_seq(o@, k@.subrange(j, j + m)),
        ensures
            forall|j: int| 0 <= j <= k@.len() - partial_len(k@)
                ==> !#[trigger] contains_seq(o@, k@.subrange(j, j + partial_len(k@))),
        decreases kl - m + 1 - idx,
    {
        if contains_byte_range(o, k, idx, m) {
            assert(contains_seq(o@, k@.subrange(idx as int, idx + partial_len(k@))));
            return true;
        }
        if idx == kl - m {
            assert forall|j: int| 0 <= j <= k@.len() - partial_len(k@)
                implies !#[trigger] contains_seq(o@, k@.subrange(j, j + partial_len(k@))) by {
                assert(j < idx || j == idx);
            }
            break;
        }
        idx += 1;
    }
    proof {
        lemma_lcs_bounded(k@, o@);
    }
    let common = lcs_len(k, o);
    (common as u128) * 200 >= (kl as u128 + ol as u128) * 72
}

/// The text names a button mode: it contains "4b", "5b", "6b" or "8b".
pub open spec fn spec_has_mode_keyword(norm: Seq<char>) -> bool {
    ||| contains_seq(norm, "4b"@)
    ||| contains_seq(norm, "5b"@)
    ||| contains_seq(norm, "6b"@)
    ||| contains_seq(norm, "8b"@)
}

/// Whether already lower-cased text names a button mode.
pub fn mode_keyword_in(norm: &str) -> (res: bool)
    ensures
        res == spec_has_mode_keyword(norm@),
{
    let n = chars_of(norm);
    contains_chars(&n, &chars_of("4b")) || contains_chars(&n, &chars_of("5b"))
        || contains_chars(&n, &chars_of("6b")) || contains_chars(&n, &chars_of("8b"))
}

/// The button mode that already lower-cased text names: the first of 4, 5, 6, 8
/// whose digit occurs in it ("4b" contains "4", so the digit decides).
pub open spec fn spec_mode_from_lowercase(norm: Seq<char>) -> Option<Seq<char>> {
    if contains_seq(norm, "4b"@) || norm.contains('4') {
        Some("4B"@)
    } else if contains_seq(norm, "5b"@) || norm.contains('5') {
        Some("5B"@)
    } else if contains_seq(norm, "6b"@) || norm.contains('6') {
        Some("6B"@)
    } else if contains_seq(norm, "8b"@) || norm.contains('8') {
        Some("8B"@)
    } else {
        None
    }
}

fn has_char(v: &Vec<char>, c: char) -> (res: bool)
    ensures
        res == v@.contains(c),
{
    let mut i: usize = 0;
    while i < v.len()
        invariant
            i <= v@.len(),
            forall|j: int| 0 <= j < i ==> v@[j] != c,
        decreases v@.len() - i,
    {
        if v[i] == c {
            return true;
        }
        i += 1;
    }
    false
}

/// The button mode that already lower-cased text names.
pub fn mode_from_lowercase(norm: &str) -> (res: Option<String>)
    ensures
        match (res, spec_mode_from_lowercase(norm@)) {
            (Some(r), Some(m)) => r@ == m,
            (None, None) => true,
            _ => false,
        },
{
    let n = chars_of(norm);
    if contains_chars(&n, &chars_of("4b")) || has_char(&n, '4') {
        Some(String::from_str("4B"))
    } else if contains_chars(&n, &chars_of("5b")) || has_char(&n, '5') {
        Some(String::from_str("5B"))
    } else if contains_chars(&n, &chars_of("6b")) || has_char(&n, '6') {
        Some(String::from_str("6B"))
    } else if contains_chars(&n, &chars_of("8b")) || has_char(&n, '8') {
        Some(String::from_str("8B"))
    } else {
        None
    }
}

/// The logo text reduced to lower-case ASCII letters and digits.
pub open spec fn logo_key(text: Seq<char>) -> Seq<char> {
    alnum_upper(text).map_values(|c: char| to_ascii_lower(c))
}

/// The scene that a logo text names, with the reduced text.
pub open spec fn spec_match_logo_scene(text: Seq<char>) -> Option<SceneType> {
    let t = logo_key(text);
    if contains_seq(t, "buttontunes"@) || contains_seq(t, "button"@) {
        Some(SceneType::ResultFreestyle)
    } else if contains_seq(t, "freestyle"@) {
        Some(SceneType::Freestyle)
    } else if contains_seq(t, "online"@) {
        if contains_seq(t, "open"@) || contains_seq(t, "openmatch"@) {
            Some(SceneType::OpenMatch)
        } else if contains_seq(t, "ladder"@) || contains_seq(t, "laddermatch"@) {
            Some(SceneType::LadderMatch)
        } else {
            Some(SceneType::Online)
        }
    } else if contains_seq(t, "tunes"@) || contains_seq(t, "tune"@) {
        if exists|i: int| 0 <= i < t.len() && is_ascii_digit(#[trigger] t[i]) {
            Some(SceneType::ResultOpen2)
        } else {
            None
        }
    } else {
        None
    }
}

/// Empty text names no scene.
pub proof fn lemma_empty_text_names_no_scene()
    ensures
        spec_match_logo_scene(Seq::empty()) is None,
{
    reveal_strlit("buttontunes");
    reveal_strlit("button");
    reveal_strlit("freestyle");
    reveal_strlit("online");
    reveal_strlit("tunes");
    reveal_strlit("tune");
    assert(alnum_upper(Seq::<char>::empty()) == Seq::<char>::empty());
    assert(logo_key(Seq::<char>::empty()) =~= Seq::<char>::empty());
}

/// Lower-cases ASCII letters of `v`.
fn ascii_lowercase_chars(v: &Vec<char>) -> (res: Vec<char>)
    ensures
        res@ == v@.map_values(|c: char| to_ascii_lower(c)),
{
    let mut out: Vec<char> = Vec::new();
    let mut i: usize = 0;
    while i < v.len()
        invariant
            i <= v@.len(),
            out@ == v@.subrange(0, i as int).map_values(|c: char| to_ascii_lower(c)),
        decreases v@.len() - i,
    {
        let c = v[i];
        let l = if 'A' <= c && c <= 'Z' { (((c as u32) + 32) as u8) as char } else { c };
        out.push(l);
        assert(v@.subrange(0, i + 1).map_values(|c: char| to_ascii_lower(c))
            =~= v@.subrange(0, i as int).map_values(|c: char| to_ascii_lower(c)).push(to_ascii_lower(c)));
        i += 1;
    }
    assert(v@.subrange(0, v@.len() as int) == v@);
    out
}

fn has_ascii_digit(v: &Vec<char>) -> (res: bool)
    ensures
        res == exists|i: int| 0 <= i < v@.len() && is_ascii_digit(#[trigger] v@[i]),
{
    let mut i: usize = 0;
    while i < v.len()
        invariant
            i <= v@.len(),
            forall|j: int| 0 <= j < i ==> !is_ascii_digit(#[trigger] v@[j]),
        decreases v@.len() - i,
    {
        if '0' <= v[i] && v[i] <= '9' {
            return true;
        }
        i += 1;
    }
    false
}

/// Recognises the scene from the text read in the logo area; also returns the
/// reduced text.
pub fn match_logo_scene(text: &str) -> (res: Option<(SceneType, String)>)
    ensures
        match res {
            Some((scene, norm)) => spec_match_logo_scene(text@) == Some(scene) && norm@ == logo_key(text@),
            None => spec_match_logo_scene(text@) is None,
        },
{
    let upper = normalize_alnum(text);
    let t = ascii_lowercase_chars(&chars_of(upper.as_str()));
    let scene = if contains_chars(&t, &chars_of("buttontunes")) || contains_chars(&t, &chars_of("button")) {
        Some(SceneType::ResultFreestyle)
    } else if contains_chars(&t, &chars_of("freestyle")) {
        Some(SceneType::Freestyle)
    } else if contains_chars(&t, &chars_of("online")) {
        if contains_chars(&t, &chars_of("open")) || contains_chars(&t, &chars_of("openmatch")) {
            Some(SceneType::OpenMatch)
        } else if contains_chars(&t, &chars_of("ladder")) || contains_chars(&t, &chars_of("laddermatch")) {
            Some(SceneType::LadderMatch)
        } else {
            Some(SceneType::Online)
        }
    } else if contains_chars(&t, &chars_of("tunes")) || contains_chars(&t, &chars_of("tune")) {
        if has_ascii_digit(&t) {
            Some(SceneType::ResultOpen2)
        } else {
            None
        }
    } else {
        None
    };
    match scene {
        Some(s) => Some((s, crate::text::string_from_chars(&t))),
        None => None,
    }
}

/// The display label of a scene.
pub fn scene_label(scene: SceneType) -> (res: String)
    ensures
        res@ == (match scene {
            SceneType::Freestyle => "FREESTYLE"@,
            SceneType::Online => "ONLINE"@,
            SceneType::OpenMatch => "OPEN_MATCH"@,
            SceneType::LadderMatch => "LADDER_MATCH"@,
            SceneType::ResultFreestyle => "RESULT_FREESTYLE"@,
            SceneType::ResultOpen3 => "RESULT_OPEN3"@,
            SceneType::ResultOpen2 => "RESULT_OPEN2"@,
            _ => "UNKNOWN"@,
        }),
{
    let s = match scene {
        SceneType::Freestyle => "FREESTYLE",
        SceneType::Online => "ONLINE",
        SceneType::OpenMatch => "OPEN_MATCH",
        SceneType::LadderMatch => "LADDER_MATCH",
        SceneType::ResultFreestyle => "RESULT_FREESTYLE",
        SceneType::ResultOpen3 => "RESULT_OPEN3",
        SceneType::ResultOpen2 => "RESULT_OPEN2",
        _ => "UNKNOWN",
    };
    String::from_str(s)
}

/// A recognition result taken by the views of its texts.
pub open spec fn reading_view(reading: Result<String, String>) -> Result<Seq<char>, Seq<char>> {
    match reading {
        Ok(t) => Ok(t@),
        Err(e) => Err(e@),
    }
}

/// What this build's recognition backend reads from any image: empty text.
pub open spec fn spec_backend_reading() -> Result<Seq<char>, Seq<char>> {
    Ok(Seq::empty())
}

/// The text that a recognition pass yields: the recognised text when recognition
/// succeeded and the text is not blank.
pub open spec fn spec_nonblank_reading(reading: Result<Seq<char>, Seq<char>>) -> Option<Seq<char>> {
    match reading {
        Ok(t) => if trimmed(t).len() == 0 {
            None
        } else {
            Some(t)
        },
        Err(_) => None,
    }
}

/// Template matching of the score area gave no score to trust: nothing was matched,
/// or a digit could not be matched (`?`).
pub open spec fn spec_needs_recognition(matched: Seq<char>) -> bool {
    matched.len() == 0 || matched.contains('?')
}

/// The score read from the score area. `matched` is what template matching read
/// (`None` where matching failed), `recognized` what text recognition read.
/// Complete matched text gives the score; otherwise the recognised text does, when
/// recognition succeeded.
pub open spec fn spec_score_from_readings(
    matched: Option<Seq<char>>,
    recognized: Result<Seq<char>, Seq<char>>,
) -> Option<u32> {
    match matched {
        None => None,
        Some(m) => if spec_needs_recognition(m) {
            match recognized {
                Ok(t) => spec_parse_score_text(t),
                Err(_) => None,
            }
        } else {
            spec_parse_score_text(m)
        },
    }
}

/// The recognised text, when recognition succeeded and the text is not blank.
pub fn nonblank_reading(reading: Result<String, String>) -> (res: Option<String>)
    ensures
        match (res, spec_nonblank_reading(reading_view(reading))) {
            (Some(r), Some(t)) => r@ == t,
            (None, None) => true,
            _ => false,
        },
{
    match reading {
        Ok(t) => {
            let core = trim_chars(&chars_of(t.as_str()));
            if core.len() == 0 {
                None
            } else {
                Some(t)
            }
        },
        Err(_) => None,
    }
}

/// Whether the matched text of the score area needs text recognition to fall back on.
pub fn needs_recognition(matched: &str) -> (res: bool)
    ensures
        res == spec_needs_recognition(matched@),
{
    let chars = chars_of(matched);
    chars.len() == 0 || has_char(&chars, '?')
}

/// The score from the template-matched text and the recognised text of the score
/// area, as `spec_score_from_readings` says.
pub fn score_from_readings(matched: Option<&str>, recognized: Result<String, String>) -> (res: Option<u32>)
    ensures
        res == spec_score_from_readings(
            match matched {
                Some(m) => Some(m@),
                None => None,
            },
            reading_view(recognized),
        ),
{
    match matched {
        None => None,
        Some(m) => if needs_recognition(m) {
            match recognized {
                Ok(t) => parse_score_text(t.as_str()),
                Err(_) => None,
            }
        } else {
            parse_score_text(m)
        },
    }
}

/// Text recognition for the detector. This build has no OCR backend: recognition
/// always succeeds with empty text, so only template matching reads digits.
pub struct OcrDetector {
    available: bool,
}

impl OcrDetector {
    pub fn new() -> (res: Self)
        ensures
            !res.is_available_spec(),
    {
        OcrDetector { available: false }
    }

    pub closed spec fn is_available_spec(&self) -> bool {
        self.available
    }

    /// Whether an OCR backend is present.
    pub fn is_available(&self) -> (res: bool)
        ensures
            res == self.is_available_spec(),
    {
        self.available
    }

    /// Text read from `region` in colour: empty in this build.
    pub fn recognize_text_color(&self, region: &ImageRegion) -> (res: Option<String>)
        ensures
            res matches Some(t) && t@.len() == 0,
    {
        Some(String::new())
    }

    /// Text read from `region` after binarisation: empty in this build.
    pub fn recognize_text_binarized(&self, region: &ImageRegion, force_invert: bool) -> (res: Option<String>)
        ensures
            res matches Some(t) && t@.len() == 0,
    {
        Some(String::new())
    }

    /// Non-blank text read from `region` in colour, as `nonblank_reading` takes it
    /// from the backend's reading; none in this build, whose backend reads empty
    /// text.
    pub fn recognize_text_all_passes(&self, region: &ImageRegion) -> (res: Option<String>)
        ensures
            match (res, spec_nonblank_reading(spec_backend_reading())) {
                (Some(r), Some(t)) => r@ == t,
                (None, None) => true,
                _ => false,
            },
            res is None,
    {
        let reading = self.recognize_logo_color(region);
        proof {
            assert(trimmed(Seq::<char>::empty()).len() == 0);
        }
        nonblank_reading(reading)
    }

    /// Colour text recognition of this build's backend: empty text.
    fn recognize_logo_color(&self, region: &ImageRegion) -> (res: Result<String, String>)
        ensures
            res matches Ok(t) && t@.len() == 0,
            reading_view(res) == spec_backend_reading(),
    {
        Ok(String::new())
    }

    /// The scene named by the logo area, with the text read and the scene's label;
    /// with empty recognised text no scene matches.
    pub fn detect_logo(&self, logo: &ImageRegion) -> (res: (SceneType, String, String))
        ensures
            res.0 == SceneType::Unknown,
            res.1@.len() == 0,
            res.2@ == "UNKNOWN"@,
    {
        if let Ok(t) = self.recognize_logo_color(logo) {
            proof {
                lemma_empty_text_names_no_scene();
                assert(t@ == Seq::<char>::empty());
            }
            if let Some((scene, _)) = match_logo_scene(t.as_str()) {
                let label = scene_label(scene);
                return (scene, t, label);
            }
        }
        (SceneType::Unknown, String::new(), String::from_str("UNKNOWN"))
    }

    /// The score read from the score area. `matched` is what template matching of
    /// the area's digits read, `?` standing for a digit it could not match, and
    /// `None` where matching failed. Complete matched text gives the score; empty
    /// text or text with an unmatched digit falls back to the backend's text
    /// recognition, which reads nothing in this build.
    pub fn detect_score(&self, matched: Option<&str>, score: &ImageRegion) -> (res: Option<u32>)
        ensures
            res == spec_score_from_readings(
                match matched {
                    Some(m) => Some(m@),
                    None => None,
                },
                spec_backend_reading(),
            ),
            match matched {
                None => res is None,
                Some(m) => if spec_needs_recognition(m@) {
                    res is None
                } else {
                    res == spec_parse_score_text(m@)
                },
            },
    {
        match matched {
            None => None,
            Some(m) => if needs_recognition(m) {
                let reading = self.recognize_logo_color(score);
                proof {
                    assert(ascii_digits(Seq::<char>::empty()).len() == 0);
                }
                score_from_readings(matched, reading)
            } else {
                parse_score_text(m)
            },
        }
    }

    /// Whether the text names a button mode; case is ignored.
    pub fn contains_mode_keyword(&self, text: &str) -> (res: bool)
        ensures
            res == spec_has_mode_keyword(spec_to_lowercase(text@)),
    {
        let norm = to_lowercase(text);
        mode_keyword_in(norm.as_str())
    }

    /// The button mode that the text names; case is ignored.
    pub fn parse_mode_from_text(&self, text: &str) -> (res: Option<String>)
        ensures
            match (res, spec_mode_from_lowercase(spec_to_lowercase(text@))) {
                (Some(r), Some(m)) => r@ == m,
                (None, None) => true,
                _ => false,
            },
    {
        let norm = to_lowercase(text);
        mode_from_lowercase(norm.as_str())
    }
}

/// The pixel of a `w` x `h` image that the pixel (`dx`, `dy`) of a `tw` x `th`
/// nearest-neighbour resize takes: rows and columns scaled down, clamped to
/// the last ones.
pub open spec fn resize_source(dx: int, dy: int, w: int, h: int, tw: int, th: int) -> int {
    let sy = if (dy * h) / th < h - 1 { (dy * h) / th } else { h - 1 };
    let sx = if (dx * w) / tw < w - 1 { (dx * w) / tw } else { w - 1 };
    sy * w + sx
}

/// A binary image of `w` x `h` resized to `target_w` x `target_h` by nearest
/// neighbour; an image that already has that size is copied.
pub fn resize_binary(binary: &[u8], w: usize, h: usize, target_w: usize, target_h: usize) -> (res: Vec<u8>)
    requires
        w * h <= binary@.len(),
        target_w * target_h <= usize::MAX,
        (w == target_w && h == target_h) || target_h == 0 || (h > 0 && (target_w == 0 || w > 0)),
        (target_h - 1) * h <= usize::MAX,
        (target_w - 1) * w <= usize::MAX,
    ensures
        w == target_w && h == target_h ==> res@ == binary@,
        !(w == target_w && h == target_h) ==> {
            &&& res@.len() == target_w * target_h
            &&& forall|dy: int, dx: int|
                0 <= dy < target_h && 0 <= dx < target_w ==> #[trigger] res@[dy * target_w + dx]
                    == binary@[resize_source(dx, dy, w as int, h as int, target_w as int, target_h as int)]
        },
{
    if w == target_w && h == target_h {
        let mut copy: Vec<u8> = Vec::new();
        let mut i: usize = 0;
        while i < binary.len()
            invariant
                i <= binary@.len(),
                copy@ == binary@.subrange(0, i as int),
            decreases binary@.len() - i,
        {
            copy.push(binary[i]);
            i += 1;
        }
        assert(binary@.subrange(0, binary@.len() as int) == binary@);
        return copy;
    }
    let total = target_w * target_h;
    let blen = binary.len();
    let mut dst: Vec<u8> = Vec::new();
    let mut dy: usize = 0;
    while dy < target_h
        invariant
            w * h <= binary@.len(),
            blen == binary@.len(),
            total == target_w * target_h,
            target_h == 0 || (h > 0 && (target_w == 0 || w > 0)),
            (target_h - 1) * h <= usize::MAX,
            (target_w - 1) * w <= usize::MAX,
            dy <= target_h,
            dst@.len() == dy * target_w,
            forall|y: int, x: int|
                0 <= y < dy && 0 <= x < target_w ==> #[trigger] dst@[y * target_w + x]
                    == binary@[resize_source(x, y, w as int, h as int, target_w as int, target_h as int)],
        decreases target_h - dy,
    {
        assert(dy * h <= (target_h - 1) * h) by (nonlinear_arith)
            requires
                dy < target_h,
        ;
        let sy = (dy * h) / target_h;
        let sy_clamped = if sy < h - 1 { sy } else { h - 1 };
        let mut dx: usize = 0;
        let ghost row_start = dst@.len();
        while dx < target_w
            invariant
                w * h <= binary@.len(),
                blen == binary@.len(),
                (target_h - 1) * h <= usize::MAX,
                (target_w - 1) * w <= usize::MAX,
                dy < target_h,
                h > 0,
                target_w == 0 || w > 0,
                sy_clamped as int == (if (dy as int * h as int) / (target_h as int) < (h as int) - 1 { (dy as int * h as int) / (target_h as int) } else { (h as int) - 1 }),
                sy_clamped < h,
                dx <= target_w,
                row_start == dy * target_w,
                dst@.len() == row_start + dx,
                forall|y: int, x: int|
                    0 <= y < dy && 0 <= x < target_w ==> #[trigger] dst@[y * target_w + x]
                        == binary@[resize_source(x, y, w as int, h as int, target_w as int, target_h as int)],
                forall|x: int|
                    0 <= x < dx ==> #[trigger] dst@[dy * target_w + x]
                        == binary@[resize_source(x, dy as int, w as int, h as int, target_w as int, target_h as int)],
            decreases target_w - dx,
        {
            assert(dx * w <= (target_w - 1) * w) by (nonlinear_arith)
                requires
                    dx < target_w,
            ;
            let sx = (dx * w) / target_w;
            let sx_clamped = if sx < w - 1 { sx } else { w - 1 };
            assert(sy_clamped * w + sx_clamped < w * h) by (nonlinear_arith)
                requires
                    sy_clamped < h,
                    sx_clamped < w,
            ;
            let ghost before = dst@;
            dst.push(binary[sy_clamped * w + sx_clamped]);
            proof {
                assert forall|y: int, x: int|
                    0 <= y < dy && 0 <= x < target_w implies #[trigger] dst@[y * target_w + x]
                        == binary@[resize_source(x, y, w as int, h as int, target_w as int, target_h as int)] by {
                    assert(y * target_w + x < dy * target_w) by (nonlinear_arith)
                        requires
                            y < dy,
                            x < target_w,
                    ;
                    assert(before[y * target_w + x] == dst@[y * target_w + x]);
                }
                assert forall|x: int| 0 <= x < dx + 1 implies #[trigger] dst@[dy * target_w + x]
                    == binary@[resize_source(x, dy as int, w as int, h as int, target_w as int, target_h as int)] by {
                    if x < dx {
                        assert(before[dy * target_w + x] == dst@[dy * target_w + x]);
                    }
                }
            }
            dx += 1;
        }
        proof {
            assert((dy + 1) * target_w == dy * target_w + target_w) by (nonlinear_arith);
        }
        dy += 1;
    }
    assert(dy * target_w == target_w * target_h) by (nonlinear_arith)
        requires
            dy == target_h,
    ;
    dst
}


/// A logo text whose reduced form names the online mode and a ladder match, and
/// names neither an open match, nor a result, nor freestyle, is the ladder-match
/// scene; without "ladder" or "open" it is the online lobby.
pub proof fn lemma_online_logo_scenes(text: Seq<char>)
    requires
        contains_seq(logo_key(text), "online"@),
        !contains_seq(logo_key(text), "button"@),
        !contains_seq(logo_key(text), "freestyle"@),
        !contains_seq(logo_key(text), "open"@),
    ensures
        contains_seq(logo_key(text), "ladder"@) ==> spec_match_logo_scene(text) == Some(SceneType::LadderMatch),
        !contains_seq(logo_key(text), "ladder"@) && !contains_seq(logo_key(text), "laddermatch"@)
            ==> spec_match_logo_scene(text) == Some(SceneType::Online),
{
    let t = logo_key(text);
    reveal_strlit("button");
    reveal_strlit("buttontunes");
    reveal_strlit("open");
    reveal_strlit("openmatch");
    assert("button"@.is_prefix_of("buttontunes"@));
    assert("open"@.is_prefix_of("openmatch"@));
    lemma_contains_longer(t, "button"@, "buttontunes"@);
    lemma_contains_longer(t, "open"@, "openmatch"@);
}

/// A text that contains `long`, which begins with `short`, contains `short`.
proof fn lemma_contains_longer(t: Seq<char>, short: Seq<char>, long: Seq<char>)
    requires
        short.is_prefix_of(long),
    ensures
        contains_seq(t, long) ==> contains_seq(t, short),
{
    if contains_seq(t, long) {
        let i = choose|i: int| occurs_at(t, long, i);
        assert(t.subrange(i, i + short.len()) =~= long.subrange(0, short.len() as int));
        assert(occurs_at(t, short, i));
    }
}

/// A text that contains the two characters `x` `y` contains `x`.
proof fn lemma_pair_has_first(t: Seq<char>, x: char, y: char)
    ensures
        contains_seq(t, seq![x, y]) ==> t.contains(x),
{
    if contains_seq(t, seq![x, y]) {
        let i = choose|i: int| occurs_at(t, seq![x, y], i);
        assert(t.subrange(i, i + 2)[0] == t[i]);
        assert(t[i] == x);
    }
}

/// The mode read from lower-cased text is named by the first of the digits 4, 5,
/// 6, 8 that occurs in the text, followed by `B`; without any of them there is
/// none.
pub proof fn lemma_mode_names_first_digit(norm: Seq<char>)
    ensures
        spec_mode_from_lowercase(norm) == if norm.contains('4') {
            Some(seq!['4', 'B'])
        } else if norm.contains('5') {
            Some(seq!['5', 'B'])
        } else if norm.contains('6') {
            Some(seq!['6', 'B'])
        } else if norm.contains('8') {
            Some(seq!['8', 'B'])
        } else {
            None::<Seq<char>>
        },
{
    reveal_strlit("4b");
    reveal_strlit("5b");
    reveal_strlit("6b");
    reveal_strlit("8b");
    reveal_strlit("4B");
    reveal_strlit("5B");
    reveal_strlit("6B");
    reveal_strlit("8B");
    assert("4b"@ =~= seq!['4', 'b']);
    assert("5b"@ =~= seq!['5', 'b']);
    assert("6b"@ =~= seq!['6', 'b']);
    assert("8b"@ =~= seq!['8', 'b']);
    assert("4B"@ =~= seq!['4', 'B']);
    assert("5B"@ =~= seq!['5', 'B']);
    assert("6B"@ =~= seq!['6', 'B']);
    assert("8B"@ =~= seq!['8', 'B']);
    lemma_pair_has_first(norm, '4', 'b');
    lemma_pair_has_first(norm, '5', 'b');
    lemma_pair_has_first(norm, '6', 'b');
    lemma_pair_has_first(norm, '8', 'b');
}

} // verus!
