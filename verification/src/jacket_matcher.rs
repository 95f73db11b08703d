use vstd::prelude::*;
use vstd::arithmetic::power2::{pow2, lemma_pow2_unfold, lemma2_to64};

verus! {

/// The number of one bits of `x`.
pub open spec fn popcount(x: u64) -> nat
    decreases x,
{
    if x == 0 {
        0
    } else {
        (x % 2) as nat + popcount(x / 2)
    }
}

proof fn lemma_popcount_bound(x: u64, k: nat)
    requires
        x < pow2(k),
    ensures
        popcount(x) <= k,
    decreases k,
{
    if x != 0 {
        if k == 0 {
            assert(pow2(0) == 1) by {
                lemma2_to64();
            }
        } else {
            lemma_pow2_unfold(k);
            lemma_popcount_bound(x / 2, (k - 1) as nat);
        }
    }
}

/// The number of one bits of `x`, as `u64::count_ones` counts them.
pub fn count_ones(x: u64) -> (res: u32)
    ensures
        res == popcount(x),
        res <= 64,
{
    proof {
        lemma2_to64();
        lemma_popcount_bound(x, 64);
    }
    let mut v = x;
    let mut c: u32 = 0;
    while v != 0
        invariant
            c + popcount(v) == popcount(x),
            popcount(x) <= 64,
        decreases v,
    {
        c = c + (v % 2) as u32;
        v = v / 2;
    }
    c
}

/// The hash bits that jacket matching ignores: the top row (y = 0), the right
/// column (x = 7) and the favourite mark (y = 1, x = 0), bit `8 * y + x` standing
/// for cell (x, y).
pub open spec fn ignored_bit(b: u64) -> bool {
    b < 8 || b % 8 == 7 || b == 8
}

/// The mask of the compared bits of the difference and average hashes: all but
/// the ignored bits, 48 of 64.
pub fn hash_mask() -> (res: u64)
    ensures
        forall|b: u64| b < 64 ==> (((res >> b) & 1 == 0) <==> ignored_bit(b)),
{
    let top_row: u64 = 0xff;
    let right_column: u64 = 0x8080_8080_8080_8080;
    let favourite: u64 = 0x100;
    let mask_bits = top_row | right_column | favourite;
    let res = !mask_bits;
    assert(forall|b: u64| b < 64 ==> (((res >> b) & 1 == 0) <==> (b < 8 || b % 8 == 7 || b == 8)))
        by (bit_vector)
        requires
            res == !(0xffu64 | 0x8080_8080_8080_8080u64 | 0x100u64),
    ;
    res
}

/// Hamming distances above this rule a database entry out before its histogram
/// is looked at.
pub const HAMMING_EARLY_EXIT_THRESHOLD: u32 = 42;

/// The three perceptual hashes of an image: perceptual, difference, average.
#[derive(Clone, Copy, Debug, PartialEq, Eq, Structural)]
pub struct ImageHashes {
    pub phash: u64,
    pub dhash: u64,
    pub ahash: u64,
}

/// The distance of two images by their hashes: all bits of the perceptual hash,
/// and the bits of the difference and average hashes that `mask` keeps.
pub open spec fn spec_hamming_sum(a: ImageHashes, b: ImageHashes, mask: u64) -> nat {
    popcount(a.phash ^ b.phash) + popcount((a.dhash ^ b.dhash) & mask) + popcount(
        (a.ahash ^ b.ahash) & mask,
    )
}

/// The Hamming distance of two images.
pub fn hamming_sum(a: ImageHashes, b: ImageHashes, mask: u64) -> (res: u32)
    ensures
        res == spec_hamming_sum(a, b, mask),
{
    count_ones(a.phash ^ b.phash) + count_ones((a.dhash ^ b.dhash) & mask) + count_ones(
        (a.ahash ^ b.ahash) & mask,
    )
}

/// Whether a database entry at that distance can still match.
pub fn passes_hash_gate(distance: u32) -> (res: bool)
    ensures
        res == (distance <= HAMMING_EARLY_EXIT_THRESHOLD),
{
    distance <= HAMMING_EARLY_EXIT_THRESHOLD
}

/// Sum of the absolute differences of the first `n` values of two histograms.
pub open spec fn spec_hist_sad(a: Seq<u8>, b: Seq<u8>, n: int) -> int
    decreases n,
{
    if n <= 0 {
        0
    } else {
        spec_hist_sad(a, b, n - 1) + if a[n - 1] >= b[n - 1] {
            a[n - 1] - b[n - 1]
        } else {
            b[n - 1] - a[n - 1]
        }
    }
}

/// The number of values compared of two histograms: as many as the shorter has.
pub open spec fn common_len(a: Seq<u8>, b: Seq<u8>) -> int {
    if a.len() <= b.len() {
        a.len() as int
    } else {
        b.len() as int
    }
}

proof fn lemma_hist_sad_grows(a: Seq<u8>, b: Seq<u8>, i: int, n: int)
    requires
        0 <= i <= n,
    ensures
        0 <= spec_hist_sad(a, b, i) <= spec_hist_sad(a, b, n),
    decreases n - i,
{
    if i < n {
        lemma_hist_sad_grows(a, b, i, n - 1);
    } else {
        lemma_hist_sad_nonneg(a, b, n);
    }
}

proof fn lemma_hist_sad_nonneg(a: Seq<u8>, b: Seq<u8>, n: int)
    ensures
        0 <= spec_hist_sad(a, b, n),
    decreases n,
{
    if n > 0 {
        lemma_hist_sad_nonneg(a, b, n - 1);
    }
}

/// The distance of two colour histograms: the sum of the absolute differences
/// of their values, pair by pair.
pub fn hist_sad(a: &[u8], b: &[u8]) -> (res: u32)
    requires
        spec_hist_sad(a@, b@, common_len(a@, b@)) <= u32::MAX,
    ensures
        res == spec_hist_sad(a@, b@, common_len(a@, b@)),
{
    let n = if a.len() <= b.len() {
        a.len()
    } else {
        b.len()
    };
    let mut sum: u32 = 0;
    let mut i: usize = 0;
    while i < n
        invariant
            n == common_len(a@, b@),
            spec_hist_sad(a@, b@, n as int) <= u32::MAX,
            n <= a@.len(),
            n <= b@.len(),
            i <= n,
            sum == spec_hist_sad(a@, b@, i as int),
        decreases n - i,
    {
        proof {
            lemma_hist_sad_grows(a@, b@, i + 1, n as int);
        }
        let d: u32 = if a[i] >= b[i] {
            (a[i] - b[i]) as u32
        } else {
            (b[i] - a[i]) as u32
        };
        sum = sum + d;
        i += 1;
    }
    sum
}

/// Whether a query histogram lies within `max_diff` of the database centroid;
/// without a centroid every query passes.
pub fn centroid_gate(query: &[u8], centroid: Option<&[u8]>, max_diff: u32) -> (res: bool)
    requires
        centroid matches Some(c) ==> spec_hist_sad(query@, c@, common_len(query@, c@)) <= u32::MAX,
    ensures
        res == match centroid {
            None => true,
            Some(c) => spec_hist_sad(query@, c@, common_len(query@, c@)) <= max_diff,
        },
{
    match centroid {
        None => true,
        Some(c) => hist_sad(query, c) <= max_diff,
    }
}

/// How many recently matched entries are remembered.
pub const RECENT_CAPACITY: usize = 8;


/// The entries matched most recently, newest first, each at most once.
pub struct MatchCache {
    recent_indices: Vec<usize>,
}

/// `idx` moved to the front of `recent`, the list cut to the capacity.
pub open spec fn spec_touch(recent: Seq<usize>, idx: usize) -> Seq<usize> {
    let moved = seq![idx] + recent.remove_value(idx);
    if moved.len() > RECENT_CAPACITY {
        moved.take(RECENT_CAPACITY as int)
    } else {
        moved
    }
}

fn position_of(v: &Vec<usize>, x: usize) -> (res: Option<usize>)
    ensures
        match res {
            Some(i) => i < v@.len() && v@[i as int] == x && forall|j: int| 0 <= j < i ==> v@[j] != x,
            None => forall|j: int| 0 <= j < v@.len() ==> v@[j] != x,
        },
{
    let mut pos: usize = 0;
    while pos < v.len()
        invariant
            pos <= v@.len(),
            forall|j: int| 0 <= j < pos ==> v@[j] != x,
        decreases v@.len() - pos,
    {
        if v[pos] == x {
            return Some(pos);
        }
        pos += 1;
    }
    None
}

impl MatchCache {
    /// The remembered entries, newest first.
    pub closed spec fn recent(&self) -> Seq<usize> {
        self.recent_indices@
    }

    /// Nothing remembered.
    pub fn new() -> (res: Self)
        ensures
            res.recent() == Seq::<usize>::empty(),
    {
        MatchCache { recent_indices: Vec::new() }
    }

    /// The remembered entries, newest first.
    pub fn recent_indices(&self) -> (res: Vec<usize>)
        ensures
            res@ == self.recent(),
    {
        self.recent_indices.clone()
    }

    /// Remembers that entry `idx` matched: it moves to the front, and only the
    /// newest entries up to the capacity stay.
    pub fn update(&mut self, idx: usize)
        ensures
            final(self).recent() == spec_touch(old(self).recent(), idx),
    {
        let ghost before = self.recent_indices@;
        let found = position_of(&self.recent_indices, idx);
        if let Some(pos) = found {
            self.recent_indices.remove(pos);
            proof {
                assert(before.index_of_first(idx) == Some(pos as int)) by {
                    before.index_of_first_ensures(idx);
                    match before.index_of_first(idx) {
                        Some(k) => {
                            if k < pos {
                                assert(before[k] != idx);
                            }
                            if k > pos {
                                assert(before[pos as int] == idx);
                            }
                        },
                        None => {
                            assert(before[pos as int] == idx);
                        },
                    }
                }
                assert(self.recent_indices@ =~= before.remove_value(idx));
            }
        } else {
            proof {
                assert(before.index_of_first(idx) is None) by {
                    before.index_of_first_ensures(idx);
                }
                assert(self.recent_indices@ =~= before.remove_value(idx));
            }
        }
        self.recent_indices.insert(0, idx);
        if self.recent_indices.len() > RECENT_CAPACITY {
            self.recent_indices.truncate(RECENT_CAPACITY);
        }
        assert(self.recent_indices@ =~= spec_touch(before, idx));
    }
}

/// Remembering a match puts the entry first, keeps at most the capacity, and
/// keeps every entry at most once where that held before.
pub proof fn lemma_touch_keeps_entries_distinct(recent: Seq<usize>, idx: usize)
    requires
        recent.no_duplicates(),
    ensures
        spec_touch(recent, idx)[0] == idx,
        spec_touch(recent, idx).len() <= RECENT_CAPACITY,
        spec_touch(recent, idx).no_duplicates(),
{
    recent.index_of_first_ensures(idx);
    let r = recent.remove_value(idx);
    assert forall|j: int| 0 <= j < r.len() implies r[j] != idx by {
        match recent.index_of_first(idx) {
            Some(i) => {
                if j < i {
                } else {
                    assert(r[j] == recent[j + 1]);
                    assert(recent[i] == idx);
                }
            },
            None => {
                assert(!recent.contains(idx));
                assert(recent[j] == r[j]);
            },
        }
    }
    assert forall|a: int, b: int| 0 <= a < r.len() && 0 <= b < r.len() && a != b implies r[a]
        != r[b] by {
        match recent.index_of_first(idx) {
            Some(i) => {
                let ra = if a < i { a } else { a + 1 };
                let rb = if b < i { b } else { b + 1 };
                assert(r[a] == recent[ra]);
                assert(r[b] == recent[rb]);
            },
            None => {},
        }
    }
    let moved = seq![idx] + r;
    assert forall|a: int, b: int| 0 <= a < moved.len() && 0 <= b < moved.len() && a != b implies moved[a]
        != moved[b] by {
        if a > 0 && b > 0 {
            assert(moved[a] == r[a - 1]);
            assert(moved[b] == r[b - 1]);
        } else if a == 0 {
            assert(moved[b] == r[b - 1]);
        } else {
            assert(moved[a] == r[a - 1]);
        }
    }
    assert(moved.no_duplicates());
    if moved.len() > RECENT_CAPACITY {
        let t = moved.take(RECENT_CAPACITY as int);
        assert forall|a: int, b: int| 0 <= a < t.len() && 0 <= b < t.len() && a != b implies t[a]
            != t[b] by {
            assert(t[a] == moved[a]);
            assert(t[b] == moved[b]);
        }
    }
}


proof fn lemma_popcount_zero(x: u64)
    ensures
        (popcount(x) == 0) == (x == 0),
    decreases x,
{
    if x != 0 {
        if x % 2 == 0 {
            assert(x / 2 != 0);
            lemma_popcount_zero(x / 2);
        }
    }
}

/// The distance counts differing bits only: two hash sets are at distance zero
/// exactly when their perceptual hashes are equal and their difference and
/// average hashes agree on the masked bits; an image is at distance zero from
/// itself, and the distance does not depend on the order of the two images.
pub proof fn lemma_hamming_sum_is_a_distance(a: ImageHashes, b: ImageHashes, mask: u64)
    ensures
        spec_hamming_sum(a, a, mask) == 0,
        spec_hamming_sum(a, b, mask) == spec_hamming_sum(b, a, mask),
        (spec_hamming_sum(a, b, mask) == 0) == (a.phash == b.phash && a.dhash & mask == b.dhash & mask
            && a.ahash & mask == b.ahash & mask),
{
    let (ap, ad, aa, bp, bd, ba) = (a.phash, a.dhash, a.ahash, b.phash, b.dhash, b.ahash);
    assert(ap ^ ap == 0 && (ad ^ ad) & mask == 0 && (aa ^ aa) & mask == 0) by (bit_vector);
    assert(ap ^ bp == bp ^ ap && (ad ^ bd) & mask == (bd ^ ad) & mask && (aa ^ ba) & mask == (ba ^ aa)
        & mask) by (bit_vector);
    assert((ap ^ bp == 0) == (ap == bp)) by (bit_vector);
    assert(((ad ^ bd) & mask == 0) == (ad & mask == bd & mask)) by (bit_vector);
    assert(((aa ^ ba) & mask == 0) == (aa & mask == ba & mask)) by (bit_vector);
    lemma_popcount_zero(0);
    lemma_popcount_zero(ap ^ bp);
    lemma_popcount_zero((ad ^ bd) & mask);
    lemma_popcount_zero((aa ^ ba) & mask);
}

} // verus!
