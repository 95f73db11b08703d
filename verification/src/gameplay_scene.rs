use vstd::prelude::*;
use crate::geometry::{CapturedFrame, SceneType};
use crate::gameplay::{
    gray_crops, grays_of, interior_stripe, supporting_rows, view_grays, view_of, ImageView, Region,
    INTERIOR_ROWS, INTERIOR_ROWS_MIN, INTERIOR_STEP,
};

verus! {

/// Sum of the first `m` values.
pub open spec fn sum_first(s: Seq<u8>, m: int) -> int
    decreases m,
{
    if m <= 0 {
        0
    } else {
        sum_first(s, m - 1) + s[m - 1]
    }
}

/// Sum of the squares of the first `m` values.
pub open spec fn sq_first(s: Seq<u8>, m: int) -> int
    decreases m,
{
    if m <= 0 {
        0
    } else {
        sq_first(s, m - 1) + s[m - 1] * s[m - 1]
    }
}

/// Sum of the products of the first `m` values of `a` and `b`.
pub open spec fn dot_first(a: Seq<u8>, b: Seq<u8>, m: int) -> int
    decreases m,
{
    if m <= 0 {
        0
    } else {
        dot_first(a, b, m - 1) + a[m - 1] * b[m - 1]
    }
}

proof fn lemma_sums_bounded(a: Seq<u8>, b: Seq<u8>, m: int)
    requires
        0 <= m,
    ensures
        0 <= sum_first(a, m) <= 255 * m,
        0 <= sq_first(a, m) <= 65025 * m,
        0 <= dot_first(a, b, m) <= 65025 * m,
    decreases m,
{
    if m > 0 {
        lemma_sums_bounded(a, b, m - 1);
        let x = a[m - 1];
        let y = b[m - 1];
        assert(0 <= x * x <= 65025) by (nonlinear_arith)
            requires
                0 <= x <= 255,
        ;
        assert(0 <= x * y <= 65025) by (nonlinear_arith)
            requires
                0 <= x <= 255,
                0 <= y <= 255,
        ;
    }
}

proof fn lemma_sums_grow(a: Seq<u8>, b: Seq<u8>, i: int, m: int)
    requires
        0 <= i <= m,
    ensures
        sum_first(a, i) <= sum_first(a, m),
        sq_first(a, i) <= sq_first(a, m),
        dot_first(a, b, i) <= dot_first(a, b, m),
    decreases m - i,
{
    if i < m {
        lemma_sums_grow(a, b, i, m - 1);
        let x = a[m - 1];
        let y = b[m - 1];
        assert(0 <= x * x) by (nonlinear_arith);
        assert(0 <= x * y) by (nonlinear_arith)
            requires
                0 <= x,
                0 <= y,
        ;
    }
}

/// A template can be summed in 64-bit arithmetic.
pub open spec fn template_fits(t: Seq<u8>) -> bool {
    let n = t.len() as int;
    &&& n <= i64::MAX
    &&& n * sq_first(t, n) <= i64::MAX
    &&& sum_first(t, n) * sum_first(t, n) <= i64::MAX
}

/// The statistics of `pixels` against the template `t`, as `ShapeTemplate::hit`
/// computes them: count, sums, sums of squares, dot product, both centred
/// variances (times `n * n`) and the centred covariance (times `n * n`).
pub open spec fn pixel_count(p: Seq<u8>) -> int {
    p.len() as int
}

pub open spec fn variance_n2(p: Seq<u8>, m: int) -> int {
    pixel_count(p) * sq_first(p, m) - sum_first(p, m) * sum_first(p, m)
}

pub open spec fn covariance_n2(p: Seq<u8>, t: Seq<u8>, m: int) -> int {
    pixel_count(p) * dot_first(p, t, m) - sum_first(p, m) * sum_first(t, t.len() as int)
}

/// `hit` stays within 64-bit arithmetic on `pixels`.
pub open spec fn hit_fits(p: Seq<u8>, t: Seq<u8>) -> bool {
    let n = pixel_count(p);
    let m = if p.len() <= t.len() { p.len() as int } else { t.len() as int };
    let tn = t.len() as int;
    &&& n <= i64::MAX
    &&& sum_first(p, m) * sum_first(p, m) <= i64::MAX
    &&& n * sq_first(p, m) <= i64::MAX
    &&& dot_first(p, t, m) <= i64::MAX
    &&& p.len() == t.len() ==> n * n <= i64::MAX
    &&& (p.len() == t.len() && variance_n2(p, m) >= n * n && tn * sq_first(t, tn) - sum_first(t, tn)
        * sum_first(t, tn) >= n * n) ==> n * dot_first(p, t, m) <= i64::MAX && sum_first(p, m)
        * sum_first(t, tn) <= i64::MAX
}

/// The pixels match the template: both have as many values and vary (each
/// centred variance is at least one, in units of `1 / (n * n)`), and their
/// correlation is at least 0.95, that is, the covariance is positive and its
/// square is at least 0.9025 times the product of the variances.
pub open spec fn correlation_hit(p: Seq<u8>, t: Seq<u8>) -> bool {
    let n = pixel_count(p);
    let tn = t.len() as int;
    let v = variance_n2(p, n);
    let c = tn * sq_first(t, tn) - sum_first(t, tn) * sum_first(t, tn);
    let num = covariance_n2(p, t, n);
    &&& p.len() == t.len()
    &&& v >= n * n
    &&& c >= n * n
    &&& num > 0
    &&& 400 * (num * num) >= 361 * (v * c)
}

proof fn lemma_ratio_threshold(a: int, p: int)
    requires
        a >= 0,
        p >= 0,
    ensures
        (a * a >= 361 * (p / 400) + (361 * (p % 400) + 399) / 400) == (400 * (a * a) >= 361 * p),
{
    let q = p / 400;
    let r = p % 400;
    let k = a * a - 361 * q;
    assert(p == 400 * q + r);
    assert(0 <= r < 400);
    let x = 361 * r;
    assert(0 <= x);
    let c = (x + 399) / 400;
    assert(400 * c <= x + 399 && x + 399 < 400 * c + 400);
    assert(400 * (a * a) >= 361 * p <==> 400 * k >= x) by (nonlinear_arith)
        requires
            p == 400 * q + r,
            k == a * a - 361 * q,
            x == 361 * r,
    ;
    assert(400 * k >= x <==> k >= c) by (nonlinear_arith)
        requires
            400 * c <= x + 399,
            x + 399 < 400 * c + 400,
    ;
}

/// A title template of the pause screen, with its sum and centred square sum.
pub struct ShapeTemplate {
    bytes: Vec<u8>,
    sum: i64,
    centered_square: i64,
}

impl ShapeTemplate {
    #[verifier::type_invariant]
    spec fn consistent(self) -> bool {
        let n = self.bytes@.len() as int;
        &&& self.sum == sum_first(self.bytes@, n)
        &&& self.centered_square == n * sq_first(self.bytes@, n) - sum_first(self.bytes@, n)
            * sum_first(self.bytes@, n)
    }

    /// The luma values of the template.
    pub closed spec fn shape(&self) -> Seq<u8> {
        self.bytes@
    }

    /// The template of the luma values `bytes`.
    pub fn new(bytes: Vec<u8>) -> (res: Self)
        requires
            template_fits(bytes@),
        ensures
            res.shape() == bytes@,
    {
        let n = bytes.len();
        let mut sum: i64 = 0;
        let mut square: i64 = 0;
        let mut i: usize = 0;
        proof {
            lemma_sums_bounded(bytes@, bytes@, n as int);
        }
        while i < n
            invariant
                n == bytes@.len(),
                template_fits(bytes@),
                i <= n,
                sum == sum_first(bytes@, i as int),
                square == sq_first(bytes@, i as int),
            decreases n - i,
        {
            proof {
                lemma_sums_grow(bytes@, bytes@, i + 1, n as int);
                lemma_sums_bounded(bytes@, bytes@, n as int);
                let s = sum_first(bytes@, n as int);
                let q = sq_first(bytes@, n as int);
                assert(s <= i64::MAX) by (nonlinear_arith)
                    requires
                        s * s <= i64::MAX,
                        s >= 0,
                ;
                assert(q <= i64::MAX) by (nonlinear_arith)
                    requires
                        n * q <= i64::MAX,
                        q >= 0,
                        n >= 1,
                ;
            }
            let v = bytes[i] as i64;
            assert(0 <= v * v <= 65025) by (nonlinear_arith)
                requires
                    0 <= v <= 255,
            ;
            sum = sum + v;
            square = square + v * v;
            i += 1;
        }
        let len = n as i64;
        let centered_square = len * square - sum * sum;
        ShapeTemplate { bytes, sum, centered_square }
    }

    /// Whether `pixels` show the template.
    pub fn hit(&self, pixels: &[u8]) -> (res: bool)
        requires
            hit_fits(pixels@, self.shape()),
        ensures
            res == correlation_hit(pixels@, self.shape()),
    {
        proof {
            use_type_invariant(self);
        }
        let ghost p = pixels@;
        let ghost t = self.bytes@;
        let plen = pixels.len();
        let tlen = self.bytes.len();
        let m = if plen <= tlen {
            plen
        } else {
            tlen
        };
        let mut sum: i64 = 0;
        let mut square: i64 = 0;
        let mut dot: i64 = 0;
        let mut i: usize = 0;
        while i < m
            invariant
                p == pixels@,
                t == self.bytes@,
                plen == p.len(),
                tlen == t.len(),
                m == (if plen <= tlen { plen } else { tlen }),
                hit_fits(p, t),
                i <= m,
                sum == sum_first(p, i as int),
                square == sq_first(p, i as int),
                dot == dot_first(p, t, i as int),
            decreases m - i,
        {
            proof {
                lemma_sums_grow(p, t, i + 1, m as int);
                lemma_sums_bounded(p, t, m as int);
                let s = sum_first(p, m as int);
                let q = sq_first(p, m as int);
                assert(s <= i64::MAX) by (nonlinear_arith)
                    requires
                        s * s <= i64::MAX,
                        s >= 0,
                ;
                assert(q <= i64::MAX) by (nonlinear_arith)
                    requires
                        plen * q <= i64::MAX,
                        q >= 0,
                        plen >= m,
                        m >= 1,
                ;
            }
            let x = pixels[i] as i64;
            let y = self.bytes[i] as i64;
            assert(0 <= x * x <= 65025 && 0 <= x * y <= 65025) by (nonlinear_arith)
                requires
                    0 <= x <= 255,
                    0 <= y <= 255,
            ;
            sum = sum + x;
            square = square + x * x;
            dot = dot + x * y;
            i += 1;
        }
        proof {
            lemma_sums_bounded(p, t, m as int);
            assert(0 <= plen * square) by (nonlinear_arith)
                requires
                    square >= 0,
            ;
            assert(0 <= sum * sum) by (nonlinear_arith);
        }
        let n = plen as i64;
        let variance = n * square - sum * sum;
        if plen != tlen || variance < n * n || self.centered_square < n * n {
            return false;
        }
        proof {
            lemma_sums_bounded(t, t, tlen as int);
            assert(0 <= plen * dot) by (nonlinear_arith)
                requires
                    dot >= 0,
            ;
            assert(0 <= sum * self.sum) by (nonlinear_arith)
                requires
                    sum >= 0,
                    self.sum >= 0,
            ;
        }
        let num = n * dot - sum * self.sum;
        if num <= 0 {
            return false;
        }
        let a = num as u128;
        proof {
            assert(0 <= variance * self.centered_square <= (i64::MAX as int) * (i64::MAX as int))
                by (nonlinear_arith)
                requires
                    0 <= variance <= i64::MAX,
                    0 <= self.centered_square <= i64::MAX,
            ;
            assert(a * a <= (i64::MAX as int) * (i64::MAX as int)) by (nonlinear_arith)
                requires
                    0 <= a <= i64::MAX,
            ;
            assert(0 <= n * n) by (nonlinear_arith);
        }
        let prod = (variance as u128) * (self.centered_square as u128);
        let threshold = 361 * (prod / 400) + (361 * (prod % 400) + 399) / 400;
        proof {
            lemma_ratio_threshold(a as int, prod as int);
            assert(m == plen);
        }
        a * a >= threshold
    }
}

/// Reads the gameplay and pause screens from the pixels of fixed crops.
pub struct PixelReader {
    gray: Vec<u8>,
    title: Vec<ShapeTemplate>,
}

/// The edge crops of a gear show the gear frame.
pub open spec fn stripe(r: Region) -> bool {
    supporting_rows(r, INTERIOR_ROWS as int) >= INTERIOR_ROWS_MIN
}

/// The scene that the seven crops show: the pause title (crop 6) matched by one
/// of the `titles`, else gameplay where both edge crops of one gear placement
/// (crops 0 and 1, 2 and 3, or 4 and 5) show the gear frame, else nothing known.
pub open spec fn scene_of_crops(crops: Seq<Region>, titles: Seq<Seq<u8>>) -> SceneType {
    if exists|i: int| 0 <= i < titles.len() && correlation_hit(view_grays(crops[6]), #[trigger] titles[i]) {
        SceneType::Paused
    } else if (stripe(crops[0]) && stripe(crops[1])) || (stripe(crops[2]) && stripe(crops[3])) || (
    stripe(crops[4]) && stripe(crops[5])) {
        SceneType::Gameplay
    } else {
        SceneType::Unknown
    }
}

/// The regions of an array of views.
pub open spec fn regions(crops: Seq<ImageView>) -> Seq<Region> {
    crops.map_values(|v: ImageView| v.region())
}

impl PixelReader {
    /// The title templates.
    pub closed spec fn titles(&self) -> Seq<Seq<u8>> {
        self.title@.map_values(|t: ShapeTemplate| t.shape())
    }

    /// A reader that recognises the pause title by the templates `title`.
    pub fn new(title: Vec<ShapeTemplate>) -> (res: Self)
        ensures
            res.titles() == title@.map_values(|t: ShapeTemplate| t.shape()),
    {
        PixelReader { gray: Vec::new(), title }
    }

    /// The scene that the crops show.
    pub fn read(&mut self, crops: &[ImageView; 7]) -> (res: SceneType)
        requires
            forall|k: int| 0 <= k < 7 ==> (#[trigger] crops@[k]).well_formed(),
            forall|k: int|
                0 <= k < 6 ==> (#[trigger] crops@[k]).height > (INTERIOR_ROWS - 1) * INTERIOR_STEP,
            forall|i: int|
                0 <= i < old(self).titles().len() ==> hit_fits(
                    view_grays(crops@[6].region()),
                    #[trigger] old(self).titles()[i],
                ),
        ensures
            final(self).titles() == old(self).titles(),
            res == scene_of_crops(regions(crops@), old(self).titles()),
    {
        let title_crop = [crops[6]];
        gray_crops(&title_crop, &mut self.gray);
        proof {
            let rs = title_crop@.map_values(|v: ImageView| v.region());
            assert(title_crop@.len() == 1);
            assert(title_crop@[0] == crops@[6]);
            assert(rs.drop_last() =~= Seq::<Region>::empty());
            assert(rs.last() == crops@[6].region());
            assert(grays_of(rs.drop_last()) =~= Seq::<u8>::empty());
            assert(Seq::<u8>::empty() + view_grays(crops@[6].region()) =~= view_grays(crops@[6].region()));
            assert(grays_of(rs) == view_grays(crops@[6].region()));
        }
        let ghost titles = self.titles();
        let mut i: usize = 0;
        while i < self.title.len()
            invariant
                self.title == old(self).title,
                titles == old(self).titles(),
                titles == self.title@.map_values(|t: ShapeTemplate| t.shape()),
                self.gray@ == view_grays(crops@[6].region()),
                forall|j: int| 0 <= j < titles.len() ==> hit_fits(self.gray@, #[trigger] titles[j]),
                i <= self.title@.len(),
                forall|j: int| 0 <= j < i ==> !correlation_hit(self.gray@, #[trigger] titles[j]),
            decreases self.title@.len() - i,
        {
            assert(titles[i as int] == self.title@[i as int].shape());
            if self.title[i].hit(self.gray.as_slice()) {
                assert(correlation_hit(view_grays(regions(crops@)[6]), titles[i as int]));
                return SceneType::Paused;
            }
            i += 1;
        }
        assert(regions(crops@)[6] == crops@[6].region());
        assert(regions(crops@)[0] == crops@[0].region());
        assert(regions(crops@)[1] == crops@[1].region());
        assert(regions(crops@)[2] == crops@[2].region());
        assert(regions(crops@)[3] == crops@[3].region());
        assert(regions(crops@)[4] == crops@[4].region());
        assert(regions(crops@)[5] == crops@[5].region());
        if interior_stripe(&crops[0]) && interior_stripe(&crops[1]) {
            return SceneType::Gameplay;
        }
        if interior_stripe(&crops[2]) && interior_stripe(&crops[3]) {
            return SceneType::Gameplay;
        }
        if interior_stripe(&crops[4]) && interior_stripe(&crops[5]) {
            return SceneType::Gameplay;
        }
        SceneType::Unknown
    }
}

/// The crops that the gameplay reader takes of a 1080p frame, as (x, y, width,
/// height): the two edges of the gear at its centre, left and right placements,
/// then the title of the pause screen.
pub open spec fn gameplay_rect(k: int) -> (int, int, int, int) {
    if k == 0 {
        (702, 80, 7, 257)
    } else if k == 1 {
        (1211, 80, 7, 257)
    } else if k == 2 {
        (102, 80, 7, 257)
    } else if k == 3 {
        (611, 80, 7, 257)
    } else if k == 4 {
        (1342, 80, 7, 257)
    } else if k == 5 {
        (1851, 80, 7, 257)
    } else {
        (731, 177, 148, 28)
    }
}

/// The regions of a 1080p frame with pixel bytes `bytes` that the reader crops.
pub open spec fn frame_regions(bytes: Seq<u8>) -> Seq<Region> {
    Seq::new(
        7,
        |k: int|
            Region {
                bytes,
                offset: (gameplay_rect(k).1 * 1920 + gameplay_rect(k).0) * 4,
                stride: 7680int,
                width: gameplay_rect(k).2,
                height: gameplay_rect(k).3,
            },
    )
}

proof fn lemma_title_crop_fits(p: Seq<u8>, t: Seq<u8>)
    requires
        p.len() == 4144,
    ensures
        hit_fits(p, t),
{
    let n = p.len() as int;
    let m = if p.len() <= t.len() { p.len() as int } else { t.len() as int };
    let tn = t.len() as int;
    lemma_sums_bounded(p, t, m);
    let s = sum_first(p, m);
    let q = sq_first(p, m);
    let d = dot_first(p, t, m);
    assert(s * s <= 1056720 * 1056720) by (nonlinear_arith)
        requires
            0 <= s <= 255 * m,
            m <= 4144,
    ;
    assert(n * q <= 4144 * (65025 * 4144)) by (nonlinear_arith)
        requires
            0 <= q <= 65025 * m,
            m <= 4144,
            n == 4144,
    ;
    assert(n * d <= 4144 * (65025 * 4144)) by (nonlinear_arith)
        requires
            0 <= d <= 65025 * m,
            m <= 4144,
            n == 4144,
    ;
    if p.len() == t.len() {
        lemma_sums_bounded(t, t, tn);
        let ts = sum_first(t, tn);
        assert(s * ts <= 1056720 * 1056720) by (nonlinear_arith)
            requires
                0 <= s <= 255 * m,
                0 <= ts <= 255 * tn,
                m <= 4144,
                tn == 4144,
        ;
    }
}

/// Reads the gameplay and pause screens of full 1080p frames.
pub struct GameplaySceneReader {
    pixels: PixelReader,
}

impl GameplaySceneReader {
    /// The pause title templates.
    pub closed spec fn titles(&self) -> Seq<Seq<u8>> {
        self.pixels.titles()
    }

    /// A reader that recognises the pause title by the templates `title`.
    pub fn new(title: Vec<ShapeTemplate>) -> (res: Self)
        ensures
            res.titles() == title@.map_values(|t: ShapeTemplate| t.shape()),
    {
        GameplaySceneReader { pixels: PixelReader::new(title) }
    }

    /// The reader needs a complete 1080p frame.
    pub fn supports_frame(frame: &CapturedFrame) -> (res: bool)
        ensures
            res == (frame.width == 1920 && frame.height == 1080 && frame.bgra@.len() == 1920 * 1080 * 4),
    {
        frame.width == 1920 && frame.height == 1080 && frame.bgra.len() == 1920 * 1080 * 4
    }

    /// The scene a frame shows: nothing known where the frame is not a complete
    /// 1080p frame; otherwise what its crops show.
    pub fn read(&mut self, frame: &CapturedFrame) -> (res: SceneType)
        ensures
            final(self).titles() == old(self).titles(),
            !(frame.width == 1920 && frame.height == 1080 && frame.bgra@.len() == 1920 * 1080 * 4)
                ==> res == SceneType::Unknown,
            (frame.width == 1920 && frame.height == 1080 && frame.bgra@.len() == 1920 * 1080 * 4)
                ==> res == scene_of_crops(frame_regions(frame.bgra@), old(self).titles()),
    {
        if !Self::supports_frame(frame) {
            return SceneType::Unknown;
        }
        let c0 = view_of(frame, 702, 80, 7, 257);
        let c1 = view_of(frame, 1211, 80, 7, 257);
        let c2 = view_of(frame, 102, 80, 7, 257);
        let c3 = view_of(frame, 611, 80, 7, 257);
        let c4 = view_of(frame, 1342, 80, 7, 257);
        let c5 = view_of(frame, 1851, 80, 7, 257);
        let c6 = view_of(frame, 731, 177, 148, 28);
        let crops = [c0, c1, c2, c3, c4, c5, c6];
        proof {
            assert(regions(crops@) =~= frame_regions(frame.bgra@));
            assert forall|i: int| 0 <= i < self.pixels.titles().len() implies hit_fits(
                view_grays(crops@[6].region()),
                #[trigger] self.pixels.titles()[i],
            ) by {
                lemma_title_crop_fits(view_grays(crops@[6].region()), self.pixels.titles()[i]);
            }
        }
        self.pixels.read(&crops)
    }
}

} // verus!
