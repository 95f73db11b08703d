use vstd::prelude::*;
use crate::geometry::CapturedFrame;

verus! {

/// Minimum per-channel spread for a sampled row to show the gear frame.
pub const INTERIOR_RANGE_MIN: u8 = 15;

/// Rows between two sampled rows of a gear-edge crop.
pub const INTERIOR_STEP: usize = 32;

/// Number of sampled rows of a gear-edge crop.
pub const INTERIOR_ROWS: usize = 9;

/// Sampled rows that must show the frame.
pub const INTERIOR_ROWS_MIN: usize = 7;

/// Luma of a BGRA pixel, in fixed point: (77 R + 150 G + 29 B + 128) / 256.
pub open spec fn spec_gray(b: u8, g: u8, r: u8) -> u8 {
    ((77 * r + 150 * g + 29 * b + 128) / 256) as u8
}

fn luma(b: u8, g: u8, r: u8) -> (res: u8)
    ensures
        res == spec_gray(b, g, r),
{
    let v: u32 = 77 * (r as u32) + 150 * (g as u32) + 29 * (b as u32) + 128;
    assert(v >> 8u32 == v / 256) by (bit_vector);
    (v >> 8u32) as u8
}

/// Luma of the BGRA pixel whose bytes start `pixel`.
pub fn gray(pixel: &[u8]) -> (res: u8)
    requires
        pixel@.len() >= 3,
    ensures
        res == spec_gray(pixel@[0], pixel@[1], pixel@[2]),
{
    luma(pixel[0], pixel[1], pixel[2])
}

/// A rectangle of a BGRA image: row `y` starts `offset + y * stride` bytes into
/// `bgra` and holds `width` pixels.
#[derive(Clone, Copy)]
pub struct ImageView<'a> {
    pub bgra: &'a [u8],
    pub offset: usize,
    pub stride: usize,
    pub width: usize,
    pub height: usize,
}

/// What a view shows: the bytes of the image and where the view's rows lie in
/// them.
pub struct Region {
    pub bytes: Seq<u8>,
    pub offset: int,
    pub stride: int,
    pub width: int,
    pub height: int,
}

impl Region {
    /// Byte `i` of row `y`.
    pub open spec fn byte(self, y: int, i: int) -> u8 {
        self.bytes[self.offset + y * self.stride + i]
    }
}

impl<'a> ImageView<'a> {
    /// What the view shows.
    pub open spec fn region(&self) -> Region {
        Region {
            bytes: self.bgra@,
            offset: self.offset as int,
            stride: self.stride as int,
            width: self.width as int,
            height: self.height as int,
        }
    }

    /// Every row of the view lies inside the image.
    pub open spec fn well_formed(&self) -> bool {
        &&& self.width * 4 <= self.stride
        &&& self.height > 0 ==> self.offset + (self.height - 1) * self.stride + self.width * 4
            <= self.bgra@.len()
    }

    /// Byte `i` of row `y`.
    pub open spec fn byte(&self, y: int, i: int) -> u8 {
        self.bgra@[self.offset + y * self.stride + i]
    }
}

/// The view of the rectangle with top-left corner (`x`, `y`) and size `w` x `h`
/// of a frame.
pub fn view_of<'a>(frame: &'a CapturedFrame, x: usize, y: usize, w: usize, h: usize) -> (res: ImageView<'a>)
    requires
        frame.well_formed(),
        w > 0,
        h > 0,
        x + w <= frame.width,
        y + h <= frame.height,
    ensures
        res.well_formed(),
        res.width == w,
        res.height == h,
        res.stride == frame.width * 4,
        res.offset == (y * frame.width + x) * 4,
        res.bgra@ == frame.bgra@,
{
    let fw: usize = frame.width as usize;
    let fh: usize = frame.height as usize;
    let len: usize = frame.bgra.len();
    proof {
        assert(y * fw + x + (h - 1) * fw + w <= fh * fw) by (nonlinear_arith)
            requires y + h <= fh, x + w <= fw, h > 0, w > 0, x >= 0, y >= 0;
        assert(len == fw * fh * 4) by (nonlinear_arith)
            requires len == frame.width * frame.height * 4, fw == frame.width, fh == frame.height;
        assert(fh * fw == fw * fh) by (nonlinear_arith);
        assert((y * fw + x) * 4 + (h - 1) * (fw * 4) + w * 4 == (y * fw + x + (h - 1) * fw + w) * 4) by (nonlinear_arith);
        assert(0 <= (h - 1) * (fw * 4)) by (nonlinear_arith)
            requires h > 0;
        assert(0 <= y * fw) by (nonlinear_arith)
            requires y >= 0;
        assert(fw * 4 <= fw * fh * 4) by (nonlinear_arith)
            requires fh >= 1;
    }
    ImageView { bgra: frame.bgra.as_slice(), offset: (y * fw + x) * 4, stride: fw * 4, width: w, height: h }
}

/// Smallest value of channel `c` over the first `n` pixels of row `y`.
pub open spec fn row_min(v: Region, y: int, c: int, n: int) -> u8
    decreases n,
{
    if n <= 0 {
        u8::MAX
    } else {
        let m = row_min(v, y, c, n - 1);
        let b = v.byte(y, (n - 1) * 4 + c);
        if b < m { b } else { m }
    }
}

/// Largest value of channel `c` over the first `n` pixels of row `y`.
pub open spec fn row_max(v: Region, y: int, c: int, n: int) -> u8
    decreases n,
{
    if n <= 0 {
        u8::MIN
    } else {
        let m = row_max(v, y, c, n - 1);
        let b = v.byte(y, (n - 1) * 4 + c);
        if b > m { b } else { m }
    }
}

/// Sampled row `k` shows the gear frame: some colour channel spreads by at least
/// the minimum range across the row.
pub open spec fn row_supports(v: Region, k: int) -> bool {
    let y = k * INTERIOR_STEP;
    exists|c: int| 0 <= c < 3
        && #[trigger] row_max(v, y, c, v.width) >= row_min(v, y, c, v.width) + INTERIOR_RANGE_MIN
}

/// Number of supporting rows among the first `n` sampled rows.
pub open spec fn supporting_rows(v: Region, n: int) -> int
    decreases n,
{
    if n <= 0 {
        0
    } else {
        supporting_rows(v, n - 1) + if row_supports(v, n - 1) { 1int } else { 0 }
    }
}

proof fn lemma_supporting_rows_step(v: Region, n: int)
    requires
        n >= 0,
    ensures
        supporting_rows(v, n) <= n,
        supporting_rows(v, n) >= 0,
    decreases n,
{
    if n > 0 {
        lemma_supporting_rows_step(v, n - 1);
    }
}

proof fn lemma_supporting_rows_mono(v: Region, a: int, b: int)
    requires
        0 <= a <= b,
    ensures
        supporting_rows(v, a) <= supporting_rows(v, b),
        supporting_rows(v, b) <= supporting_rows(v, a) + (b - a),
    decreases b - a,
{
    if a < b {
        lemma_supporting_rows_mono(v, a, b - 1);
    }
}

/// Channel spread test of one sampled row.
fn row_has_range(crop: &ImageView, y: usize) -> (res: bool)
    requires
        crop.well_formed(),
        y < crop.height,
    ensures
        res == exists|c: int| 0 <= c < 3
            && #[trigger] row_max(crop.region(), y as int, c, crop.region().width)
                >= row_min(crop.region(), y as int, c, crop.region().width) + INTERIOR_RANGE_MIN,
{
    proof {
        assert(crop.offset + y * crop.stride + crop.width * 4 <= crop.bgra@.len()) by (nonlinear_arith)
            requires y < crop.height, crop.offset + (crop.height - 1) * crop.stride + crop.width * 4
                <= crop.bgra@.len(), crop.stride >= 0;
    }
    let bl: usize = crop.bgra.len();
    proof {
        assert(0 <= y * crop.stride) by (nonlinear_arith);
    }
    let base: usize = crop.offset + y * crop.stride;
    let mut low: [u8; 3] = [u8::MAX; 3];
    let mut high: [u8; 3] = [u8::MIN; 3];
    let mut x: usize = 0;
    while x < crop.width
        invariant
            crop.well_formed(),
            x <= crop.width,
            base == crop.offset + y * crop.stride,
            base + crop.width * 4 <= crop.bgra@.len(),
            bl == crop.bgra@.len(),
            forall|c: int| 0 <= c < 3 ==> low@[c] == row_min(crop.region(), y as int, c, x as int)
                && high@[c] == row_max(crop.region(), y as int, c, x as int),
        decreases crop.width - x,
    {
        let mut c: usize = 0;
        while c < 3
            invariant
                crop.well_formed(),
                x < crop.width,
                c <= 3,
                base == crop.offset + y * crop.stride,
                base + crop.width * 4 <= crop.bgra@.len(),
                bl == crop.bgra@.len(),
                forall|k: int| 0 <= k < c ==> low@[k] == row_min(crop.region(), y as int, k, x + 1)
                    && high@[k] == row_max(crop.region(), y as int, k, x + 1),
                forall|k: int| c <= k < 3 ==> low@[k] == row_min(crop.region(), y as int, k, x as int)
                    && high@[k] == row_max(crop.region(), y as int, k, x as int),
            decreases 3 - c,
        {
            let b = crop.bgra[base + x * 4 + c];
            if b < low[c] {
                low[c] = b;
            }
            if b > high[c] {
                high[c] = b;
            }
            c += 1;
        }
        x += 1;
    }
    let mut c: usize = 0;
    while c < 3
        invariant
            c <= 3,
            forall|k: int| 0 <= k < 3 ==> low@[k] == row_min(crop.region(), y as int, k, crop.region().width)
                && high@[k] == row_max(crop.region(), y as int, k, crop.region().width),
            forall|k: int| 0 <= k < c ==> !(high@[k] >= low@[k] + INTERIOR_RANGE_MIN),
        decreases 3 - c,
    {
        if high[c] >= low[c] && high[c] - low[c] >= INTERIOR_RANGE_MIN {
            return true;
        }
        c += 1;
    }
    assert(!(high@[0] >= low@[0] + INTERIOR_RANGE_MIN));
    assert(!(high@[1] >= low@[1] + INTERIOR_RANGE_MIN));
    assert(!(high@[2] >= low@[2] + INTERIOR_RANGE_MIN));
    false
}

/// The crop of one gear edge shows the gear frame: at least 7 of the 9 sampled
/// rows (32 rows apart) have a colour channel spreading by at least 15. A few
/// strong letters or effects cannot make up for rows without the frame.
pub fn interior_stripe(crop: &ImageView) -> (res: bool)
    requires
        crop.well_formed(),
        crop.height > (INTERIOR_ROWS - 1) * INTERIOR_STEP,
    ensures
        res == (supporting_rows(crop.region(), INTERIOR_ROWS as int) >= INTERIOR_ROWS_MIN),
{
    let mut supporting: usize = 0;
    let mut row: usize = 0;
    while row < INTERIOR_ROWS
        invariant
            crop.well_formed(),
            crop.height > (INTERIOR_ROWS - 1) * INTERIOR_STEP,
            row <= INTERIOR_ROWS,
            supporting == supporting_rows(crop.region(), row as int),
            supporting < INTERIOR_ROWS_MIN,
            supporting + INTERIOR_ROWS - row >= INTERIOR_ROWS_MIN,
        decreases INTERIOR_ROWS - row,
    {
        proof {
            lemma_supporting_rows_step(crop.region(), row as int);
        }
        if row_has_range(crop, row * INTERIOR_STEP) {
            supporting += 1;
        }
        if supporting >= INTERIOR_ROWS_MIN {
            proof {
                lemma_supporting_rows_mono(crop.region(), row + 1, INTERIOR_ROWS as int);
            }
            return true;
        }
        if supporting + INTERIOR_ROWS - row - 1 < INTERIOR_ROWS_MIN {
            proof {
                lemma_supporting_rows_mono(crop.region(), row + 1, INTERIOR_ROWS as int);
            }
            return false;
        }
        row += 1;
    }
    false
}

/// Frames that the gameplay templates can read: a complete atlas (512 x 512) or a
/// complete 1080p frame, whose buffer holds exactly its pixels.
pub fn supports_frame(frame: &CapturedFrame) -> (res: bool)
    ensures
        res == (((frame.width == 512 && frame.height == 512) || (frame.width == 1920 && frame.height == 1080))
            && frame.bgra@.len() == frame.width * frame.height * 4),
{
    if !((frame.width == 512 && frame.height == 512) || (frame.width == 1920 && frame.height == 1080)) {
        return false;
    }
    let expected: usize = (frame.width as usize) * (frame.height as usize) * 4;
    frame.bgra.len() == expected
}

/// Luma of the pixel (`x`, `y`) of a view.
pub open spec fn pixel_gray(v: Region, x: int, y: int) -> u8 {
    spec_gray(v.byte(y, x * 4), v.byte(y, x * 4 + 1), v.byte(y, x * 4 + 2))
}

/// The lumas of the pixels of a view, row by row.
pub open spec fn view_grays(v: Region) -> Seq<u8> {
    Seq::new(
        (v.width * v.height) as nat,
        |i: int| pixel_gray(v, i % v.width, i / v.width),
    )
}

/// The lumas of the pixels of the views, one view after the other.
pub open spec fn grays_of(crops: Seq<Region>) -> Seq<u8>
    decreases crops.len(),
{
    if crops.len() == 0 {
        Seq::empty()
    } else {
        grays_of(crops.drop_last()) + view_grays(crops.last())
    }
}

fn append_grays(crop: &ImageView, out: &mut Vec<u8>)
    requires
        crop.well_formed(),
    ensures
        final(out)@ == old(out)@ + view_grays(crop.region()),
{
    let w = crop.width;
    let h = crop.height;
    let ghost start = out@;
    let ghost g = view_grays(crop.region());
    let bl = crop.bgra.len();
    let mut y: usize = 0;
    proof {
        assert(0 <= w * h) by (nonlinear_arith);
        assert(g.take(0) =~= Seq::<u8>::empty());
        assert(start + g.take(0) =~= start);
    }
    while y < h
        invariant
            crop.well_formed(),
            w == crop.width,
            h == crop.height,
            bl == crop.bgra@.len(),
            g == view_grays(crop.region()),
            y <= h,
            y * w <= w * h,
            out@ == start + g.take((y * w) as int),
        decreases h - y,
    {
        proof {
            assert(y * crop.stride <= (h - 1) * crop.stride) by (nonlinear_arith)
                requires
                    y < h,
            ;
            assert(0 <= y * crop.stride) by (nonlinear_arith);
            assert((y + 1) * w <= w * h) by (nonlinear_arith)
                requires
                    y < h,
            ;
            assert((y + 1) * w == y * w + w) by (nonlinear_arith);
        }
        let row: usize = crop.offset + y * crop.stride;
        let mut x: usize = 0;
        while x < w
            invariant
                crop.well_formed(),
                w == crop.width,
                h == crop.height,
                bl == crop.bgra@.len(),
                g == view_grays(crop.region()),
                y < h,
                row == crop.offset + y * crop.stride,
                row + w * 4 <= bl,
                x <= w,
                (y + 1) * w <= w * h,
                (y + 1) * w == y * w + w,
                out@ == start + g.take((y * w + x) as int),
            decreases w - x,
        {
            let base = row + x * 4;
            let p = luma(crop.bgra[base], crop.bgra[base + 1], crop.bgra[base + 2]);
            proof {
                let i = (y * w + x) as int;
                vstd::arithmetic::div_mod::lemma_fundamental_div_mod_converse(i, w as int, y as int, x as int);
                assert(g[i] == p);
                assert(g.take(i + 1) =~= g.take(i).push(p));
            }
            out.push(p);
            x += 1;
        }
        y += 1;
    }
    assert(g.take((h * w) as int) =~= g) by {
        assert(h * w == w * h) by (nonlinear_arith);
    }
}

/// The lumas of the pixels of `crops` into `out`, in place of what it held.
pub fn gray_crops(crops: &[ImageView], out: &mut Vec<u8>)
    requires
        forall|k: int| 0 <= k < crops@.len() ==> (#[trigger] crops@[k]).well_formed(),
    ensures
        final(out)@ == grays_of(crops@.map_values(|v: ImageView| v.region())),
{
    out.clear();
    let mut k: usize = 0;
    while k < crops.len()
        invariant
            k <= crops@.len(),
            forall|j: int| 0 <= j < crops@.len() ==> (#[trigger] crops@[j]).well_formed(),
            out@ == grays_of(crops@.take(k as int).map_values(|v: ImageView| v.region())),
        decreases crops@.len() - k,
    {
        append_grays(&crops[k], out);
        assert(crops@.take(k + 1).map_values(|v: ImageView| v.region()).drop_last()
            =~= crops@.take(k as int).map_values(|v: ImageView| v.region()));
        k += 1;
    }
    assert(crops@.take(crops@.len() as int) =~= crops@);
}

} // verus!
