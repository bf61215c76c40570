//! Refinement of the text segmentation mask that the comic text detector predicts: only
//! confident pixels inside the (expanded) text block bounds are kept, thickened a little,
//! and clipped back to those bounds.

use vstd::prelude::*;
use vstd::arithmetic::div_mod::{lemma_fundamental_div_mod, lemma_fundamental_div_mod_converse};
use image::GrayImage;
use imageproc::distance_transform::Norm;
use imageproc::morphology::dilate;

verus! {

/// How far, in the L1 norm, the confident pixels are thickened.
pub const FINAL_MASK_DILATE_RADIUS: u8 = 2;

/// A gray image: `width` by `height` pixels, stored row by row.
pub struct GrayMask {
    pub width: u32,
    pub height: u32,
    pub pixels: Vec<u8>,
}

/// The pixel at column `x` and row `y` of the row-major pixels `m` of an image `w` wide.
pub open spec fn pixel_at(m: Seq<u8>, w: int, x: int, y: int) -> u8 {
    m[y * w + x]
}

impl GrayMask {
    /// Whether the pixels fill the image exactly.
    pub open spec fn wf(&self) -> bool {
        self.pixels@.len() == self.width * self.height
    }

    /// The pixel at column `x` and row `y`.
    pub open spec fn at(&self, x: int, y: int) -> u8 {
        pixel_at(self.pixels@, self.width as int, x, y)
    }

    /// The pixel at column `x` and row `y`.
    pub fn get(&self, x: u32, y: u32) -> (r: u8)
        requires
            self.wf(),
            x < self.width,
            y < self.height,
        ensures
            r == self.at(x as int, y as int),
    {
        let n = self.pixels.len();
        proof {
            lemma_pixel_index(self.width as int, self.height as int, x as int, y as int);
            assert(y * self.width <= y * self.width + x < n);
        }
        self.pixels[(y as usize) * (self.width as usize) + (x as usize)]
    }
}

/// Row-major indices of the pixels of a `w` by `h` image lie in the buffer, and each names
/// one pixel.
pub proof fn lemma_pixel_index(w: int, h: int, x: int, y: int)
    requires
        0 <= x < w,
        0 <= y < h,
    ensures
        0 <= y * w + x < w * h,
        (y * w + x) % w == x,
        (y * w + x) / w == y,
{
    assert(0 <= y * w) by (nonlinear_arith)
        requires
            0 <= y,
            0 <= w,
    ;
    assert(y * w + w <= h * w) by (nonlinear_arith)
        requires
            y + 1 <= h,
            0 <= w,
    ;
    assert(h * w == w * h) by (nonlinear_arith);
    lemma_fundamental_div_mod_converse(y * w + x, w, y, x);
}

/// A buffer index of a `w` by `h` image is the row-major index of its column and row.
pub proof fn lemma_index_pixel(w: int, h: int, i: int)
    requires
        0 <= i < w * h,
        w > 0,
    ensures
        0 <= i % w < w,
        0 <= i / w < h,
        i == (i / w) * w + i % w,
{
    lemma_fundamental_div_mod(i, w);
    assert(w * (i / w) == (i / w) * w) by (nonlinear_arith);
    assert(0 <= i / w) by (nonlinear_arith)
        requires
            0 <= i,
            w > 0,
    ;
    if i / w >= h {
        assert((i / w) * w >= h * w) by (nonlinear_arith)
            requires
                i / w >= h,
                w > 0,
        ;
        assert(h * w == w * h) by (nonlinear_arith);
    }
}

/// `|a - b|`.
pub open spec fn dist(a: int, b: int) -> int {
    if a >= b {
        a - b
    } else {
        b - a
    }
}

/// Whether some non-zero pixel of `m` (`w` by `h`) lies within L1 distance `k` of column
/// `x`, row `y`.
pub open spec fn near_nonzero(m: Seq<u8>, w: int, h: int, x: int, y: int, k: int) -> bool {
    exists|x2: int, y2: int|
        0 <= x2 < w && 0 <= y2 < h && #[trigger] pixel_at(m, w, x2, y2) > 0 && dist(x, x2) + dist(y, y2)
            <= k
}

/// A pixel of `m` dilated by radius `k` in the L1 norm: white when a non-zero pixel lies
/// within distance `k` of it (or when the image is so small that its width plus height is
/// at most `k`), black otherwise.
pub open spec fn dilated_pixel(m: Seq<u8>, w: int, h: int, x: int, y: int, k: int) -> u8 {
    if near_nonzero(m, w, h, x, y, k) || w + h <= k {
        255
    } else {
        0
    }
}

/// `imageproc::morphology::dilate(image, Norm::L1, k)` on the row-major pixels of a `width`
/// by `height` gray image. Its source takes each pixel's L1 distance to the nearest non-zero
/// pixel (by a two-pass distance transform whose values start at the smaller of width +
/// height and 255) and makes the pixel 255 when that distance is at most `k`, 0 otherwise.
#[verifier::external_body]
fn dilate_l1(width: u32, height: u32, pixels: Vec<u8>, k: u8) -> (r: Vec<u8>)
    requires
        pixels@.len() == width * height,
        k < 255,
    ensures
        r@.len() == width * height,
        forall|x: int, y: int|
            0 <= x < width && 0 <= y < height ==> #[trigger] pixel_at(r@, width as int, x, y)
                == dilated_pixel(pixels@, width as int, height as int, x, y, k as int),
{
    let image = GrayImage::from_raw(width, height, pixels).unwrap();
    dilate(&image, Norm::L1, k).into_raw()
}

/// Whether bounds `[x1, y1, x2, y2]` hold column `x`, row `y`.
pub open spec fn covers(b: [u32; 4], x: int, y: int) -> bool {
    b[0] <= x < b[2] && b[1] <= y < b[3]
}

/// Whether one of the first `n` of `bounds` holds column `x`, row `y`.
pub open spec fn covered_upto(bounds: Seq<[u32; 4]>, n: int, x: int, y: int) -> bool {
    exists|j: int| 0 <= j < n && #[trigger] covers(bounds[j], x, y)
}

/// Whether one of `bounds` holds column `x`, row `y`.
pub open spec fn covered(bounds: Seq<[u32; 4]>, x: int, y: int) -> bool {
    covered_upto(bounds, bounds.len() as int, x, y)
}

/// Whether every non-empty bounds of `bounds` lies within a `w` by `h` image.
pub open spec fn bounds_within(bounds: Seq<[u32; 4]>, w: int, h: int) -> bool {
    forall|j: int|
        0 <= j < bounds.len() && #[trigger] bounds[j][0] < bounds[j][2] && bounds[j][1] < bounds[j][3]
            ==> bounds[j][2] <= w && bounds[j][3] <= h
}

/// Which pixels of a `w` by `h` image some of `bounds` holds, row by row.
fn rasterize_bounds(w: u32, h: u32, bounds: &[[u32; 4]]) -> (r: Vec<bool>)
    requires
        w * h <= usize::MAX,
        bounds_within(bounds@, w as int, h as int),
    ensures
        r@.len() == w * h,
        forall|x: int, y: int|
            0 <= x < w && 0 <= y < h ==> #[trigger] r@[y * w + x] == covered(bounds@, x, y),
{
    let n: usize = (w as usize) * (h as usize);
    let mut m: Vec<bool> = Vec::new();
    let mut i: usize = 0;
    while i < n
        invariant
            n == w * h,
            i <= n,
            m@.len() == i,
            forall|k: int| 0 <= k < i ==> !#[trigger] m@[k],
        decreases n - i,
    {
        m.push(false);
        i = i + 1;
    }
    proof {
        assert forall|x: int, y: int| 0 <= x < w && 0 <= y < h implies #[trigger] m@[y * w + x]
            == covered_upto(bounds@, 0, x, y) by {
            lemma_pixel_index(w as int, h as int, x, y);
        }
    }
    let mut j: usize = 0;
    while j < bounds.len()
        invariant
            n == w * h,
            m@.len() == n,
            j <= bounds@.len(),
            bounds_within(bounds@, w as int, h as int),
            forall|x: int, y: int|
                0 <= x < w && 0 <= y < h ==> #[trigger] m@[y * w + x] == covered_upto(bounds@, j as int, x, y),
        decreases bounds@.len() - j,
    {
        let b = bounds[j];
        proof {
            assert(bounds@[j as int] == b);
        }
        let mut yy: u32 = b[1];
        while yy < b[3]
            invariant
                n == w * h,
                m@.len() == n,
                j < bounds@.len(),
                b == bounds@[j as int],
                yy == b[1] || b[1] < yy <= b[3],
                b[0] < b[2] && b[1] < b[3] ==> b[2] <= w && b[3] <= h,
                forall|x: int, y: int|
                    0 <= x < w && 0 <= y < h ==> #[trigger] m@[y * w + x] == (covered_upto(bounds@, j as int, x, y)
                        || (covers(b, x, y) && y < yy)),
            decreases b[3] - yy,
        {
            let mut xx: u32 = b[0];
            while xx < b[2]
                invariant
                    n == w * h,
                    m@.len() == n,
                    j < bounds@.len(),
                    b == bounds@[j as int],
                    b[1] <= yy < b[3],
                    xx == b[0] || b[0] < xx <= b[2],
                    b[0] < b[2] && b[1] < b[3] ==> b[2] <= w && b[3] <= h,
                    forall|x: int, y: int|
                        0 <= x < w && 0 <= y < h ==> #[trigger] m@[y * w + x] == (covered_upto(bounds@, j as int, x, y)
                            || (covers(b, x, y) && (y < yy || (y == yy && x < xx)))),
                decreases b[2] - xx,
            {
                proof {
                    lemma_pixel_index(w as int, h as int, xx as int, yy as int);
                }
                let idx = (yy as usize) * (w as usize) + (xx as usize);
                let ghost before = m@;
                m.set(idx, true);
                proof {
                    assert forall|x: int, y: int| 0 <= x < w && 0 <= y < h implies #[trigger] m@[y * w + x]
                        == (covered_upto(bounds@, j as int, x, y) || (covers(b, x, y) && (y < yy || (y == yy
                        && x < xx + 1)))) by {
                        lemma_pixel_index(w as int, h as int, x, y);
                        if x != xx || y != yy {
                            assert(y * w + x != idx);
                            assert(m@[y * w + x] == before[y * w + x]);
                        }
                    }
                }
                xx = xx + 1;
            }
            yy = yy + 1;
        }
        proof {
            assert forall|x: int, y: int| 0 <= x < w && 0 <= y < h implies #[trigger] m@[y * w + x]
                == covered_upto(bounds@, j + 1, x, y) by {
                if covers(b, x, y) {
                    assert(covers(bounds@[j as int], x, y));
                }
                if covered_upto(bounds@, j + 1, x, y) && !covered_upto(bounds@, j as int, x, y) {
                    let i = choose|i: int| 0 <= i < j + 1 && #[trigger] covers(bounds@[i], x, y);
                    assert(i == j);
                }
            }
        }
        j = j + 1;
    }
    m
}

/// A pixel of the confident part of `pred`: white when one of `bounds` holds it and its
/// value exceeds `threshold`, black otherwise.
pub open spec fn base_pixel(pred: GrayMask, bounds: Seq<[u32; 4]>, threshold: int, x: int, y: int) -> u8 {
    if covered(bounds, x, y) && pred.at(x, y) > threshold {
        255
    } else {
        0
    }
}

/// Whether a confident pixel of `pred` lies within L1 distance `k` of column `x`, row `y`.
pub open spec fn near_confident(pred: GrayMask, bounds: Seq<[u32; 4]>, threshold: int, x: int, y: int, k: int) -> bool {
    exists|x2: int, y2: int|
        0 <= x2 < pred.width && 0 <= y2 < pred.height && #[trigger] base_pixel(pred, bounds, threshold, x2, y2)
            > 0 && dist(x, x2) + dist(y, y2) <= k
}

/// A pixel of the refined mask: inside `bounds`, white when a confident pixel lies within
/// distance `k` of it (or when the image's width plus height is at most `k`); black
/// outside every bounds.
pub open spec fn refined_pixel(pred: GrayMask, bounds: Seq<[u32; 4]>, threshold: int, k: int, x: int, y: int) -> u8 {
    if covered(bounds, x, y) && (near_confident(pred, bounds, threshold, x, y, k) || pred.width + pred.height
        <= k) {
        255
    } else {
        0
    }
}

/// The refined text mask of the predicted probability mask `pred_mask`: a pixel is kept
/// when one of `expanded_bounds` (the expanded crop bounds of the detected text blocks,
/// `[x1, y1, x2, y2]`) holds it and its value exceeds `threshold`; the kept pixels are
/// dilated by `FINAL_MASK_DILATE_RADIUS` in the L1 norm, and the result is cleared outside
/// every bounds again. No bounds give an empty mask.
pub fn refine_segmentation_mask(pred_mask: &GrayMask, expanded_bounds: &[[u32; 4]], threshold: u8) -> (r: GrayMask)
    requires
        pred_mask.wf(),
        bounds_within(expanded_bounds@, pred_mask.width as int, pred_mask.height as int),
    ensures
        r.width == pred_mask.width,
        r.height == pred_mask.height,
        r.wf(),
        forall|x: int, y: int|
            0 <= x < r.width && 0 <= y < r.height ==> #[trigger] r.at(x, y) == refined_pixel(
                *pred_mask,
                expanded_bounds@,
                threshold as int,
                FINAL_MASK_DILATE_RADIUS as int,
                x,
                y,
            ),
{
    let w = pred_mask.width;
    let h = pred_mask.height;
    let n = pred_mask.pixels.len();
    let ghost bounds = expanded_bounds@;
    let ghost k = FINAL_MASK_DILATE_RADIUS as int;
    if w == 0 || h == 0 {
        proof {
            assert(w * h == 0) by (nonlinear_arith)
                requires
                    w == 0 || h == 0,
            ;
        }
        return GrayMask { width: w, height: h, pixels: Vec::new() };
    }
    let inside = rasterize_bounds(w, h, expanded_bounds);
    let mut base: Vec<u8> = Vec::new();
    let mut i: usize = 0;
    while i < n
        invariant
            n == w * h,
            w > 0,
            pred_mask.wf(),
            pred_mask.width == w,
            pred_mask.height == h,
            inside@.len() == n,
            forall|x: int, y: int|
                0 <= x < w && 0 <= y < h ==> #[trigger] inside@[y * w + x] == covered(bounds, x, y),
            i <= n,
            base@.len() == i,
            forall|m: int|
                0 <= m < i ==> #[trigger] base@[m] == base_pixel(*pred_mask, bounds, threshold as int, m % (w as int), m / (w as int)),
        decreases n - i,
    {
        proof {
            lemma_index_pixel(w as int, h as int, i as int);
            assert(inside@[i as int] == covered(bounds, (i as int) % (w as int), (i as int) / (w as int)));
        }
        let v = if inside[i] && pred_mask.pixels[i] > threshold {
            255u8
        } else {
            0u8
        };
        base.push(v);
        i = i + 1;
    }
    let ghost base_seq = base@;
    proof {
        assert forall|x: int, y: int| 0 <= x < w && 0 <= y < h implies #[trigger] pixel_at(base_seq, w as int, x, y)
            == base_pixel(*pred_mask, bounds, threshold as int, x, y) by {
            lemma_pixel_index(w as int, h as int, x, y);
        }
    }
    let dilated = dilate_l1(w, h, base, FINAL_MASK_DILATE_RADIUS);
    let mut out: Vec<u8> = Vec::new();
    let mut i: usize = 0;
    while i < n
        invariant
            n == w * h,
            w > 0,
            inside@.len() == n,
            dilated@.len() == n,
            forall|x: int, y: int|
                0 <= x < w && 0 <= y < h ==> #[trigger] inside@[y * w + x] == covered(bounds, x, y),
            i <= n,
            out@.len() == i,
            forall|m: int|
                0 <= m < i ==> #[trigger] out@[m] == (if inside@[m] { dilated@[m] } else { 0u8 }),
        decreases n - i,
    {
        let v = if inside[i] {
            dilated[i]
        } else {
            0u8
        };
        out.push(v);
        i = i + 1;
    }
    let r = GrayMask { width: w, height: h, pixels: out };
    proof {
        assert forall|x: int, y: int| 0 <= x < w && 0 <= y < h implies #[trigger] r.at(x, y) == refined_pixel(
            *pred_mask,
            bounds,
            threshold as int,
            k,
            x,
            y,
        ) by {
            lemma_pixel_index(w as int, h as int, x, y);
            let idx = y * w + x;
            assert(out@[idx] == (if inside@[idx] { dilated@[idx] } else { 0u8 }));
            assert(pixel_at(dilated@, w as int, x, y) == dilated_pixel(base_seq, w as int, h as int, x, y, k));
            if near_nonzero(base_seq, w as int, h as int, x, y, k) {
                let (x2, y2) = choose|x2: int, y2: int|
                    0 <= x2 < w && 0 <= y2 < h && #[trigger] pixel_at(base_seq, w as int, x2, y2) > 0 && dist(x, x2)
                        + dist(y, y2) <= k;
                assert(base_pixel(*pred_mask, bounds, threshold as int, x2, y2) > 0);
            }
            if near_confident(*pred_mask, bounds, threshold as int, x, y, k) {
                let (x2, y2) = choose|x2: int, y2: int|
                    0 <= x2 < w && 0 <= y2 < h && #[trigger] base_pixel(*pred_mask, bounds, threshold as int, x2, y2)
                        > 0 && dist(x, x2) + dist(y, y2) <= k;
                assert(pixel_at(base_seq, w as int, x2, y2) > 0);
            }
        }
    }
    r
}


/// The refined mask never leaves the text blocks: a pixel that no bounds holds is black,
/// so with no bounds at all the whole mask is black.
pub proof fn law_refined_mask_stays_in_bounds(pred: GrayMask, bounds: Seq<[u32; 4]>, threshold: int, k: int, x: int, y: int)
    ensures
        !covered(bounds, x, y) ==> refined_pixel(pred, bounds, threshold, k, x, y) == 0,
        bounds.len() == 0 ==> refined_pixel(pred, bounds, threshold, k, x, y) == 0,
{
}

/// Every confident pixel inside the bounds survives refinement: a pixel that some bounds
/// holds and whose value exceeds the threshold is white.
pub proof fn law_confident_pixels_kept(pred: GrayMask, bounds: Seq<[u32; 4]>, threshold: int, k: int, x: int, y: int)
    requires
        0 <= x < pred.width,
        0 <= y < pred.height,
        k >= 0,
        covered(bounds, x, y),
        pred.at(x, y) > threshold,
    ensures
        refined_pixel(pred, bounds, threshold, k, x, y) == 255,
{
    assert(base_pixel(pred, bounds, threshold, x, y) > 0);
    assert(dist(x, x) + dist(y, y) <= k);
}

} // verus!
