use vstd::prelude::*;

verus! {

/// Why a render configuration was refused.
#[derive(Clone, Copy, Debug, PartialEq, Eq, Structural)]
pub enum LayoutError {
    /// The image must be at least one pixel wide.
    NonPositiveWidth,
    /// Each pixel must be sampled at least once.
    NonPositiveSamples,
    /// The bounce budget cannot be negative.
    NegativeDepth,
}

/// The height that an estimate of the image height (the width divided by the
/// aspect ratio, rounded) gives: never less than one row.
pub open spec fn height_from_estimate(estimate: int) -> int {
    if estimate < 1 {
        1
    } else {
        estimate
    }
}

/// The column of the `k`-th pixel of a row-major image `width` pixels wide.
pub open spec fn pixel_col(width: nat, k: nat) -> nat {
    k % width
}

/// The row of the `k`-th pixel of a row-major image `width` pixels wide.
pub open spec fn pixel_row(width: nat, k: nat) -> nat {
    k / width
}

/// The integer shape of a render: the image size, the number of samples
/// taken in each pixel and the bounce budget of each camera path. Pixels are
/// produced row by row from the top, each row from the left.
#[derive(Clone, Copy, Debug)]
pub struct ImageLayout {
    width: u32,
    height: u32,
    samples_per_pixel: u32,
    max_depth: u32,
}

impl ImageLayout {
    pub closed spec fn spec_width(&self) -> nat {
        self.width as nat
    }

    pub closed spec fn spec_height(&self) -> nat {
        self.height as nat
    }

    pub closed spec fn spec_samples_per_pixel(&self) -> nat {
        self.samples_per_pixel as nat
    }

    pub closed spec fn spec_max_depth(&self) -> nat {
        self.max_depth as nat
    }

    /// The number of pixels of the image.
    pub open spec fn spec_pixel_count(&self) -> nat {
        self.spec_width() * self.spec_height()
    }

    pub open spec fn wf(&self) -> bool {
        &&& self.spec_width() >= 1
        &&& self.spec_height() >= 1
        &&& self.spec_samples_per_pixel() >= 1
    }

    /// The layout of a render `image_width` pixels wide whose height,
    /// estimated from the aspect ratio, is `height_estimate`; the height is
    /// raised to one row where the estimate is smaller.
    pub fn new(image_width: i32, height_estimate: i32, samples_per_pixel: i32, max_depth: i32) -> (r:
        Result<ImageLayout, LayoutError>)
        ensures
            image_width < 1 ==> r == Err::<ImageLayout, LayoutError>(LayoutError::NonPositiveWidth),
            image_width >= 1 && samples_per_pixel < 1 ==> r == Err::<ImageLayout, LayoutError>(
                LayoutError::NonPositiveSamples,
            ),
            image_width >= 1 && samples_per_pixel >= 1 && max_depth < 0 ==> r == Err::<
                ImageLayout,
                LayoutError,
            >(LayoutError::NegativeDepth),
            r is Ok <==> (image_width >= 1 && samples_per_pixel >= 1 && max_depth >= 0),
            r matches Ok(l) ==> {
                &&& l.wf()
                &&& l.spec_width() == image_width as int
                &&& l.spec_height() == height_from_estimate(height_estimate as int)
                &&& l.spec_samples_per_pixel() == samples_per_pixel as int
                &&& l.spec_max_depth() == max_depth as int
            },
    {
        if image_width < 1 {
            return Err(LayoutError::NonPositiveWidth);
        }
        if samples_per_pixel < 1 {
            return Err(LayoutError::NonPositiveSamples);
        }
        if max_depth < 0 {
            return Err(LayoutError::NegativeDepth);
        }
        let height: i32 = if height_estimate < 1 {
            1
        } else {
            height_estimate
        };
        Ok(
            ImageLayout {
                width: image_width as u32,
                height: height as u32,
                samples_per_pixel: samples_per_pixel as u32,
                max_depth: max_depth as u32,
            },
        )
    }

    pub fn width(&self) -> (r: u32)
        ensures
            r as nat == self.spec_width(),
    {
        self.width
    }

    pub fn height(&self) -> (r: u32)
        ensures
            r as nat == self.spec_height(),
    {
        self.height
    }

    pub fn samples_per_pixel(&self) -> (r: u32)
        ensures
            r as nat == self.spec_samples_per_pixel(),
    {
        self.samples_per_pixel
    }

    pub fn max_depth(&self) -> (r: u32)
        ensures
            r as nat == self.spec_max_depth(),
    {
        self.max_depth
    }

    /// The number of pixels of the image.
    pub fn pixel_count(&self) -> (r: u64)
        ensures
            r as nat == self.spec_pixel_count(),
    {
        proof {
            lemma_grid_fits(self.width as nat, self.height as nat);
        }
        (self.width as u64) * (self.height as u64)
    }

    /// The column and row of the `k`-th pixel in output order.
    pub fn pixel_at(&self, k: u64) -> (r: (u32, u32))
        requires
            self.wf(),
            k < self.spec_pixel_count(),
        ensures
            r.0 as nat == pixel_col(self.spec_width(), k as nat),
            r.1 as nat == pixel_row(self.spec_width(), k as nat),
            r.0 < self.spec_width(),
            r.1 < self.spec_height(),
    {
        let w = self.width as u64;
        proof {
            lemma_row_in_range(self.width as nat, self.height as nat, k as nat);
        }
        ((k % w) as u32, (k / w) as u32)
    }

    /// The position in output order of the pixel in column `i` of row `j`.
    pub fn pixel_index(&self, i: u32, j: u32) -> (r: u64)
        requires
            self.wf(),
            i < self.spec_width(),
            j < self.spec_height(),
        ensures
            r as nat == j as nat * self.spec_width() + i as nat,
            r < self.spec_pixel_count(),
    {
        proof {
            lemma_index_in_range(self.width as nat, self.height as nat, i as nat, j as nat);
        }
        let row_start: u64 = (j as u64) * (self.width as u64);
        row_start + (i as u64)
    }
}

/// Pixels come out row by row from the top, and within a row from the left:
/// of two positions in output order, the earlier one is on an earlier row,
/// or on the same row and further left.
pub proof fn lemma_row_major_order(width: nat, k1: nat, k2: nat)
    requires
        width >= 1,
        k1 < k2,
    ensures
        pixel_row(width, k1) < pixel_row(width, k2) || (pixel_row(width, k1) == pixel_row(
            width,
            k2,
        ) && pixel_col(width, k1) < pixel_col(width, k2)),
{
    let (r1, c1) = (k1 / width, k1 % width);
    let (r2, c2) = (k2 / width, k2 % width);
    assert(k1 == r1 * width + c1 && k2 == r2 * width + c2) by (nonlinear_arith)
        requires
            width >= 1,
            r1 == k1 / width,
            c1 == k1 % width,
            r2 == k2 / width,
            c2 == k2 % width,
    ;
    assert(r1 <= r2) by (nonlinear_arith)
        requires
            width >= 1,
            k1 < k2,
            r1 == k1 / width,
            r2 == k2 / width,
    ;
}

/// Every pixel of the grid comes out exactly once: the pixel in column `i` of
/// row `j` stands at position `j * width + i`, and nowhere else.
pub proof fn lemma_pixel_position(width: nat, height: nat, i: nat, j: nat, k: nat)
    requires
        width >= 1,
        i < width,
        j < height,
        k < width * height,
    ensures
        (pixel_col(width, k) == i && pixel_row(width, k) == j) <==> k == j * width + i,
{
    let (r, c) = (k / width, k % width);
    assert(k == r * width + c && c < width) by (nonlinear_arith)
        requires
            width >= 1,
            r == k / width,
            c == k % width,
    ;
    if k == j * width + i {
        assert(r == j && c == i) by (nonlinear_arith)
            requires
                k == j * width + i,
                i < width,
                k == r * width + c,
                c < width,
        ;
    }
}

proof fn lemma_grid_fits(w: nat, h: nat)
    requires
        w <= u32::MAX,
        h <= u32::MAX,
    ensures
        w * h <= u64::MAX,
{
    assert(w * h <= u32::MAX as nat * u32::MAX as nat) by (nonlinear_arith)
        requires
            w <= u32::MAX,
            h <= u32::MAX,
    ;
}

proof fn lemma_row_in_range(w: nat, h: nat, k: nat)
    requires
        w >= 1,
        k < w * h,
    ensures
        k / w < h,
        k % w < w,
{
    assert(k / w < h) by (nonlinear_arith)
        requires
            w >= 1,
            k < w * h,
    ;
}

proof fn lemma_index_in_range(w: nat, h: nat, i: nat, j: nat)
    requires
        w <= u32::MAX,
        h <= u32::MAX,
        i < w,
        j < h,
    ensures
        j * w + i < w * h,
        j * w + i <= u64::MAX,
        j * w <= u64::MAX,
{
    assert(j * w + i < w * h) by (nonlinear_arith)
        requires
            i < w,
            j < h,
    ;
    lemma_grid_fits(w, h);
}

} // verus!
