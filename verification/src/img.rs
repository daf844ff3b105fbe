//! The pixel buffer that every pipeline stage consumes and produces.

use vstd::prelude::*;

verus! {

use vstd::arithmetic::mul::lemma_mul_inequality;

/// An 8-bit grayscale raster image: `width * height` intensity samples in
/// row-major order. 0 is fully dark, 255 is fully light.
pub struct GrayscaleImage {
    pub width: usize,
    pub height: usize,
    pub pixels: Vec<u8>,
}

/// The sample at column `x` of row `y` of a row-major buffer `s` of row
/// length `w`.
pub open spec fn sample(s: Seq<u8>, w: int, x: int, y: int) -> u8 {
    s[y * w + x]
}

/// Appending the sample for cell `(x, y)` to a row-major buffer filled up
/// to exactly that cell leaves every earlier cell unchanged.
pub proof fn lemma_push_sample(prev: Seq<u8>, now: Seq<u8>, w: int, x: int, y: int, v: u8)
    requires
        0 <= x < w,
        0 <= y,
        prev.len() == y * w + x,
        now == prev.push(v),
    ensures
        now.len() == y * w + x + 1,
        sample(now, w, x, y) == v,
        forall|xx: int, yy: int|
            0 <= xx < w && 0 <= yy < y ==> #[trigger] sample(now, w, xx, yy) == sample(
                prev,
                w,
                xx,
                yy,
            ),
        forall|xx: int|
            0 <= xx < x ==> #[trigger] sample(now, w, xx, y) == sample(prev, w, xx, y),
{
    assert forall|xx: int, yy: int| 0 <= xx < w && 0 <= yy < y implies #[trigger] sample(
        now,
        w,
        xx,
        yy,
    ) == sample(prev, w, xx, yy) by {
        assert(0 <= yy * w + xx < y * w + x) by (nonlinear_arith)
            requires
                0 <= xx < w,
                0 <= yy < y,
                0 <= x,
        ;
    }
}

/// Finishing row `y` of a row-major buffer leaves `y + 1` complete rows.
pub proof fn lemma_row_complete(w: int, y: int)
    requires
        0 <= w,
        0 <= y,
    ensures
        y * w + w == (y + 1) * w,
{
    assert(y * w + w == (y + 1) * w) by (nonlinear_arith);
}

/// `b` has the same dimensions and the same samples as `a`.
pub open spec fn same_content(a: GrayscaleImage, b: GrayscaleImage) -> bool {
    &&& b.width == a.width
    &&& b.height == a.height
    &&& forall|x: int, y: int|
        0 <= x < a.width && 0 <= y < a.height ==> #[trigger] b.pixel(x, y) == a.pixel(x, y)
}

impl GrayscaleImage {
    /// The buffer holds exactly one sample per pixel.
    pub open spec fn wf(&self) -> bool {
        self.pixels@.len() == self.width * self.height
    }

    /// The intensity sample in column `x` of row `y`.
    pub open spec fn pixel(&self, x: int, y: int) -> u8 {
        sample(self.pixels@, self.width as int, x, y)
    }

    /// In a well-formed image, every in-bounds coordinate pair addresses a
    /// buffer element.
    pub proof fn lemma_index_in_bounds(&self, x: int, y: int)
        requires
            self.wf(),
            0 <= x < self.width,
            0 <= y < self.height,
        ensures
            0 <= y * self.width + x < self.pixels@.len(),
            y * self.width + x <= usize::MAX,
    {
        assert(self.pixels.len() == self.pixels@.len());
        lemma_mul_inequality(y, self.height as int - 1, self.width as int);
        assert((self.height as int - 1) * (self.width as int) == self.height * self.width - self.width)
            by (nonlinear_arith);
    }

    /// Builds an image from raw samples; rejects a buffer whose length does
    /// not match the dimensions.
    pub fn from_pixels(width: usize, height: usize, pixels: Vec<u8>) -> (r: Option<GrayscaleImage>)
        ensures
            r is Some <==> pixels@.len() == width * height,
            match r {
                Some(img) => {
                    &&& img.wf()
                    &&& img.width == width
                    &&& img.height == height
                    &&& img.pixels@ == pixels@
                },
                None => true,
            },
    {
        let len = pixels.len();
        match width.checked_mul(height) {
            Some(n) => {
                if len == n {
                    Some(GrayscaleImage { width, height, pixels })
                } else {
                    None
                }
            },
            None => None,
        }
    }

    /// Reads the sample at column `x` of row `y`.
    pub fn get(&self, x: usize, y: usize) -> (v: u8)
        requires
            self.wf(),
            x < self.width,
            y < self.height,
        ensures
            v == self.pixel(x as int, y as int),
    {
        proof {
            self.lemma_index_in_bounds(x as int, y as int);
        }
        self.pixels[y * self.width + x]
    }

    /// Hands the raw sample buffer out, e.g. to an external encoder.
    pub fn into_raw(self) -> (v: Vec<u8>)
        ensures
            v@ == self.pixels@,
    {
        self.pixels
    }
}

} // verus!
