//! Whole-buffer geometric transforms: translation towards the bottom-right,
//! cropping, and quarter-turn rotations. Each builds a fresh buffer; no
//! stage mutates its input.

use vstd::prelude::*;

verus! {

use crate::img::{lemma_push_sample, lemma_row_complete, sample, GrayscaleImage};

/// The source coordinate that target coordinate `c` reads after a shift by
/// `d`: coordinates shifted in from outside the buffer replicate the
/// nearest boundary sample.
pub open spec fn translate_coord(c: int, d: int) -> int {
    if c >= d {
        c - d
    } else {
        0
    }
}

/// `dst` is `src` shifted right by `dx` and down by `dy`, the uncovered
/// left and top margins replicating the nearest boundary samples.
pub open spec fn is_translate(src: GrayscaleImage, dst: GrayscaleImage, dx: int, dy: int) -> bool {
    &&& dst.wf()
    &&& dst.width == src.width
    &&& dst.height == src.height
    &&& forall|x: int, y: int|
        0 <= x < src.width && 0 <= y < src.height ==> #[trigger] dst.pixel(x, y) == src.pixel(
            translate_coord(x, dx),
            translate_coord(y, dy),
        )
}

/// `dst` is the rectangle of `src` starting at `(x0, y0)` with `dst`'s own
/// dimensions.
pub open spec fn is_crop(src: GrayscaleImage, dst: GrayscaleImage, x0: int, y0: int) -> bool {
    &&& dst.wf()
    &&& 0 <= x0 && 0 <= y0
    &&& x0 + dst.width <= src.width
    &&& y0 + dst.height <= src.height
    &&& forall|x: int, y: int|
        0 <= x < dst.width && 0 <= y < dst.height ==> #[trigger] dst.pixel(x, y) == src.pixel(
            x0 + x,
            y0 + y,
        )
}

/// `dst` is `src` rotated a quarter turn clockwise.
pub open spec fn is_rotate90(src: GrayscaleImage, dst: GrayscaleImage) -> bool {
    &&& dst.wf()
    &&& dst.width == src.height
    &&& dst.height == src.width
    &&& forall|x: int, y: int|
        0 <= x < dst.width && 0 <= y < dst.height ==> #[trigger] dst.pixel(x, y) == src.pixel(
            y,
            src.height - 1 - x,
        )
}

/// `dst` is `src` rotated a half turn.
pub open spec fn is_rotate180(src: GrayscaleImage, dst: GrayscaleImage) -> bool {
    &&& dst.wf()
    &&& dst.width == src.width
    &&& dst.height == src.height
    &&& forall|x: int, y: int|
        0 <= x < dst.width && 0 <= y < dst.height ==> #[trigger] dst.pixel(x, y) == src.pixel(
            src.width - 1 - x,
            src.height - 1 - y,
        )
}

/// `dst` is `src` rotated a quarter turn counter-clockwise.
pub open spec fn is_rotate270(src: GrayscaleImage, dst: GrayscaleImage) -> bool {
    &&& dst.wf()
    &&& dst.width == src.height
    &&& dst.height == src.width
    &&& forall|x: int, y: int|
        0 <= x < dst.width && 0 <= y < dst.height ==> #[trigger] dst.pixel(x, y) == src.pixel(
            src.width - 1 - y,
            x,
        )
}

/// Shifts the image right by `dx` and down by `dy`, keeping its
/// dimensions; the uncovered margins replicate the nearest boundary
/// sample.
pub fn translate(src: &GrayscaleImage, dx: usize, dy: usize) -> (dst: GrayscaleImage)
    requires
        src.wf(),
        src.width >= 1,
        src.height >= 1,
    ensures
        is_translate(*src, dst, dx as int, dy as int),
{
    let ow = src.width;
    let oh = src.height;
    let mut pixels: Vec<u8> = Vec::new();
    let mut y: usize = 0;
    while y < oh
        invariant
            src.wf(),
            ow == src.width,
            oh == src.height,
            ow >= 1,
            oh >= 1,
            y <= oh,
            pixels@.len() == y * ow,
            forall|xx: int, yy: int|
                0 <= xx < ow && 0 <= yy < y ==> #[trigger] sample(pixels@, ow as int, xx, yy)
                    == src.pixel(translate_coord(xx, dx as int), translate_coord(yy, dy as int)),
        decreases oh - y,
    {
        let sy = if y >= dy {
            y - dy
        } else {
            0
        };
        let mut x: usize = 0;
        while x < ow
            invariant
                src.wf(),
                ow == src.width,
                oh == src.height,
                ow >= 1,
                oh >= 1,
                y < oh,
                x <= ow,
                sy == translate_coord(y as int, dy as int),
                pixels@.len() == y * ow + x,
                forall|xx: int, yy: int|
                    0 <= xx < ow && 0 <= yy < y ==> #[trigger] sample(pixels@, ow as int, xx, yy)
                        == src.pixel(
                        translate_coord(xx, dx as int),
                        translate_coord(yy, dy as int),
                    ),
                forall|xx: int|
                    0 <= xx < x ==> #[trigger] sample(pixels@, ow as int, xx, y as int)
                        == src.pixel(translate_coord(xx, dx as int), translate_coord(y as int, dy as int)),
            decreases ow - x,
        {
            let sx = if x >= dx {
                x - dx
            } else {
                0
            };
            let v = src.get(sx, sy);
            let ghost prev = pixels@;
            pixels.push(v);
            proof {
                lemma_push_sample(prev, pixels@, ow as int, x as int, y as int, v);
            }
            x = x + 1;
        }
        proof {
            lemma_row_complete(ow as int, y as int);
        }
        y = y + 1;
    }
    let dst = GrayscaleImage { width: ow, height: oh, pixels };
    proof {
        assert((oh as int) * (ow as int) == (ow as int) * (oh as int)) by (nonlinear_arith);
        assert forall|x: int, y: int| 0 <= x < ow && 0 <= y < oh implies #[trigger] dst.pixel(x, y)
            == src.pixel(translate_coord(x, dx as int), translate_coord(y, dy as int)) by {
            assert(sample(dst.pixels@, ow as int, x, y) == src.pixel(
                translate_coord(x, dx as int),
                translate_coord(y, dy as int),
            ));
        }
    }
    dst
}

/// Extracts the `cw` by `ch` rectangle of `src` whose top-left corner is
/// `(x0, y0)`.
pub fn crop(src: &GrayscaleImage, x0: usize, y0: usize, cw: usize, ch: usize) -> (dst: GrayscaleImage)
    requires
        src.wf(),
        x0 + cw <= src.width,
        y0 + ch <= src.height,
    ensures
        dst.width == cw,
        dst.height == ch,
        is_crop(*src, dst, x0 as int, y0 as int),
{
    let ow = cw;
    let oh = ch;
    let mut pixels: Vec<u8> = Vec::new();
    let mut y: usize = 0;
    while y < oh
        invariant
            src.wf(),
            x0 + ow <= src.width,
            y0 + oh <= src.height,
            y <= oh,
            pixels@.len() == y * ow,
            forall|xx: int, yy: int|
                0 <= xx < ow && 0 <= yy < y ==> #[trigger] sample(pixels@, ow as int, xx, yy)
                    == src.pixel(x0 + xx, y0 + yy),
        decreases oh - y,
    {
        let mut x: usize = 0;
        while x < ow
            invariant
                src.wf(),
                x0 + ow <= src.width,
                y0 + oh <= src.height,
                y < oh,
                x <= ow,
                pixels@.len() == y * ow + x,
                forall|xx: int, yy: int|
                    0 <= xx < ow && 0 <= yy < y ==> #[trigger] sample(pixels@, ow as int, xx, yy)
                        == src.pixel(x0 + xx, y0 + yy),
                forall|xx: int|
                    0 <= xx < x ==> #[trigger] sample(pixels@, ow as int, xx, y as int)
                        == src.pixel(x0 + xx, y0 + y),
            decreases ow - x,
        {
            let v = src.get(x0 + x, y0 + y);
            let ghost prev = pixels@;
            pixels.push(v);
            proof {
                lemma_push_sample(prev, pixels@, ow as int, x as int, y as int, v);
            }
            x = x + 1;
        }
        proof {
            lemma_row_complete(ow as int, y as int);
        }
        y = y + 1;
    }
    let dst = GrayscaleImage { width: ow, height: oh, pixels };
    proof {
        assert((oh as int) * (ow as int) == (ow as int) * (oh as int)) by (nonlinear_arith);
        assert forall|x: int, y: int| 0 <= x < ow && 0 <= y < oh implies #[trigger] dst.pixel(x, y)
            == src.pixel(x0 + x, y0 + y) by {
            assert(sample(dst.pixels@, ow as int, x, y) == src.pixel(x0 + x, y0 + y));
        }
    }
    dst
}

/// Rotates the image a quarter turn clockwise.
pub fn rotate90(src: &GrayscaleImage) -> (dst: GrayscaleImage)
    requires
        src.wf(),
    ensures
        is_rotate90(*src, dst),
{
    let ow = src.height;
    let oh = src.width;
    let mut pixels: Vec<u8> = Vec::new();
    let mut y: usize = 0;
    while y < oh
        invariant
            src.wf(),
            ow == src.height,
            oh == src.width,
            y <= oh,
            pixels@.len() == y * ow,
            forall|xx: int, yy: int|
                0 <= xx < ow && 0 <= yy < y ==> #[trigger] sample(pixels@, ow as int, xx, yy)
                    == src.pixel(yy, src.height - 1 - xx),
        decreases oh - y,
    {
        let mut x: usize = 0;
        while x < ow
            invariant
                src.wf(),
                ow == src.height,
                oh == src.width,
                y < oh,
                x <= ow,
                pixels@.len() == y * ow + x,
                forall|xx: int, yy: int|
                    0 <= xx < ow && 0 <= yy < y ==> #[trigger] sample(pixels@, ow as int, xx, yy)
                        == src.pixel(yy, src.height - 1 - xx),
                forall|xx: int|
                    0 <= xx < x ==> #[trigger] sample(pixels@, ow as int, xx, y as int)
                        == src.pixel(y as int, src.height - 1 - xx),
            decreases ow - x,
        {
            let v = src.get(y, src.height - 1 - x);
            let ghost prev = pixels@;
            pixels.push(v);
            proof {
                lemma_push_sample(prev, pixels@, ow as int, x as int, y as int, v);
            }
            x = x + 1;
        }
        proof {
            lemma_row_complete(ow as int, y as int);
        }
        y = y + 1;
    }
    let dst = GrayscaleImage { width: ow, height: oh, pixels };
    proof {
        assert((oh as int) * (ow as int) == (ow as int) * (oh as int)) by (nonlinear_arith);
        assert forall|x: int, y: int| 0 <= x < ow && 0 <= y < oh implies #[trigger] dst.pixel(x, y)
            == src.pixel(y, src.height - 1 - x) by {
            assert(sample(dst.pixels@, ow as int, x, y) == src.pixel(y, src.height - 1 - x));
        }
    }
    dst
}

/// Rotates the image a half turn.
pub fn rotate180(src: &GrayscaleImage) -> (dst: GrayscaleImage)
    requires
        src.wf(),
    ensures
        is_rotate180(*src, dst),
{
    let ow = src.width;
    let oh = src.height;
    let mut pixels: Vec<u8> = Vec::new();
    let mut y: usize = 0;
    while y < oh
        invariant
            src.wf(),
            ow == src.width,
            oh == src.height,
            y <= oh,
            pixels@.len() == y * ow,
            forall|xx: int, yy: int|
                0 <= xx < ow && 0 <= yy < y ==> #[trigger] sample(pixels@, ow as int, xx, yy)
                    == src.pixel(src.width - 1 - xx, src.height - 1 - yy),
        decreases oh - y,
    {
        let mut x: usize = 0;
        while x < ow
            invariant
                src.wf(),
                ow == src.width,
                oh == src.height,
                y < oh,
                x <= ow,
                pixels@.len() == y * ow + x,
                forall|xx: int, yy: int|
                    0 <= xx < ow && 0 <= yy < y ==> #[trigger] sample(pixels@, ow as int, xx, yy)
                        == src.pixel(src.width - 1 - xx, src.height - 1 - yy),
                forall|xx: int|
                    0 <= xx < x ==> #[trigger] sample(pixels@, ow as int, xx, y as int)
                        == src.pixel(src.width - 1 - xx, src.height - 1 - y),
            decreases ow - x,
        {
            let v = src.get(src.width - 1 - x, src.height - 1 - y);
            let ghost prev = pixels@;
            pixels.push(v);
            proof {
                lemma_push_sample(prev, pixels@, ow as int, x as int, y as int, v);
            }
            x = x + 1;
        }
        proof {
            lemma_row_complete(ow as int, y as int);
        }
        y = y + 1;
    }
    let dst = GrayscaleImage { width: ow, height: oh, pixels };
    proof {
        assert((oh as int) * (ow as int) == (ow as int) * (oh as int)) by (nonlinear_arith);
        assert forall|x: int, y: int| 0 <= x < ow && 0 <= y < oh implies #[trigger] dst.pixel(x, y)
            == src.pixel(src.width - 1 - x, src.height - 1 - y) by {
            assert(sample(dst.pixels@, ow as int, x, y) == src.pixel(
                src.width - 1 - x,
                src.height - 1 - y,
            ));
        }
    }
    dst
}

/// Rotates the image a quarter turn counter-clockwise.
pub fn rotate270(src: &GrayscaleImage) -> (dst: GrayscaleImage)
    requires
        src.wf(),
    ensures
        is_rotate270(*src, dst),
{
    let ow = src.height;
    let oh = src.width;
    let mut pixels: Vec<u8> = Vec::new();
    let mut y: usize = 0;
    while y < oh
        invariant
            src.wf(),
            ow == src.height,
            oh == src.width,
            y <= oh,
            pixels@.len() == y * ow,
            forall|xx: int, yy: int|
                0 <= xx < ow && 0 <= yy < y ==> #[trigger] sample(pixels@, ow as int, xx, yy)
                    == src.pixel(src.width - 1 - yy, xx),
        decreases oh - y,
    {
        let mut x: usize = 0;
        while x < ow
            invariant
                src.wf(),
                ow == src.height,
                oh == src.width,
                y < oh,
                x <= ow,
                pixels@.len() == y * ow + x,
                forall|xx: int, yy: int|
                    0 <= xx < ow && 0 <= yy < y ==> #[trigger] sample(pixels@, ow as int, xx, yy)
                        == src.pixel(src.width - 1 - yy, xx),
                forall|xx: int|
                    0 <= xx < x ==> #[trigger] sample(pixels@, ow as int, xx, y as int)
                        == src.pixel(src.width - 1 - y, xx),
            decreases ow - x,
        {
            let v = src.get(src.width - 1 - y, x);
            let ghost prev = pixels@;
            pixels.push(v);
            proof {
                lemma_push_sample(prev, pixels@, ow as int, x as int, y as int, v);
            }
            x = x + 1;
        }
        proof {
            lemma_row_complete(ow as int, y as int);
        }
        y = y + 1;
    }
    let dst = GrayscaleImage { width: ow, height: oh, pixels };
    proof {
        assert((oh as int) * (ow as int) == (ow as int) * (oh as int)) by (nonlinear_arith);
        assert forall|x: int, y: int| 0 <= x < ow && 0 <= y < oh implies #[trigger] dst.pixel(x, y)
            == src.pixel(src.width - 1 - y, x) by {
            assert(sample(dst.pixels@, ow as int, x, y) == src.pixel(src.width - 1 - y, x));
        }
    }
    dst
}

} // verus!
