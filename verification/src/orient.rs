//! Orientation detection: samples the four border strips of the 21x21
//! module grid and matches them against the fixed identifier pattern to
//! decide which quarter-turn brings the grid upright.

use vstd::prelude::*;

verus! {

use vstd::arithmetic::mul::lemma_mul_inequality;
use crate::errors::GeometryError;
use crate::img::{same_content, GrayscaleImage};
use crate::transform::{
    is_rotate180,
    is_rotate270,
    is_rotate90,
    rotate180,
    rotate270,
    rotate90,
};

/// An intensity strictly below this classifies a module center as dark.
pub const DARK_MODULE_THRESHOLD: u8 = 127;

/// The quarter-turn that brings the grid upright, as decided by the
/// detector; `Upright` covers both a grid whose upper and left strips
/// already match and a grid where no strip pair matches at all.
#[derive(Clone, Copy, Debug, PartialEq, Eq, Structural)]
pub enum Orientation {
    Upright,
    Rotate90,
    Rotate180,
    Rotate270,
}

/// Element `i` of the fixed 21-element identifier pattern: seven dark
/// modules, then an alternating light/dark timing run, then seven dark
/// modules.
pub open spec fn id_pattern(i: int) -> bool {
    !(7 <= i <= 13) || i % 2 == 0
}

/// Computes element `i` of the identifier pattern.
pub fn id_pattern_at(i: usize) -> (b: bool)
    requires
        i < 21,
    ensures
        b == id_pattern(i as int),
{
    !(7 <= i && i <= 13) || i % 2 == 0
}

/// The pixel pitch of one module: the buffer width divided by the 21
/// modules, rounded to the nearest integer.
pub open spec fn spec_pixel_pitch(w: int) -> int {
    w / 21 + if w % 21 >= 11 {
        1int
    } else {
        0int
    }
}

/// Computes the pixel pitch for a buffer width.
pub fn pixel_pitch(width: usize) -> (p: usize)
    ensures
        p == spec_pixel_pitch(width as int),
{
    width / 21 + if width % 21 >= 11 {
        1
    } else {
        0
    }
}

/// The pixel coordinate of the center of module `i` at pitch `p`.
pub open spec fn sample_coord(p: int, i: int) -> int {
    i * p + p / 2
}

/// Whether a module's center sample classifies as dark.
pub open spec fn module_dark(v: u8) -> bool {
    v < DARK_MODULE_THRESHOLD
}

/// Element `i` of a border strip at pitch `p`. A horizontal strip runs
/// across the 21 module columns of fixed module row `m`; a vertical strip
/// runs down the 21 module rows of fixed module column `m`.
pub open spec fn strip_bit(img: GrayscaleImage, p: int, horiz: bool, m: int, i: int) -> bool {
    if horiz {
        module_dark(img.pixel(sample_coord(p, i), sample_coord(p, m)))
    } else {
        module_dark(img.pixel(sample_coord(p, m), sample_coord(p, i)))
    }
}

/// The strip equals the identifier pattern element-wise.
pub open spec fn strip_matches(img: GrayscaleImage, p: int, horiz: bool, m: int) -> bool {
    forall|i: int| 0 <= i < 21 ==> #[trigger] strip_bit(img, p, horiz, m, i) == id_pattern(i)
}

/// A buffer of width `w` and height `h` can carry the 21-module grid: a
/// pitch of at least one whose outermost module center fits both
/// dimensions.
pub open spec fn grid_dims_supported(w: int, h: int) -> bool {
    let p = spec_pixel_pitch(w);
    &&& p >= 1
    &&& sample_coord(p, 20) < w
    &&& sample_coord(p, 20) < h
}

/// Every border-strip sample point lies inside the buffer.
pub open spec fn grid_supported(img: GrayscaleImage) -> bool {
    grid_dims_supported(img.width as int, img.height as int)
}

/// The priority decision over the four strips. The first matching adjacent
/// strip pair selects the rotation; when no pair matches, the grid is
/// assumed already upright (which does not distinguish a verified
/// upper-and-left match from no match at all).
pub open spec fn decide_orientation(img: GrayscaleImage, p: int) -> Orientation {
    if strip_matches(img, p, true, 14) && strip_matches(img, p, false, 6) {
        Orientation::Rotate90
    } else if strip_matches(img, p, false, 14) && strip_matches(img, p, true, 14) {
        Orientation::Rotate180
    } else if strip_matches(img, p, true, 6) && strip_matches(img, p, false, 14) {
        Orientation::Rotate270
    } else {
        Orientation::Upright
    }
}

/// Samples one border strip at its module centers and compares it to the
/// identifier pattern.
pub fn check_strip(img: &GrayscaleImage, p: usize, horiz: bool, m: usize) -> (r: bool)
    requires
        img.wf(),
        1 <= p,
        m < 21,
        sample_coord(p as int, 20) < img.width,
        sample_coord(p as int, 20) < img.height,
    ensures
        r == strip_matches(*img, p as int, horiz, m as int),
{
    let half = p / 2;
    proof {
        lemma_mul_inequality(m as int, 20, p as int);
    }
    let fixed = m * p + half;
    let mut i: usize = 0;
    while i < 21
        invariant
            img.wf(),
            1 <= p,
            m < 21,
            i <= 21,
            sample_coord(p as int, 20) < img.width,
            sample_coord(p as int, 20) < img.height,
            half == p / 2,
            fixed == sample_coord(p as int, m as int),
            forall|j: int|
                0 <= j < i ==> #[trigger] strip_bit(*img, p as int, horiz, m as int, j)
                    == id_pattern(j),
        decreases 21 - i,
    {
        proof {
            lemma_mul_inequality(i as int, 20, p as int);
            lemma_mul_inequality(m as int, 20, p as int);
        }
        let c = i * p + half;
        let v = if horiz {
            img.get(c, fixed)
        } else {
            img.get(fixed, c)
        };
        let bit = v < DARK_MODULE_THRESHOLD;
        if bit != id_pattern_at(i) {
            assert(strip_bit(*img, p as int, horiz, m as int, i as int) != id_pattern(i as int));
            return false;
        }
        i = i + 1;
    }
    true
}

/// Decides which quarter-turn brings the grid upright, assuming the buffer
/// spans exactly 21 modules; a buffer whose pitch cannot place all strip
/// samples inside it is rejected.
pub fn detect_orientation(img: &GrayscaleImage) -> (r: Result<Orientation, GeometryError>)
    requires
        img.wf(),
    ensures
        r is Ok <==> grid_supported(*img),
        r is Ok ==> r == Ok::<Orientation, GeometryError>(
            decide_orientation(*img, spec_pixel_pitch(img.width as int)),
        ),
        r is Err ==> r == Err::<Orientation, GeometryError>(GeometryError::UnsupportedGridSize),
{
    let p = pixel_pitch(img.width);
    if p == 0 {
        return Err(GeometryError::UnsupportedGridSize);
    }
    let m20 = match 20usize.checked_mul(p) {
        Some(t) => match t.checked_add(p / 2) {
            Some(s) => s,
            None => {
                return Err(GeometryError::UnsupportedGridSize);
            },
        },
        None => {
            return Err(GeometryError::UnsupportedGridSize);
        },
    };
    if m20 >= img.width || m20 >= img.height {
        return Err(GeometryError::UnsupportedGridSize);
    }
    let lower = check_strip(img, p, true, 14);
    let left = check_strip(img, p, false, 6);
    let right = check_strip(img, p, false, 14);
    let upper = check_strip(img, p, true, 6);
    let o = if lower && left {
        Orientation::Rotate90
    } else if right && lower {
        Orientation::Rotate180
    } else if upper && right {
        Orientation::Rotate270
    } else {
        Orientation::Upright
    };
    Ok(o)
}

/// `b` is `a` with the quarter-turn that orientation `o` calls for
/// applied.
pub open spec fn applied_orientation(a: GrayscaleImage, o: Orientation, b: GrayscaleImage) -> bool {
    match o {
        Orientation::Upright => same_content(a, b),
        Orientation::Rotate90 => is_rotate90(a, b),
        Orientation::Rotate180 => is_rotate180(a, b),
        Orientation::Rotate270 => is_rotate270(a, b),
    }
}

/// Applies the quarter-turn that the detected orientation calls for.
pub fn apply_orientation(img: GrayscaleImage, o: Orientation) -> (r: GrayscaleImage)
    requires
        img.wf(),
    ensures
        r.wf(),
        applied_orientation(img, o, r),
{
    match o {
        Orientation::Upright => img,
        Orientation::Rotate90 => rotate90(&img),
        Orientation::Rotate180 => rotate180(&img),
        Orientation::Rotate270 => rotate270(&img),
    }
}

/// The identifier pattern is a palindrome: reading it backwards gives the
/// same 21 elements.
proof fn lemma_id_pattern_rev(i: int)
    requires
        0 <= i < 21,
    ensures
        id_pattern(20 - i) == id_pattern(i),
{
}

/// How the border strips of a one-pixel-per-module 21x21 grid move under a
/// clockwise quarter turn: a vertical strip becomes the reversed
/// horizontal strip at the same offset, and a horizontal strip becomes the
/// vertical strip at the mirrored offset. Matching the palindromic
/// identifier pattern survives the reversal.
proof fn lemma_rot90_strips(a: GrayscaleImage, b: GrayscaleImage, m: int)
    requires
        a.width == 21,
        a.height == 21,
        is_rotate90(a, b),
        0 <= m < 21,
    ensures
        strip_matches(a, 1, false, m) ==> strip_matches(b, 1, true, m),
        strip_matches(a, 1, true, 20 - m) ==> strip_matches(b, 1, false, m),
{
    if strip_matches(a, 1, false, m) {
        assert forall|i: int| 0 <= i < 21 implies #[trigger] strip_bit(b, 1, true, m, i)
            == id_pattern(i) by {
            lemma_id_pattern_rev(i);
            assert(strip_bit(a, 1, false, m, 20 - i) == id_pattern(20 - i));
            assert(b.pixel(i, m) == a.pixel(m, 20 - i));
        }
    }
    if strip_matches(a, 1, true, 20 - m) {
        assert forall|i: int| 0 <= i < 21 implies #[trigger] strip_bit(b, 1, false, m, i)
            == id_pattern(i) by {
            assert(strip_bit(a, 1, true, 20 - m, i) == id_pattern(i));
            assert(b.pixel(m, i) == a.pixel(i, 20 - m));
        }
    }
}

/// How the border strips move under a half turn: each strip becomes the
/// reversed strip at the mirrored offset.
proof fn lemma_rot180_strips(a: GrayscaleImage, b: GrayscaleImage, m: int)
    requires
        a.width == 21,
        a.height == 21,
        is_rotate180(a, b),
        0 <= m < 21,
    ensures
        strip_matches(a, 1, true, 20 - m) ==> strip_matches(b, 1, true, m),
        strip_matches(a, 1, false, 20 - m) ==> strip_matches(b, 1, false, m),
{
    if strip_matches(a, 1, true, 20 - m) {
        assert forall|i: int| 0 <= i < 21 implies #[trigger] strip_bit(b, 1, true, m, i)
            == id_pattern(i) by {
            lemma_id_pattern_rev(i);
            assert(strip_bit(a, 1, true, 20 - m, 20 - i) == id_pattern(20 - i));
            assert(b.pixel(i, m) == a.pixel(20 - i, 20 - m));
        }
    }
    if strip_matches(a, 1, false, 20 - m) {
        assert forall|i: int| 0 <= i < 21 implies #[trigger] strip_bit(b, 1, false, m, i)
            == id_pattern(i) by {
            lemma_id_pattern_rev(i);
            assert(strip_bit(a, 1, false, 20 - m, 20 - i) == id_pattern(20 - i));
            assert(b.pixel(m, i) == a.pixel(20 - m, 20 - i));
        }
    }
}

/// How the border strips move under a counter-clockwise quarter turn: a
/// vertical strip at the mirrored offset becomes the horizontal strip
/// unreversed, and a horizontal strip becomes the reversed vertical strip
/// at the same offset.
proof fn lemma_rot270_strips(a: GrayscaleImage, b: GrayscaleImage, m: int)
    requires
        a.width == 21,
        a.height == 21,
        is_rotate270(a, b),
        0 <= m < 21,
    ensures
        strip_matches(a, 1, false, 20 - m) ==> strip_matches(b, 1, true, m),
        strip_matches(a, 1, true, m) ==> strip_matches(b, 1, false, m),
{
    if strip_matches(a, 1, false, 20 - m) {
        assert forall|i: int| 0 <= i < 21 implies #[trigger] strip_bit(b, 1, true, m, i)
            == id_pattern(i) by {
            assert(strip_bit(a, 1, false, 20 - m, i) == id_pattern(i));
            assert(b.pixel(i, m) == a.pixel(20 - m, i));
        }
    }
    if strip_matches(a, 1, true, m) {
        assert forall|i: int| 0 <= i < 21 implies #[trigger] strip_bit(b, 1, false, m, i)
            == id_pattern(i) by {
            lemma_id_pattern_rev(i);
            assert(strip_bit(a, 1, true, m, 20 - i) == id_pattern(20 - i));
            assert(b.pixel(m, i) == a.pixel(20 - i, m));
        }
    }
}

/// Round trip of orientation correction, for a buffer that materializes
/// the 21x21 module grid one pixel per module (so the pitch is one and
/// each module's center sample is the module itself): when `j` is a
/// quarter, half, or three-quarter turn of a canonical upright grid `g` —
/// one whose upper and left strips match the identifier pattern — applying
/// the quarter-turn the detector selects for `j` restores a grid whose
/// upper and left strips match the identifier pattern again.
pub proof fn lemma_orientation_round_trip(g: GrayscaleImage, j: GrayscaleImage, k: GrayscaleImage)
    requires
        g.width == 21,
        g.height == 21,
        strip_matches(g, 1, true, 6),
        strip_matches(g, 1, false, 6),
        is_rotate90(g, j) || is_rotate180(g, j) || is_rotate270(g, j),
        applied_orientation(j, decide_orientation(j, 1), k),
    ensures
        strip_matches(k, 1, true, 6),
        strip_matches(k, 1, false, 6),
{
    if is_rotate90(g, j) {
        lemma_rot90_strips(g, j, 6);
        lemma_rot90_strips(g, j, 14);
        assert(strip_matches(j, 1, true, 6));
        assert(strip_matches(j, 1, false, 14));
    } else if is_rotate180(g, j) {
        lemma_rot180_strips(g, j, 14);
        assert(strip_matches(j, 1, true, 14));
        assert(strip_matches(j, 1, false, 14));
    } else {
        lemma_rot270_strips(g, j, 14);
        lemma_rot270_strips(g, j, 6);
        assert(strip_matches(j, 1, true, 14));
        assert(strip_matches(j, 1, false, 6));
    }
    let o = decide_orientation(j, 1);
    if o == Orientation::Rotate90 {
        assert(strip_matches(j, 1, true, 14) && strip_matches(j, 1, false, 6));
        lemma_rot90_strips(j, k, 6);
    } else if o == Orientation::Rotate180 {
        assert(strip_matches(j, 1, false, 14) && strip_matches(j, 1, true, 14));
        lemma_rot180_strips(j, k, 6);
    } else if o == Orientation::Rotate270 {
        assert(strip_matches(j, 1, true, 6) && strip_matches(j, 1, false, 14));
        lemma_rot270_strips(j, k, 6);
    } else {
        assert(false);
    }
}

} // verus!
