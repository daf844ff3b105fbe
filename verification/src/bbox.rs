//! Bounding-box localization: shrinks a search rectangle inward, one edge at
//! a time, until each edge line touches a dark sample.

use vstd::prelude::*;

verus! {

use crate::img::GrayscaleImage;

/// An intensity strictly below this counts as dark content for the
/// bounding-box search.
pub const DARK_EDGE_THRESHOLD: u8 = 16;

/// Whether a sample counts as dark content.
pub open spec fn dark(v: u8) -> bool {
    v < DARK_EDGE_THRESHOLD
}

/// The sample at position `i` along a scan line. A horizontal line is row
/// `line` and `i` is a column; a vertical line is column `line` and `i` is a
/// row.
pub open spec fn line_pixel(img: GrayscaleImage, horiz: bool, line: int, i: int) -> u8 {
    if horiz {
        img.pixel(i, line)
    } else {
        img.pixel(line, i)
    }
}

/// Some sample in positions `lo..=hi` of the scan line is dark.
pub open spec fn line_has_dark(img: GrayscaleImage, horiz: bool, line: int, lo: int, hi: int) -> bool {
    exists|i: int| lo <= i <= hi && dark(#[trigger] line_pixel(img, horiz, line, i))
}

/// The scan line and its sample range lie inside the image.
pub open spec fn line_in_bounds(img: GrayscaleImage, horiz: bool, line: int, hi: int) -> bool {
    if horiz {
        hi < img.width && line < img.height
    } else {
        hi < img.height && line < img.width
    }
}

/// `r` is where a greedy edge shrink stops when moving from line `from`
/// towards line `towards`: the first scanned line holding a dark sample in
/// positions `lo..=hi`, or `towards` itself if every earlier line is clear.
/// `towards` is never scanned; a dark sample on it is not required.
pub open spec fn shrunk_edge(
    img: GrayscaleImage,
    horiz: bool,
    from: int,
    towards: int,
    lo: int,
    hi: int,
    r: int,
) -> bool {
    if from <= towards {
        &&& from <= r <= towards
        &&& forall|j: int| from <= j < r ==> !#[trigger] line_has_dark(img, horiz, j, lo, hi)
        &&& r == towards || line_has_dark(img, horiz, r, lo, hi)
    } else {
        &&& towards <= r <= from
        &&& forall|j: int| r < j <= from ==> !#[trigger] line_has_dark(img, horiz, j, lo, hi)
        &&& r == towards || line_has_dark(img, horiz, r, lo, hi)
    }
}

/// The four sequential greedy shrink passes: top edge down, then left edge
/// right, then bottom edge up, then right edge left. Each pass scans the
/// rectangle as already narrowed by the earlier passes, so this is a
/// 4-pass greedy shrinkwrap, not a global minimal bounding box.
pub open spec fn is_shrinkwrap(
    img: GrayscaleImage,
    x1: int,
    y1: int,
    x2: int,
    y2: int,
    rx1: int,
    ry1: int,
    rx2: int,
    ry2: int,
) -> bool {
    &&& shrunk_edge(img, true, y1, y2, x1, x2, ry1)
    &&& shrunk_edge(img, false, x1, x2, ry1, y2, rx1)
    &&& shrunk_edge(img, true, y2, ry1, rx1, x2, ry2)
    &&& shrunk_edge(img, false, x2, rx1, ry1, ry2, rx2)
}

/// Scans one line of the image for a dark sample.
fn scan_line(img: &GrayscaleImage, horiz: bool, line: usize, lo: usize, hi: usize) -> (found: bool)
    requires
        img.wf(),
        lo <= hi,
        line_in_bounds(*img, horiz, line as int, hi as int),
    ensures
        found == line_has_dark(*img, horiz, line as int, lo as int, hi as int),
{
    let mut i = lo;
    while i <= hi
        invariant
            img.wf(),
            lo <= i <= hi + 1,
            line_in_bounds(*img, horiz, line as int, hi as int),
            forall|j: int|
                lo <= j < i ==> !dark(#[trigger] line_pixel(*img, horiz, line as int, j)),
        decreases hi + 1 - i,
    {
        let v = if horiz {
            img.get(i, line)
        } else {
            img.get(line, i)
        };
        if v < DARK_EDGE_THRESHOLD {
            assert(dark(line_pixel(*img, horiz, line as int, i as int)));
            return true;
        }
        i = i + 1;
    }
    false
}

/// Moves one edge of the search rectangle from `from` towards `towards`,
/// stopping at the first scan line that holds a dark sample in positions
/// `lo..=hi`, or at `towards` if none does. The two calling directions of
/// the four shrink passes differ only in whether `from` lies before or
/// after `towards`.
pub fn shrink_edge(
    img: &GrayscaleImage,
    horiz: bool,
    from: usize,
    towards: usize,
    lo: usize,
    hi: usize,
) -> (r: usize)
    requires
        img.wf(),
        lo <= hi,
        line_in_bounds(*img, horiz, from as int, hi as int),
        line_in_bounds(*img, horiz, towards as int, hi as int),
    ensures
        shrunk_edge(*img, horiz, from as int, towards as int, lo as int, hi as int, r as int),
{
    let mut cur = from;
    if from <= towards {
        while cur < towards
            invariant
                img.wf(),
                lo <= hi,
                from <= cur <= towards,
                line_in_bounds(*img, horiz, from as int, hi as int),
                line_in_bounds(*img, horiz, towards as int, hi as int),
                forall|j: int|
                    from <= j < cur ==> !#[trigger] line_has_dark(
                        *img,
                        horiz,
                        j,
                        lo as int,
                        hi as int,
                    ),
            decreases towards - cur,
        {
            if scan_line(img, horiz, cur, lo, hi) {
                return cur;
            }
            cur = cur + 1;
        }
        cur
    } else {
        while cur > towards
            invariant
                img.wf(),
                lo <= hi,
                towards <= cur <= from,
                line_in_bounds(*img, horiz, from as int, hi as int),
                line_in_bounds(*img, horiz, towards as int, hi as int),
                forall|j: int|
                    cur < j <= from ==> !#[trigger] line_has_dark(
                        *img,
                        horiz,
                        j,
                        lo as int,
                        hi as int,
                    ),
            decreases cur - towards,
        {
            if scan_line(img, horiz, cur, lo, hi) {
                return cur;
            }
            cur = cur - 1;
        }
        cur
    }
}

/// Shrinks the axis-aligned search rectangle `(x1, y1)..=(x2, y2)` inward
/// until each edge touches a dark sample, with the four passes applied in
/// the fixed order top, left, bottom, right, each scanning the rectangle as
/// narrowed by the earlier passes. When no dark sample exists in a pass's
/// scan region, that edge collapses onto its opposite edge. Passing a
/// single row or column (`x1 == x2` or `y1 == y2`) searches one corner
/// coordinate along one axis only.
pub fn shrinkwrap_bounding_box(
    img: &GrayscaleImage,
    x1: usize,
    y1: usize,
    x2: usize,
    y2: usize,
) -> (r: (usize, usize, usize, usize))
    requires
        img.wf(),
        x1 <= x2 < img.width,
        y1 <= y2 < img.height,
    ensures
        is_shrinkwrap(
            *img,
            x1 as int,
            y1 as int,
            x2 as int,
            y2 as int,
            r.0 as int,
            r.1 as int,
            r.2 as int,
            r.3 as int,
        ),
        x1 <= r.0 <= r.2 <= x2,
        y1 <= r.1 <= r.3 <= y2,
{
    let ry1 = shrink_edge(img, true, y1, y2, x1, x2);
    let rx1 = shrink_edge(img, false, x1, x2, ry1, y2);
    let ry2 = shrink_edge(img, true, y2, ry1, rx1, x2);
    let rx2 = shrink_edge(img, false, x2, rx1, ry1, ry2);
    (rx1, ry1, rx2, ry2)
}

/// A greedy edge shrink has exactly one stopping line.
pub proof fn lemma_shrunk_edge_unique(
    img: GrayscaleImage,
    horiz: bool,
    from: int,
    towards: int,
    lo: int,
    hi: int,
    r1: int,
    r2: int,
)
    requires
        shrunk_edge(img, horiz, from, towards, lo, hi, r1),
        shrunk_edge(img, horiz, from, towards, lo, hi, r2),
    ensures
        r1 == r2,
{
}

/// The four-pass shrinkwrap has exactly one result.
pub proof fn lemma_shrinkwrap_unique(
    img: GrayscaleImage,
    x1: int,
    y1: int,
    x2: int,
    y2: int,
    rx1: int,
    ry1: int,
    rx2: int,
    ry2: int,
    sx1: int,
    sy1: int,
    sx2: int,
    sy2: int,
)
    requires
        is_shrinkwrap(img, x1, y1, x2, y2, rx1, ry1, rx2, ry2),
        is_shrinkwrap(img, x1, y1, x2, y2, sx1, sy1, sx2, sy2),
    ensures
        rx1 == sx1 && ry1 == sy1 && rx2 == sx2 && ry2 == sy2,
{
    lemma_shrunk_edge_unique(img, true, y1, y2, x1, x2, ry1, sy1);
    lemma_shrunk_edge_unique(img, false, x1, x2, ry1, y2, rx1, sx1);
    lemma_shrunk_edge_unique(img, true, y2, ry1, rx1, x2, ry2, sy2);
    lemma_shrunk_edge_unique(img, false, x2, rx1, ry1, ry2, rx2, sx2);
}

/// A scan line of an image without any dark sample holds no dark sample.
proof fn lemma_light_image_line_clear(
    img: GrayscaleImage,
    horiz: bool,
    line: int,
    lo: int,
    hi: int,
)
    requires
        0 <= lo,
        0 <= line,
        line_in_bounds(img, horiz, line, hi),
        forall|x: int, y: int|
            0 <= x < img.width && 0 <= y < img.height ==> !dark(#[trigger] img.pixel(x, y)),
    ensures
        !line_has_dark(img, horiz, line, lo, hi),
{
    if line_has_dark(img, horiz, line, lo, hi) {
        let i = choose|i: int| lo <= i <= hi && dark(#[trigger] line_pixel(img, horiz, line, i));
        if horiz {
            assert(!dark(img.pixel(i, line)));
        } else {
            assert(!dark(img.pixel(line, i)));
        }
        assert(false);
    }
}

/// On an image without any dark sample, the shrinkwrap search collapses to
/// the single point `(x2, y2)` — the far corner of the search rectangle —
/// rather than looping or leaving the rectangle.
pub proof fn lemma_all_light_collapses_to_point(
    img: GrayscaleImage,
    x1: int,
    y1: int,
    x2: int,
    y2: int,
    rx1: int,
    ry1: int,
    rx2: int,
    ry2: int,
)
    requires
        img.wf(),
        0 <= x1 <= x2 < img.width,
        0 <= y1 <= y2 < img.height,
        forall|x: int, y: int|
            0 <= x < img.width && 0 <= y < img.height ==> !dark(#[trigger] img.pixel(x, y)),
        is_shrinkwrap(img, x1, y1, x2, y2, rx1, ry1, rx2, ry2),
    ensures
        rx1 == x2 && ry1 == y2 && rx2 == x2 && ry2 == y2,
{
    if ry1 != y2 {
        lemma_light_image_line_clear(img, true, ry1, x1, x2);
    }
    if rx1 != x2 {
        lemma_light_image_line_clear(img, false, rx1, ry1, y2);
    }
}

/// On an image holding a single solid dark rectangle `(a1, b1)..=(a2, b2)`
/// on an otherwise light background, the shrinkwrap search over any
/// rectangle containing it returns exactly that rectangle's coordinates.
pub proof fn lemma_solid_rectangle_is_found(
    img: GrayscaleImage,
    x1: int,
    y1: int,
    x2: int,
    y2: int,
    a1: int,
    b1: int,
    a2: int,
    b2: int,
    rx1: int,
    ry1: int,
    rx2: int,
    ry2: int,
)
    requires
        img.wf(),
        0 <= x1 <= a1 <= a2 <= x2 < img.width,
        0 <= y1 <= b1 <= b2 <= y2 < img.height,
        forall|x: int, y: int|
            a1 <= x <= a2 && b1 <= y <= b2 ==> dark(#[trigger] img.pixel(x, y)),
        forall|x: int, y: int|
            0 <= x < img.width && 0 <= y < img.height && !(a1 <= x <= a2 && b1 <= y <= b2)
                ==> !dark(#[trigger] img.pixel(x, y)),
        is_shrinkwrap(img, x1, y1, x2, y2, rx1, ry1, rx2, ry2),
    ensures
        rx1 == a1 && ry1 == b1 && rx2 == a2 && ry2 == b2,
{
    // Top pass stops exactly on the rectangle's first row.
    assert(dark(line_pixel(img, true, b1, a1)));
    assert(line_has_dark(img, true, b1, x1, x2));
    if ry1 < b1 {
        let i = choose|i: int| x1 <= i <= x2 && dark(#[trigger] line_pixel(img, true, ry1, i));
        assert(!dark(img.pixel(i, ry1)));
        assert(false);
    }
    assert(ry1 == b1);
    // Left pass stops exactly on the rectangle's first column; its scan rows
    // now start at b1, which still meets the rectangle.
    assert(dark(line_pixel(img, false, a1, b1)));
    assert(line_has_dark(img, false, a1, b1, y2));
    if rx1 < a1 {
        let i = choose|i: int| b1 <= i <= y2 && dark(#[trigger] line_pixel(img, false, rx1, i));
        assert(!dark(img.pixel(rx1, i)));
        assert(false);
    }
    assert(rx1 == a1);
    // Bottom pass climbs exactly to the rectangle's last row.
    assert(dark(line_pixel(img, true, b2, a1)));
    assert(line_has_dark(img, true, b2, a1, x2));
    if ry2 > b2 {
        let i = choose|i: int| a1 <= i <= x2 && dark(#[trigger] line_pixel(img, true, ry2, i));
        assert(!dark(img.pixel(i, ry2)));
        assert(false);
    }
    assert(ry2 == b2);
    // Right pass stops exactly on the rectangle's last column.
    assert(dark(line_pixel(img, false, a2, b1)));
    assert(line_has_dark(img, false, a2, b1, b2));
    if rx2 > a2 {
        let i = choose|i: int| b1 <= i <= b2 && dark(#[trigger] line_pixel(img, false, rx2, i));
        assert(!dark(img.pixel(rx2, i)));
        assert(false);
    }
    assert(rx2 == a2);
}

/// Re-running the search over a full buffer whose four border lines each
/// already hold a dark sample — a tightly cropped buffer — returns the full
/// buffer `(0, 0, width - 1, height - 1)` unchanged.
pub proof fn lemma_tight_buffer_is_fixed(
    img: GrayscaleImage,
    rx1: int,
    ry1: int,
    rx2: int,
    ry2: int,
)
    requires
        img.wf(),
        img.width >= 1,
        img.height >= 1,
        line_has_dark(img, true, 0, 0, img.width - 1),
        line_has_dark(img, false, 0, 0, img.height - 1),
        line_has_dark(img, true, img.height - 1, 0, img.width - 1),
        line_has_dark(img, false, img.width - 1, 0, img.height - 1),
        is_shrinkwrap(img, 0, 0, img.width - 1, img.height - 1, rx1, ry1, rx2, ry2),
    ensures
        rx1 == 0 && ry1 == 0 && rx2 == img.width - 1 && ry2 == img.height - 1,
{
}

} // verus!
