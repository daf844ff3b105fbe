//! The orchestrated normalization stages: locate the symbol and measure
//! its skew triangle, crop the corrected buffer, and turn the grid
//! upright. The trigonometric rotation between the first two stages is
//! float work for an external geometric-transform primitive; this module
//! decides its translation offsets, pivot, and triangle legs, and consumes
//! its output.

use vstd::prelude::*;

verus! {

use crate::bbox::{
    is_shrinkwrap,
    lemma_shrinkwrap_unique,
    shrink_edge,
    shrinkwrap_bounding_box,
    shrunk_edge,
};
use crate::errors::GeometryError;
use crate::img::GrayscaleImage;
use crate::orient::{
    applied_orientation,
    apply_orientation,
    decide_orientation,
    detect_orientation,
    grid_dims_supported,
    spec_pixel_pitch,
};
use crate::transform::{crop, is_crop, is_translate, translate};

/// What the deskew preparation measured: the translated buffer, the
/// bounding box located in the input buffer, the rotation pivot in the
/// translated buffer, and the two legs of the corner right triangle. The
/// correction angle is atan(leg_h / leg_w), to be applied about the pivot
/// by the caller's rotation primitive; with a zero leg there is no skew to
/// correct (and a zero horizontal leg would make the quotient undefined),
/// so the caller must rotate only when both legs are positive. The
/// measured triangle is reliable only when the scanned top-left box corner
/// lies on a genuinely dark module; no four-corner consensus is attempted.
pub struct DeskewPlan {
    /// The input shifted so the bounding box touches the bottom-right
    /// edge.
    pub image: GrayscaleImage,
    /// Left edge of the box located in the input buffer.
    pub box_x1: usize,
    /// Top edge of the located box.
    pub box_y1: usize,
    /// Right edge of the located box.
    pub box_x2: usize,
    /// Bottom edge of the located box.
    pub box_y2: usize,
    /// Rotation pivot column: the first dark sample rightward along the
    /// translated box's top row.
    pub pivot_x: usize,
    /// Rotation pivot row: the translated box's top row.
    pub pivot_y: usize,
    /// Horizontal leg of the corner triangle.
    pub leg_w: usize,
    /// Vertical leg of the corner triangle.
    pub leg_h: usize,
}

/// The deskew plan owed for input `src`: the box is the full-buffer
/// shrinkwrap; the translation pushes the box against the bottom-right
/// edge; the pivot and legs come from the corner search along the
/// translated box's top row and left column.
pub open spec fn deskew_plan_ok(src: GrayscaleImage, plan: DeskewPlan) -> bool {
    let w = src.width as int;
    let h = src.height as int;
    let ox = (w - 1) - plan.box_x2;
    let oy = (h - 1) - plan.box_y2;
    let tx1 = plan.box_x1 + ox;
    let ty1 = plan.box_y1 + oy;
    &&& is_shrinkwrap(
        src,
        0,
        0,
        w - 1,
        h - 1,
        plan.box_x1 as int,
        plan.box_y1 as int,
        plan.box_x2 as int,
        plan.box_y2 as int,
    )
    &&& is_translate(src, plan.image, ox, oy)
    &&& plan.pivot_y == ty1
    &&& shrunk_edge(plan.image, false, tx1, w - 1, ty1, ty1, plan.pivot_x as int)
    &&& plan.leg_w == plan.pivot_x - tx1
    &&& shrunk_edge(plan.image, true, ty1, h - 1, tx1, tx1, plan.pivot_y + plan.leg_h)
}

/// Locates the symbol's bounding box, translates the buffer so the box
/// touches the bottom-right edge, and measures the corner right triangle
/// whose angle deskews the symbol. An empty buffer is rejected.
pub fn prepare_deskew(src: &GrayscaleImage) -> (r: Result<DeskewPlan, GeometryError>)
    requires
        src.wf(),
    ensures
        r is Ok <==> src.width >= 1 && src.height >= 1,
        match r {
            Ok(plan) => plan.image.wf() && deskew_plan_ok(*src, plan),
            Err(e) => e == GeometryError::DegenerateGeometry,
        },
{
    if src.width == 0 || src.height == 0 {
        return Err(GeometryError::DegenerateGeometry);
    }
    let w = src.width;
    let h = src.height;
    let (bx1, by1, bx2, by2) = shrinkwrap_bounding_box(src, 0, 0, w - 1, h - 1);
    let ox = (w - 1) - bx2;
    let oy = (h - 1) - by2;
    let timg = translate(src, ox, oy);
    let tx1 = bx1 + ox;
    let ty1 = by1 + oy;
    let pivot_x = shrink_edge(&timg, false, tx1, w - 1, ty1, ty1);
    let ty2 = shrink_edge(&timg, true, ty1, h - 1, tx1, tx1);
    Ok(
        DeskewPlan {
            image: timg,
            box_x1: bx1,
            box_y1: by1,
            box_x2: bx2,
            box_y2: by2,
            pivot_x,
            pivot_y: ty1,
            leg_w: pivot_x - tx1,
            leg_h: ty2 - ty1,
        },
    )
}

/// The full-buffer shrinkwrap box of `src` admits a crop: the buffer is
/// nonempty and the box has not collapsed in either axis.
pub open spec fn symbol_croppable(src: GrayscaleImage) -> bool {
    &&& src.width >= 1
    &&& src.height >= 1
    &&& exists|bx1: int, by1: int, bx2: int, by2: int|
        {
            &&& #[trigger] is_shrinkwrap(
                src,
                0,
                0,
                src.width - 1,
                src.height - 1,
                bx1,
                by1,
                bx2,
                by2,
            )
            &&& bx1 < bx2
            &&& by1 < by2
        }
}

/// The crop owed for `src`: the rectangle of the full-buffer shrinkwrap
/// box taken from its top-left corner inclusive with width `x2 - x1` and
/// height `y2 - y1`, so the box's far edges are excluded.
pub open spec fn cropped_symbol_ok(src: GrayscaleImage, out: GrayscaleImage) -> bool {
    exists|bx1: int, by1: int, bx2: int, by2: int|
        {
            &&& #[trigger] is_shrinkwrap(
                src,
                0,
                0,
                src.width - 1,
                src.height - 1,
                bx1,
                by1,
                bx2,
                by2,
            )
            &&& bx1 < bx2
            &&& by1 < by2
            &&& out.width == bx2 - bx1
            &&& out.height == by2 - by1
            &&& is_crop(src, out, bx1, by1)
        }
}

/// Recomputes the bounding box on the corrected buffer and extracts the
/// minimal rectangle containing the symbol. A box that has collapsed to
/// zero width or height surfaces as an error, not as a zero-size buffer.
pub fn crop_symbol(src: &GrayscaleImage) -> (r: Result<GrayscaleImage, GeometryError>)
    requires
        src.wf(),
    ensures
        r is Ok <==> symbol_croppable(*src),
        match r {
            Ok(out) => out.wf() && cropped_symbol_ok(*src, out),
            Err(e) => e == GeometryError::DegenerateGeometry,
        },
{
    if src.width == 0 || src.height == 0 {
        return Err(GeometryError::DegenerateGeometry);
    }
    let (bx1, by1, bx2, by2) = shrinkwrap_bounding_box(src, 0, 0, src.width - 1, src.height - 1);
    if bx2 <= bx1 || by2 <= by1 {
        proof {
            if symbol_croppable(*src) {
                let (cx1, cy1, cx2, cy2) = choose|cx1: int, cy1: int, cx2: int, cy2: int|
                    {
                        &&& #[trigger] is_shrinkwrap(
                            *src,
                            0,
                            0,
                            src.width - 1,
                            src.height - 1,
                            cx1,
                            cy1,
                            cx2,
                            cy2,
                        )
                        &&& cx1 < cx2
                        &&& cy1 < cy2
                    };
                lemma_shrinkwrap_unique(
                    *src,
                    0,
                    0,
                    src.width - 1,
                    src.height - 1,
                    bx1 as int,
                    by1 as int,
                    bx2 as int,
                    by2 as int,
                    cx1,
                    cy1,
                    cx2,
                    cy2,
                );
                assert(false);
            }
        }
        return Err(GeometryError::DegenerateGeometry);
    }
    let out = crop(src, bx1, by1, bx2 - bx1, by2 - by1);
    Ok(out)
}

/// The corrected buffer normalizes fully: its shrinkwrap box admits a
/// crop whose dimensions carry the 21-module grid.
pub open spec fn symbol_normalizable(src: GrayscaleImage) -> bool {
    &&& src.width >= 1
    &&& src.height >= 1
    &&& exists|bx1: int, by1: int, bx2: int, by2: int|
        {
            &&& #[trigger] is_shrinkwrap(
                src,
                0,
                0,
                src.width - 1,
                src.height - 1,
                bx1,
                by1,
                bx2,
                by2,
            )
            &&& bx1 < bx2
            &&& by1 < by2
            &&& grid_dims_supported(bx2 - bx1, by2 - by1)
        }
}

/// The upright grid owed for `src`: the cropped symbol with the detected
/// quarter-turn applied.
pub open spec fn normalized_symbol_ok(src: GrayscaleImage, out: GrayscaleImage) -> bool {
    exists|c: GrayscaleImage|
        {
            &&& #[trigger] cropped_symbol_ok(src, c)
            &&& c.wf()
            &&& grid_dims_supported(c.width as int, c.height as int)
            &&& applied_orientation(
                c,
                decide_orientation(c, spec_pixel_pitch(c.width as int)),
                out,
            )
        }
}

/// Runs the stages after skew correction: recompute the bounding box,
/// crop, detect the grid's orientation, and apply the quarter-turn that
/// brings it upright.
pub fn normalize_symbol(src: &GrayscaleImage) -> (r: Result<GrayscaleImage, GeometryError>)
    requires
        src.wf(),
    ensures
        r is Ok <==> symbol_normalizable(*src),
        match r {
            Ok(out) => out.wf() && normalized_symbol_ok(*src, out),
            Err(e) => {
                &&& (e == GeometryError::DegenerateGeometry <==> !symbol_croppable(*src))
                &&& (e == GeometryError::UnsupportedGridSize ==> exists|c: GrayscaleImage|
                    #[trigger] cropped_symbol_ok(*src, c) && !grid_dims_supported(
                        c.width as int,
                        c.height as int,
                    ))
            },
        },
{
    let cropped = match crop_symbol(src) {
        Ok(c) => c,
        Err(e) => {
            proof {
                if symbol_normalizable(*src) {
                    assert(symbol_croppable(*src));
                }
            }
            return Err(e);
        },
    };
    let o = match detect_orientation(&cropped) {
        Ok(o) => o,
        Err(e) => {
            proof {
                if symbol_normalizable(*src) {
                    lemma_box_of_normalizable_matches(*src, cropped);
                }
            }
            return Err(e);
        },
    };
    let out = apply_orientation(cropped, o);
    Ok(out)
}

/// When the corrected buffer is normalizable, any crop meeting the crop
/// contract has grid-supporting dimensions: the shrinkwrap box is unique,
/// so the crop's dimensions are the box's.
proof fn lemma_box_of_normalizable_matches(src: GrayscaleImage, c: GrayscaleImage)
    requires
        symbol_normalizable(src),
        cropped_symbol_ok(src, c),
    ensures
        grid_dims_supported(c.width as int, c.height as int),
{
    let (nx1, ny1, nx2, ny2) = choose|nx1: int, ny1: int, nx2: int, ny2: int|
        {
            &&& #[trigger] is_shrinkwrap(
                src,
                0,
                0,
                src.width - 1,
                src.height - 1,
                nx1,
                ny1,
                nx2,
                ny2,
            )
            &&& nx1 < nx2
            &&& ny1 < ny2
            &&& grid_dims_supported(nx2 - nx1, ny2 - ny1)
        };
    let (cx1, cy1, cx2, cy2) = choose|cx1: int, cy1: int, cx2: int, cy2: int|
        {
            &&& #[trigger] is_shrinkwrap(
                src,
                0,
                0,
                src.width - 1,
                src.height - 1,
                cx1,
                cy1,
                cx2,
                cy2,
            )
            &&& cx1 < cx2
            &&& cy1 < cy2
            &&& c.width == cx2 - cx1
            &&& c.height == cy2 - cy1
            &&& is_crop(src, c, cx1, cy1)
        };
    lemma_shrinkwrap_unique(
        src,
        0,
        0,
        src.width - 1,
        src.height - 1,
        nx1,
        ny1,
        nx2,
        ny2,
        cx1,
        cy1,
        cx2,
        cy2,
    );
}

} // verus!
