use qrnorm::errors::GeometryError;
use qrnorm::img::GrayscaleImage;
use qrnorm::pipeline::{crop_symbol, normalize_symbol, prepare_deskew};
use qrnorm::transform::{crop, rotate180, rotate270, rotate90, translate};

fn image_from(width: usize, height: usize, pixels: Vec<u8>) -> GrayscaleImage {
    GrayscaleImage::from_pixels(width, height, pixels).unwrap()
}

fn light_image(width: usize, height: usize) -> Vec<u8> {
    vec![255u8; width * height]
}

fn fill_rect(pixels: &mut Vec<u8>, width: usize, x1: usize, y1: usize, x2: usize, y2: usize, v: u8) {
    for y in y1..=y2 {
        for x in x1..=x2 {
            pixels[y * width + x] = v;
        }
    }
}

#[test]
fn translate_shifts_and_replicates_margin() {
    let px = vec![
        10, 20, 30, //
        40, 50, 60, //
        70, 80, 90,
    ];
    let img = image_from(3, 3, px);
    let t = translate(&img, 1, 2);
    assert_eq!(t.width, 3);
    assert_eq!(t.height, 3);
    // shifted content
    assert_eq!(t.get(1, 2), 10);
    assert_eq!(t.get(2, 2), 20);
    // margins replicate the nearest boundary sample
    assert_eq!(t.get(0, 0), 10);
    assert_eq!(t.get(2, 0), 20);
    assert_eq!(t.get(0, 2), 10);
}

#[test]
fn crop_extracts_rectangle() {
    let px = vec![
        1, 2, 3, 4, //
        5, 6, 7, 8, //
        9, 10, 11, 12,
    ];
    let img = image_from(4, 3, px);
    let c = crop(&img, 1, 1, 2, 2);
    assert_eq!((c.width, c.height), (2, 2));
    assert_eq!(c.pixels, vec![6, 7, 10, 11]);
}

#[test]
fn quarter_turns_permute_samples() {
    let px = vec![
        1, 2, //
        3, 4, //
        5, 6,
    ];
    let img = image_from(2, 3, px);
    let r90 = rotate90(&img);
    assert_eq!((r90.width, r90.height), (3, 2));
    assert_eq!(r90.pixels, vec![5, 3, 1, 6, 4, 2]);
    let r180 = rotate180(&img);
    assert_eq!((r180.width, r180.height), (2, 3));
    assert_eq!(r180.pixels, vec![6, 5, 4, 3, 2, 1]);
    let r270 = rotate270(&img);
    assert_eq!((r270.width, r270.height), (3, 2));
    assert_eq!(r270.pixels, vec![2, 4, 6, 1, 3, 5]);
}

#[test]
fn skew_angle_is_zero_for_flat_triangle() {
    // horizontal leg 10, vertical leg 0
    let angle = (0.0f32 / 10.0f32).atan();
    assert_eq!(angle, 0.0f32);
}

#[test]
fn skew_angle_is_quarter_pi_for_equal_legs() {
    // horizontal leg 10, vertical leg 10
    let angle = (10.0f32 / 10.0f32).atan();
    assert!((angle - std::f32::consts::FRAC_PI_4).abs() < 1e-6);
}

#[test]
fn deskew_plan_measures_equal_legs() {
    let (w, h) = (100, 100);
    let mut px = light_image(w, h);
    // a symbol already touching the bottom-right edge, whose top row meets
    // dark at column 50 and whose left column meets dark at row 50
    fill_rect(&mut px, w, 50, 40, 99, 99, 0);
    fill_rect(&mut px, w, 40, 50, 49, 99, 0);
    let img = image_from(w, h, px);
    let plan = prepare_deskew(&img).unwrap();
    assert_eq!(
        (plan.box_x1, plan.box_y1, plan.box_x2, plan.box_y2),
        (40, 40, 99, 99)
    );
    assert_eq!((plan.pivot_x, plan.pivot_y), (50, 40));
    assert_eq!((plan.leg_w, plan.leg_h), (10, 10));
    let angle = (plan.leg_h as f32 / plan.leg_w as f32).atan();
    assert!((angle - std::f32::consts::FRAC_PI_4).abs() < 1e-6);
}

#[test]
fn deskew_rejects_empty_buffer() {
    let img = image_from(0, 0, Vec::new());
    assert!(matches!(
        prepare_deskew(&img),
        Err(GeometryError::DegenerateGeometry)
    ));
}

#[test]
fn end_to_end_axis_aligned_square() {
    let (w, h) = (100, 100);
    let mut px = light_image(w, h);
    fill_rect(&mut px, w, 20, 30, 59, 69, 0);
    let img = image_from(w, h, px);

    let plan = prepare_deskew(&img).unwrap();
    assert_eq!(
        (plan.box_x1, plan.box_y1, plan.box_x2, plan.box_y2),
        (20, 30, 59, 69)
    );
    // a perfect axis-aligned square yields a degenerate triangle: both legs
    // zero, so no rotation may be attempted (the quotient would be
    // undefined) and the translated buffer is already the corrected one
    assert_eq!((plan.leg_w, plan.leg_h), (0, 0));
    assert_eq!((plan.pivot_x, plan.pivot_y), (60, 60));

    let cropped = crop_symbol(&plan.image).unwrap();
    assert_eq!((cropped.width, cropped.height), (39, 39));
    for y in 0..39 {
        for x in 0..39 {
            assert_eq!(cropped.get(x, y), 0);
        }
    }
}

#[test]
fn crop_symbol_rejects_all_light_buffer() {
    let img = image_from(10, 10, light_image(10, 10));
    assert!(matches!(
        crop_symbol(&img),
        Err(GeometryError::DegenerateGeometry)
    ));
}

#[test]
fn crop_symbol_excludes_far_edges() {
    let (w, h) = (30, 30);
    let mut px = light_image(w, h);
    fill_rect(&mut px, w, 5, 6, 19, 22, 0);
    let img = image_from(w, h, px);
    let c = crop_symbol(&img).unwrap();
    assert_eq!((c.width, c.height), (14, 16));
    assert_eq!(c.get(0, 0), 0);
}

#[test]
fn normalize_symbol_crops_and_keeps_supported_grid() {
    let (w, h) = (40, 40);
    let mut px = light_image(w, h);
    // dark frame from (3, 3) to (32, 32): the box is located there and the
    // 29x29 crop carries a pitch-1 grid
    fill_rect(&mut px, w, 3, 3, 32, 3, 0);
    fill_rect(&mut px, w, 3, 32, 32, 32, 0);
    fill_rect(&mut px, w, 3, 3, 3, 32, 0);
    fill_rect(&mut px, w, 32, 3, 32, 32, 0);
    let img = image_from(w, h, px);
    let out = normalize_symbol(&img).unwrap();
    assert_eq!((out.width, out.height), (29, 29));
}

#[test]
fn normalize_symbol_rejects_tiny_symbol() {
    let (w, h) = (30, 30);
    let mut px = light_image(w, h);
    fill_rect(&mut px, w, 10, 10, 14, 14, 0);
    let img = image_from(w, h, px);
    assert!(matches!(
        normalize_symbol(&img),
        Err(GeometryError::UnsupportedGridSize)
    ));
}
