use qrnorm::bbox::shrinkwrap_bounding_box;
use qrnorm::img::GrayscaleImage;

fn image_from(width: usize, height: usize, pixels: Vec<u8>) -> GrayscaleImage {
    GrayscaleImage::from_pixels(width, height, pixels).unwrap()
}

fn light_image(width: usize, height: usize) -> Vec<u8> {
    vec![255u8; width * height]
}

fn fill_rect(pixels: &mut Vec<u8>, width: usize, x1: usize, y1: usize, x2: usize, y2: usize, v: u8) {
    for y in y1..=y2 {
        for x in x1..=x2 {
            pixels[y * width + x] = v;
        }
    }
}

#[test]
fn solid_rectangle_is_located_exactly() {
    let (w, h) = (100, 100);
    let mut px = light_image(w, h);
    fill_rect(&mut px, w, 20, 30, 59, 69, 0);
    let img = image_from(w, h, px);
    let r = shrinkwrap_bounding_box(&img, 0, 0, 99, 99);
    assert_eq!(r, (20, 30, 59, 69));
}

#[test]
fn solid_rectangle_in_smaller_search_region() {
    let (w, h) = (50, 40);
    let mut px = light_image(w, h);
    fill_rect(&mut px, w, 10, 12, 30, 25, 5);
    let img = image_from(w, h, px);
    let r = shrinkwrap_bounding_box(&img, 2, 3, 45, 35);
    assert_eq!(r, (10, 12, 30, 25));
}

#[test]
fn all_light_image_collapses_to_far_corner() {
    let (w, h) = (17, 9);
    let img = image_from(w, h, light_image(w, h));
    let r = shrinkwrap_bounding_box(&img, 0, 0, w - 1, h - 1);
    assert_eq!(r, (w - 1, h - 1, w - 1, h - 1));
}

#[test]
fn tightly_cropped_buffer_returns_itself() {
    let (w, h) = (40, 33);
    let px = vec![0u8; w * h];
    let img = image_from(w, h, px);
    let r = shrinkwrap_bounding_box(&img, 0, 0, w - 1, h - 1);
    assert_eq!(r, (0, 0, w - 1, h - 1));
}

#[test]
fn tightly_cropped_border_only_returns_itself() {
    let (w, h) = (12, 15);
    let mut px = light_image(w, h);
    // one dark sample on each border line
    px[0 * w + 5] = 0;
    px[(h - 1) * w + 7] = 0;
    px[4 * w + 0] = 0;
    px[9 * w + (w - 1)] = 0;
    let img = image_from(w, h, px);
    let r = shrinkwrap_bounding_box(&img, 0, 0, w - 1, h - 1);
    assert_eq!(r, (0, 0, w - 1, h - 1));
}

#[test]
fn single_row_search_finds_first_dark_column() {
    let (w, h) = (30, 10);
    let mut px = light_image(w, h);
    px[4 * w + 13] = 0;
    px[4 * w + 20] = 0;
    let img = image_from(w, h, px);
    let (x2, _, _, _) = shrinkwrap_bounding_box(&img, 3, 4, w - 1, 4);
    assert_eq!(x2, 13);
}

#[test]
fn single_column_search_finds_first_dark_row() {
    let (w, h) = (10, 30);
    let mut px = light_image(w, h);
    px[17 * w + 6] = 0;
    px[25 * w + 6] = 0;
    let img = image_from(w, h, px);
    let (_, y2, _, _) = shrinkwrap_bounding_box(&img, 6, 2, 6, h - 1);
    assert_eq!(y2, 17);
}

#[test]
fn threshold_boundary_fifteen_is_dark_sixteen_is_not() {
    let (w, h) = (8, 8);
    let mut px = light_image(w, h);
    px[3 * w + 3] = 16;
    let img = image_from(w, h, px);
    let r = shrinkwrap_bounding_box(&img, 0, 0, w - 1, h - 1);
    assert_eq!(r, (w - 1, h - 1, w - 1, h - 1));

    let mut px2 = light_image(w, h);
    px2[3 * w + 3] = 15;
    let img2 = image_from(w, h, px2);
    let r2 = shrinkwrap_bounding_box(&img2, 0, 0, w - 1, h - 1);
    assert_eq!(r2, (3, 3, 3, 3));
}
