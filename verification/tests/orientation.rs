use qrnorm::errors::GeometryError;
use qrnorm::img::GrayscaleImage;
use qrnorm::orient::{
    apply_orientation, check_strip, detect_orientation, id_pattern_at, pixel_pitch, Orientation,
};

fn image_from(width: usize, height: usize, pixels: Vec<u8>) -> GrayscaleImage {
    GrayscaleImage::from_pixels(width, height, pixels).unwrap()
}

/// Builds a 21x21 one-pixel-per-module grid, light except for the
/// identifier pattern written into the given strips: `(true, m)` writes it
/// across module row `m`, `(false, m)` down module column `m`.
fn grid_with_pattern(strips: &[(bool, usize)]) -> GrayscaleImage {
    let mut px = vec![255u8; 21 * 21];
    for &(horiz, m) in strips {
        for i in 0..21 {
            let v = if id_pattern_at(i) { 0u8 } else { 255u8 };
            if horiz {
                px[m * 21 + i] = v;
            } else {
                px[i * 21 + m] = v;
            }
        }
    }
    image_from(21, 21, px)
}

#[test]
fn pattern_is_runs_flanking_timing_band() {
    let expected = [
        true, true, true, true, true, true, true, false, true, false, true, false, true, false,
        true, true, true, true, true, true, true,
    ];
    for i in 0..21 {
        assert_eq!(id_pattern_at(i), expected[i]);
    }
}

#[test]
fn pixel_pitch_rounds_to_nearest() {
    assert_eq!(pixel_pitch(21), 1);
    assert_eq!(pixel_pitch(105), 5);
    assert_eq!(pixel_pitch(100), 5);
    assert_eq!(pixel_pitch(10), 0);
    assert_eq!(pixel_pitch(11), 1);
    assert_eq!(pixel_pitch(31), 1);
    assert_eq!(pixel_pitch(32), 2);
}

#[test]
fn lower_and_left_match_selects_quarter_turn() {
    let g = grid_with_pattern(&[(true, 14), (false, 6)]);
    assert_eq!(detect_orientation(&g), Ok(Orientation::Rotate90));
}

#[test]
fn right_and_lower_match_selects_half_turn() {
    let g = grid_with_pattern(&[(false, 14), (true, 14)]);
    assert_eq!(detect_orientation(&g), Ok(Orientation::Rotate180));
}

#[test]
fn upper_and_right_match_selects_three_quarter_turn() {
    let g = grid_with_pattern(&[(true, 6), (false, 14)]);
    assert_eq!(detect_orientation(&g), Ok(Orientation::Rotate270));
}

#[test]
fn no_match_selects_no_rotation() {
    let g = grid_with_pattern(&[]);
    assert_eq!(detect_orientation(&g), Ok(Orientation::Upright));
}

#[test]
fn upright_grid_also_selects_no_rotation() {
    let g = grid_with_pattern(&[(true, 6), (false, 6)]);
    assert_eq!(detect_orientation(&g), Ok(Orientation::Upright));
}

#[test]
fn too_small_buffer_is_unsupported() {
    let g = image_from(5, 5, vec![255u8; 25]);
    assert_eq!(detect_orientation(&g), Err(GeometryError::UnsupportedGridSize));
}

#[test]
fn flat_buffer_is_unsupported() {
    // wide enough for a pitch, far too low for the strip rows
    let g = image_from(42, 3, vec![255u8; 42 * 3]);
    assert_eq!(detect_orientation(&g), Err(GeometryError::UnsupportedGridSize));
}

#[test]
fn module_threshold_is_127() {
    // a uniform 126 grid reads as all-dark strips, which match nothing
    let g = image_from(21, 21, vec![126u8; 21 * 21]);
    assert_eq!(detect_orientation(&g), Ok(Orientation::Upright));
    // every strip of an all-dark grid misses the pattern's light modules
    assert!(!check_strip(&g, 1, true, 6));
    let h = image_from(21, 21, vec![127u8; 21 * 21]);
    assert!(!check_strip(&h, 1, true, 6));
}

#[test]
fn quarter_turned_canonical_grid_is_restored() {
    let g = grid_with_pattern(&[(true, 6), (false, 6)]);
    let j = apply_orientation(g, Orientation::Rotate90);
    let o = detect_orientation(&j).unwrap();
    assert_eq!(o, Orientation::Rotate270);
    let k = apply_orientation(j, o);
    assert!(check_strip(&k, 1, true, 6));
    assert!(check_strip(&k, 1, false, 6));
}

#[test]
fn half_turned_canonical_grid_is_restored() {
    let g = grid_with_pattern(&[(true, 6), (false, 6)]);
    let j = apply_orientation(g, Orientation::Rotate180);
    let o = detect_orientation(&j).unwrap();
    assert_eq!(o, Orientation::Rotate180);
    let k = apply_orientation(j, o);
    assert!(check_strip(&k, 1, true, 6));
    assert!(check_strip(&k, 1, false, 6));
}

#[test]
fn three_quarter_turned_canonical_grid_is_restored() {
    let g = grid_with_pattern(&[(true, 6), (false, 6)]);
    let j = apply_orientation(g, Orientation::Rotate270);
    let o = detect_orientation(&j).unwrap();
    assert_eq!(o, Orientation::Rotate90);
    let k = apply_orientation(j, o);
    assert!(check_strip(&k, 1, true, 6));
    assert!(check_strip(&k, 1, false, 6));
}
