use winbend::pixels::{bgra_row, decoded_to_bgra, pack_rows, DecodedColor};

#[test]
fn swizzle() {
    let mut out = [0; 8];
    bgra_row(&[1, 2, 3, 4, 5, 6, 7, 8], &mut out);
    assert_eq!(out, [3, 2, 1, 255, 7, 6, 5, 255]);
}

#[test]
fn swizzle_stops_at_the_shorter_slice() {
    let mut out = [9; 6];
    bgra_row(&[1, 2, 3, 4, 5, 6, 7, 8], &mut out);
    assert_eq!(out, [3, 2, 1, 255, 9, 9]);
}

#[test]
fn rows_are_packed_without_pitch_padding() {
    // Two rows of two BGRA pixels, 12 bytes apart (4 bytes of padding per row).
    let mapped = [
        1, 2, 3, 0, 4, 5, 6, 0, 99, 99, 99, 99, //
        7, 8, 9, 0, 10, 11, 12, 0, 99, 99, 99, 99,
    ];
    let out = pack_rows(&mapped, 12, 2, 2);
    assert_eq!(out, vec![3, 2, 1, 255, 6, 5, 4, 255, 9, 8, 7, 255, 12, 11, 10, 255]);
}

#[test]
fn rgba_png_becomes_opaque_bgra() {
    let out = decoded_to_bgra(&[10, 20, 30, 40, 50, 60, 70, 80], DecodedColor::Rgba, 2, 1).unwrap();
    assert_eq!(out, vec![30, 20, 10, 255, 70, 60, 50, 255]);
}

#[test]
fn gray_png_becomes_gray_bgra() {
    let out = decoded_to_bgra(&[7, 99, 200, 1], DecodedColor::GrayscaleAlpha, 2, 1).unwrap();
    assert_eq!(out, vec![7, 7, 7, 255, 200, 200, 200, 255]);
}

#[test]
fn short_png_data_leaves_zero_pixels() {
    let out = decoded_to_bgra(&[10, 20, 30, 40], DecodedColor::Rgba, 2, 1).unwrap();
    assert_eq!(out, vec![30, 20, 10, 255, 0, 0, 0, 0]);
}

#[test]
fn other_png_layouts_are_refused() {
    assert!(decoded_to_bgra(&[1, 2, 3], DecodedColor::Other, 1, 1).is_none());
}
