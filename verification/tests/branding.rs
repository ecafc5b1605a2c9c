use giant_file_exchange::branding::{icon_rgba, ICON_SIZE};

#[test]
fn icon_is_opaque_black_and_white_f() {
    let rgba = icon_rgba();
    assert_eq!(rgba.len(), (ICON_SIZE * ICON_SIZE * 4) as usize);
    assert_eq!(&rgba[0..4], &[7, 7, 7, 255]);
    let f_pixel = (7 * ICON_SIZE as usize + 9) * 4;
    assert_eq!(&rgba[f_pixel..f_pixel + 4], &[255, 255, 255, 255]);
}

#[test]
fn icon_has_no_other_colours() {
    let rgba = icon_rgba();
    for pixel in rgba.chunks(4) {
        assert!(pixel == [7, 7, 7, 255] || pixel == [255, 255, 255, 255]);
    }
    let white = rgba.chunks(4).filter(|pixel| pixel[0] == 255).count();
    assert_eq!(white, 5 * 21 + 12 * 5 + 8 * 5);
}
