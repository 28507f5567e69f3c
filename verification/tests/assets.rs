use aurora_wm::assets::{decode_wallpaper, Fonts};

const RED_PIXEL_PNG: [u8; 70] = [
    137, 80, 78, 71, 13, 10, 26, 10, 0, 0, 0, 13, 73, 72, 68, 82, 0, 0, 0, 1, 0, 0, 0, 1, 8, 6, 0, 0, 0, 31, 21, 196,
    137, 0, 0, 0, 13, 73, 68, 65, 84, 120, 156, 99, 56, 33, 103, 243, 31, 0, 4, 246, 2, 34, 72, 8, 8, 96, 0, 0, 0, 0,
    73, 69, 78, 68, 174, 66, 96, 130,
];

#[test]
fn wallpaper_from_png_is_scaled() {
    let pixels = decode_wallpaper(&RED_PIXEL_PNG, 3, 2);
    assert_eq!(pixels.len(), 3 * 2 * 4);
    for px in pixels.chunks(4) {
        assert_eq!(px, &[200, 30, 60, 255]);
    }
}

#[test]
fn wallpaper_falls_back_to_slate() {
    let pixels = decode_wallpaper(&[1, 2, 3], 4, 1);
    assert_eq!(pixels, vec![18, 42, 58, 255, 18, 42, 58, 255, 18, 42, 58, 255, 18, 42, 58, 255]);
}

static NOT_A_FONT: [u8; 4] = [0, 1, 2, 3];

#[test]
fn fonts_refuse_garbage() {
    assert!(Fonts::load(&NOT_A_FONT, &NOT_A_FONT, &NOT_A_FONT).is_none());
}
