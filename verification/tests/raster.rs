use aurora_wm::geometry::Rect;
use aurora_wm::raster::{draw_file_icon, fill_circle, fill_rect, fill_round_rect, put_pixel};

fn pixel(frame: &[u8], width: usize, x: usize, y: usize) -> [u8; 4] {
    let i = (y * width + x) * 4;
    [frame[i], frame[i + 1], frame[i + 2], frame[i + 3]]
}

#[test]
fn put_pixel_opaque_replaces() {
    let mut frame = vec![0u8; 2 * 2 * 4];
    put_pixel(&mut frame, 2, 1, 1, [10, 20, 30, 250]);
    assert_eq!(pixel(&frame, 2, 1, 1), [10, 20, 30, 250]);
    assert_eq!(pixel(&frame, 2, 0, 1), [0, 0, 0, 0]);
}

#[test]
fn put_pixel_transparent_keeps() {
    let mut frame = vec![7u8; 16];
    put_pixel(&mut frame, 2, 0, 0, [255, 255, 255, 0]);
    assert_eq!(frame, vec![7u8; 16]);
}

#[test]
fn put_pixel_blends_translucent() {
    let mut frame = vec![0u8; 16];
    frame[0..4].copy_from_slice(&[0, 0, 255, 255]);
    put_pixel(&mut frame, 2, 0, 0, [255, 0, 0, 128]);
    assert_eq!(pixel(&frame, 2, 0, 0), [128, 0, 127, 255]);
}

#[test]
fn put_pixel_outside_is_ignored() {
    let mut frame = vec![0u8; 16];
    put_pixel(&mut frame, 2, 2, 0, [1, 2, 3, 255]);
    put_pixel(&mut frame, 2, 0, 2, [1, 2, 3, 255]);
    put_pixel(&mut frame, 2, -1, 0, [1, 2, 3, 255]);
    put_pixel(&mut frame, 0, 0, 0, [1, 2, 3, 255]);
    assert_eq!(frame, vec![0u8; 16]);
}

#[test]
fn fill_rect_paints_only_inside() {
    let mut frame = vec![0u8; 4 * 4 * 4];
    fill_rect(&mut frame, 4, Rect { x: 1, y: 1, width: 2, height: 2 }, [9, 9, 9, 255]);
    for y in 0..4 {
        for x in 0..4 {
            let inside = (1..3).contains(&x) && (1..3).contains(&y);
            let want = if inside { [9, 9, 9, 255] } else { [0, 0, 0, 0] };
            assert_eq!(pixel(&frame, 4, x, y), want);
        }
    }
}

#[test]
fn fill_rect_clips_and_skips_empty() {
    let mut frame = vec![0u8; 4 * 4 * 4];
    fill_rect(&mut frame, 4, Rect { x: -2, y: 3, width: 4, height: 9 }, [5, 5, 5, 255]);
    assert_eq!(pixel(&frame, 4, 0, 3), [5, 5, 5, 255]);
    assert_eq!(pixel(&frame, 4, 1, 3), [5, 5, 5, 255]);
    assert_eq!(pixel(&frame, 4, 2, 3), [0, 0, 0, 0]);
    let before = frame.clone();
    fill_rect(&mut frame, 4, Rect { x: 0, y: 0, width: 0, height: 3 }, [1, 1, 1, 255]);
    fill_rect(&mut frame, 4, Rect { x: 0, y: 0, width: 3, height: -1 }, [1, 1, 1, 255]);
    assert_eq!(frame, before);
}

#[test]
fn fill_round_rect_cuts_corners() {
    let mut frame = vec![0u8; 10 * 10 * 4];
    fill_round_rect(&mut frame, 10, Rect { x: 0, y: 0, width: 10, height: 10 }, 3, [1, 2, 3, 255]);
    assert_eq!(pixel(&frame, 10, 0, 0), [0, 0, 0, 0]);
    assert_eq!(pixel(&frame, 10, 9, 9), [0, 0, 0, 0]);
    assert_eq!(pixel(&frame, 10, 9, 0), [0, 0, 0, 0]);
    assert_eq!(pixel(&frame, 10, 1, 1), [1, 2, 3, 255]);
    assert_eq!(pixel(&frame, 10, 5, 0), [1, 2, 3, 255]);
    assert_eq!(pixel(&frame, 10, 5, 5), [1, 2, 3, 255]);
}

#[test]
fn fill_round_rect_radius_limited_by_short_side() {
    let mut frame = vec![0u8; 10 * 10 * 4];
    // A 10x2 bar keeps a radius of 1 however large the request.
    fill_round_rect(&mut frame, 10, Rect { x: 0, y: 0, width: 10, height: 2 }, 50, [4, 4, 4, 255]);
    assert_eq!(pixel(&frame, 10, 0, 0), [0, 0, 0, 0]);
    assert_eq!(pixel(&frame, 10, 1, 0), [4, 4, 4, 255]);
    assert_eq!(pixel(&frame, 10, 5, 1), [4, 4, 4, 255]);
}

#[test]
fn fill_circle_is_a_disc() {
    let mut frame = vec![0u8; 10 * 10 * 4];
    fill_circle(&mut frame, 10, 5, 5, 2, [8, 8, 8, 255]);
    assert_eq!(pixel(&frame, 10, 5, 5), [8, 8, 8, 255]);
    assert_eq!(pixel(&frame, 10, 7, 5), [8, 8, 8, 255]);
    assert_eq!(pixel(&frame, 10, 5, 3), [8, 8, 8, 255]);
    assert_eq!(pixel(&frame, 10, 6, 6), [8, 8, 8, 255]);
    assert_eq!(pixel(&frame, 10, 7, 7), [0, 0, 0, 0]);
    assert_eq!(pixel(&frame, 10, 8, 5), [0, 0, 0, 0]);
    let before = frame.clone();
    fill_circle(&mut frame, 10, 5, 5, -1, [1, 1, 1, 255]);
    assert_eq!(frame, before);
}

#[test]
fn folder_icon_has_body_and_tab() {
    let mut frame = vec![0u8; 40 * 40 * 4];
    draw_file_icon(&mut frame, 40, 0, 20, 20);
    // Body pixel: the folder colour blended over black.
    assert_eq!(pixel(&frame, 40, 20, 20), [231, 178, 77, 255]);
    // Tab over the body's top left.
    assert_eq!(pixel(&frame, 40, 12, 11), [231, 178, 77, 255]);
    // Right of the tab, above the body.
    assert_eq!(pixel(&frame, 40, 25, 11), [0, 0, 0, 0]);
}

#[test]
fn page_icon_has_text_lines() {
    let mut frame = vec![0u8; 40 * 40 * 4];
    draw_file_icon(&mut frame, 40, 2, 20, 20);
    // Page corner region inside the page but off the lines is white over black.
    assert_eq!(pixel(&frame, 40, 20, 12), [220, 220, 220, 255]);
    // A line pixel: grey blended over the page.
    let line = pixel(&frame, 40, 16, 15);
    assert_ne!(line, [220, 220, 220, 255]);
    assert_eq!(line[3], 255);
    // Outside the page.
    assert_eq!(pixel(&frame, 40, 30, 20), [0, 0, 0, 0]);
}

fn patterned(len: usize) -> Vec<u8> {
    (0..len).map(|i| (i * 37 % 251) as u8).collect()
}

#[test]
fn opaque_plot_twice_is_once() {
    let mut once = patterned(4 * 3 * 4);
    put_pixel(&mut once, 4, 2, 1, [9, 8, 7, 255]);
    let mut twice = once.clone();
    put_pixel(&mut twice, 4, 2, 1, [9, 8, 7, 255]);
    assert_eq!(once, twice);
}

#[test]
fn opaque_fill_twice_is_once() {
    let rect = Rect { x: -1, y: 1, width: 4, height: 5 };
    let mut once = patterned(6 * 6 * 4);
    fill_rect(&mut once, 6, rect, [1, 2, 3, 250]);
    let mut twice = once.clone();
    fill_rect(&mut twice, 6, rect, [1, 2, 3, 250]);
    assert_eq!(once, twice);
}

#[test]
fn round_rect_without_radius_is_plain_rect() {
    let rect = Rect { x: 1, y: 0, width: 5, height: 4 };
    for radius in [0, -3] {
        let mut rounded = patterned(8 * 6 * 4);
        let mut plain = rounded.clone();
        fill_round_rect(&mut rounded, 8, rect, radius, [200, 100, 50, 128]);
        fill_rect(&mut plain, 8, rect, [200, 100, 50, 128]);
        assert_eq!(rounded, plain);
    }
}

#[test]
fn round_rect_corners_mirror() {
    let rect = Rect { x: 0, y: 0, width: 9, height: 7 };
    let mut frame = vec![0u8; 9 * 7 * 4];
    fill_round_rect(&mut frame, 9, rect, 3, [255, 255, 255, 255]);
    for y in 0..7 {
        for x in 0..9 {
            let here = pixel(&frame, 9, x, y)[3];
            assert_eq!(here, pixel(&frame, 9, 8 - x, y)[3]);
            assert_eq!(here, pixel(&frame, 9, x, 6 - y)[3]);
        }
    }
    assert_eq!(pixel(&frame, 9, 0, 0)[3], 0);
    assert_eq!(pixel(&frame, 9, 4, 0)[3], 255);
}

#[test]
fn disc_of_radius_zero_is_one_pixel() {
    let mut disc = patterned(5 * 5 * 4);
    let mut dot = disc.clone();
    fill_circle(&mut disc, 5, 2, 3, 0, [4, 5, 6, 100]);
    put_pixel(&mut dot, 5, 2, 3, [4, 5, 6, 100]);
    assert_eq!(disc, dot);
    let mut none = patterned(5 * 5 * 4);
    fill_circle(&mut none, 5, 2, 3, -1, [4, 5, 6, 255]);
    assert_eq!(none, patterned(5 * 5 * 4));
}

#[test]
fn icon_stays_in_its_box_and_pages_agree() {
    let before = patterned(40 * 40 * 4);
    let mut text = before.clone();
    let mut config = before.clone();
    let mut folder = before.clone();
    draw_file_icon(&mut text, 40, 2, 20, 20);
    draw_file_icon(&mut config, 40, 3, 20, 20);
    draw_file_icon(&mut folder, 40, 0, 20, 20);
    assert_eq!(text, config);
    for frame in [&text, &folder] {
        for y in 0..40 {
            for x in 0..40 {
                if !(10..30).contains(&x) || !(10..30).contains(&y) {
                    assert_eq!(pixel(frame, 40, x, y), pixel(&before, 40, x, y));
                }
            }
        }
    }
}
