use aurora_wm::geometry::{dock_geometry, place_client, Client, Rect};

fn rect(x: i32, y: i32, width: i32, height: i32) -> Rect {
    Rect { x, y, width, height }
}

#[test]
fn rect_empty_is_zero() {
    assert_eq!(Rect::empty(), rect(0, 0, 0, 0));
}

#[test]
fn rect_contains_is_half_open() {
    let r = rect(10, 20, 5, 4);
    assert!(r.contains(10, 20));
    assert!(r.contains(14, 23));
    assert!(!r.contains(15, 20));
    assert!(!r.contains(10, 24));
    assert!(!r.contains(9, 20));
    assert!(!rect(0, 0, 0, 0).contains(0, 0));
}

#[test]
fn client_empty_is_unmapped() {
    let c = Client::empty();
    assert_eq!(c.frame, Rect::empty());
    assert_eq!(c.content, Rect::empty());
    assert_eq!(c.mapped, 0);
}

#[test]
fn dock_is_centred_above_bottom() {
    assert_eq!(dock_geometry(960, 540), rect(358, 484, 244, 44));
    assert_eq!(dock_geometry(1600, 1000), rect(678, 944, 244, 44));
}

#[test]
fn dock_narrows_to_small_screen() {
    assert_eq!(dock_geometry(200, 30), rect(0, -26, 200, 44));
    assert_eq!(dock_geometry(i32::MIN, i32::MIN), rect(0, i32::MIN, i32::MIN, 44));
}

#[test]
fn place_client_columns_at_960() {
    let dock = dock_geometry(960, 540);
    let browser = place_client(1, 960, 540, dock);
    assert_eq!(browser.frame, rect(24, 66, 556, 402));
    assert_eq!(browser.content, rect(24, 100, 556, 368));
    assert_eq!(browser.mapped, 1);
    let files = place_client(2, 960, 540, dock);
    assert_eq!(files.frame, rect(594, 66, 342, 221));
    assert_eq!(files.content, rect(594, 100, 342, 187));
    let term = place_client(0, 960, 540, dock);
    assert_eq!(term.frame, rect(594, 308, 342, 160));
    assert_eq!(term.content, rect(594, 342, 342, 126));
    let other = place_client(3, 960, 540, dock);
    assert_eq!(other.frame, rect(594, 66, 342, 201));
}

#[test]
fn place_client_minimums_on_narrow_screen() {
    let dock = dock_geometry(320, 180);
    let browser = place_client(1, 320, 180, dock);
    // 58% of 320 is 185, raised to 440; the window area is at least 240 tall.
    assert_eq!(browser.frame, rect(24, 66, 440, 240));
    let files = place_client(2, 320, 180, dock);
    assert_eq!(files.frame, rect(478, 66, 240, 180));
    assert_eq!(files.content.height, 146);
    let term = place_client(0, 320, 180, dock);
    assert_eq!(term.frame, rect(478, 156, 240, 150));
}

#[test]
fn place_client_negative_width_rounds_toward_zero() {
    let dock = rect(0, 500, 0, 0);
    let c = place_client(1, -50, 0, dock);
    assert_eq!(c.frame.width, 440);
}
