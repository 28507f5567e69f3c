use aurora_wm::geometry::Rect;
use aurora_wm::scene::{decimal_string, kind_label, text_x, window_title, DrawOp, FontFace, TextAlign};
use aurora_wm::state::{aurora_init, scene, State};

#[test]
fn kind_labels() {
    assert_eq!(kind_label(0), "Folder");
    assert_eq!(kind_label(1), "File");
    assert_eq!(kind_label(2), "Text");
    assert_eq!(kind_label(3), "Config");
    assert_eq!(kind_label(7), "File");
}

#[test]
fn window_titles_fall_back_to_first() {
    assert_eq!(window_title(0), "Aurora Terminal");
    assert_eq!(window_title(1), "NetSurf");
    assert_eq!(window_title(2), "Aurora Files");
    assert_eq!(window_title(9), "Aurora Terminal");
}

#[test]
fn decimal_strings() {
    assert_eq!(decimal_string(0), "0");
    assert_eq!(decimal_string(7), "7");
    assert_eq!(decimal_string(64), "64");
    assert_eq!(decimal_string(1234), "1234");
}

#[test]
fn text_positions() {
    assert_eq!(text_x(TextAlign::Left, 5, 100), Some(5));
    assert_eq!(text_x(TextAlign::Right, 100, 30), Some(70));
    assert_eq!(text_x(TextAlign::Centered(44), 10, 20), Some(22));
    assert_eq!(text_x(TextAlign::Centered(44), 10, 45), Some(10));
    assert_eq!(text_x(TextAlign::Centered(44), 10, 47), Some(9));
    assert_eq!(text_x(TextAlign::Right, i32::MIN, 1), None);
    assert_eq!(text_x(TextAlign::Centered(44), i32::MAX, 0), None);
}

fn texts(state: &State) -> Vec<String> {
    let sc = scene(state);
    let mut out = Vec::new();
    for i in 0..sc.len() {
        if let DrawOp::Text { text, .. } = sc.command(i) {
            out.push(text.clone());
        }
    }
    out
}

#[test]
fn scene_order_topbar_windows_dock() {
    let mut s = State::new();
    aurora_init(&mut s, 960, 540, &[]);
    let sc = scene(&s);
    assert!(sc.len() > 20);
    match sc.command(0) {
        DrawOp::Fill { rect, color } => {
            assert_eq!(*rect, Rect { x: 0, y: 0, width: 960, height: 40 });
            assert_eq!(*color, [250, 254, 255, 210]);
        }
        other => panic!("unexpected first command {:?}", other),
    }
    match sc.command(3) {
        DrawOp::Text { face, text, x, y, size, .. } => {
            assert_eq!(*face, FontFace::Bold);
            assert_eq!(text, "Aurora");
            assert_eq!((*x, *y, *size), (38, 10, 16));
        }
        other => panic!("unexpected command {:?}", other),
    }
    match sc.command(sc.len() - 1) {
        DrawOp::Text { text, align, .. } => {
            assert_eq!(text, "More");
            assert_eq!(*align, TextAlign::Centered(44));
        }
        other => panic!("unexpected last command {:?}", other),
    }
    let t = texts(&s);
    let term = t.iter().position(|x| x == "Aurora Terminal").unwrap();
    let net = t.iter().position(|x| x == "NetSurf").unwrap();
    let files = t.iter().position(|x| x == "Aurora Files").unwrap();
    assert!(term < net && net < files);
}

#[test]
fn scene_lists_default_files_with_status() {
    let mut s = State::new();
    aurora_init(&mut s, 960, 540, &[]);
    let t = texts(&s);
    assert!(t.iter().any(|x| x == "/workspace"));
    // The Files list is 187 pixels tall here: two 42-pixel rows fit.
    assert!(t.iter().any(|x| x == "README.md"));
    assert!(t.iter().any(|x| x == "hello.txt"));
    assert!(!t.iter().any(|x| x == "config.json"));
    let mut tall = State::new();
    aurora_init(&mut tall, 960, 1000, &[]);
    let t = texts(&tall);
    assert!(t.iter().any(|x| x == "config.json"));
    assert!(t.iter().any(|x| x == "Config"));
    assert!(t.iter().any(|x| x == "4 items \u{b7} Aurora Files"));
    assert!(t.iter().any(|x| x == "Places"));
}

#[test]
fn scene_terminal_fallback_lines() {
    let mut s = State::new();
    aurora_init(&mut s, 960, 540, &[]);
    let t = texts(&s);
    // The terminal content is 126 pixels tall: five 16-pixel lines fit.
    assert!(t.iter().any(|x| x == "$ ls /workspace"));
    assert!(t.iter().any(|x| x == "README.md  hello.txt  config.json"));
    assert!(!t.iter().any(|x| x == "$"));
}

#[test]
fn scene_hides_hidden_windows() {
    let mut s = State::new();
    aurora_init(&mut s, 960, 540, &[]);
    aurora_wm::state::aurora_files_show(&mut s, 0);
    aurora_wm::state::aurora_netsurf_show(&mut s, 0);
    let t = texts(&s);
    assert!(!t.iter().any(|x| x == "Aurora Files"));
    assert!(!t.iter().any(|x| x == "NetSurf"));
    assert!(t.iter().any(|x| x == "Aurora Terminal"));
}
