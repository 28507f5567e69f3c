use aurora_wm::state::{
    NAME_CAP, PATH_CAP, State, aurora_active_window, aurora_blend_pixel, aurora_content_height, aurora_content_width, aurora_content_x, aurora_content_y, aurora_dock_height, aurora_dock_width, aurora_dock_x, aurora_dock_y, aurora_files_add, aurora_files_clear, aurora_files_count, aurora_files_name_cap, aurora_files_path_cap, aurora_files_set_path, aurora_files_show, aurora_files_visible, aurora_frame_len, aurora_handle_key, aurora_init, aurora_is_running, aurora_layout_version, aurora_map_request, aurora_netsurf_index, aurora_netsurf_show, aurora_netsurf_visible, aurora_pointer_down, aurora_render, aurora_source_len, aurora_status_len, aurora_term_add_line, aurora_term_clear, aurora_term_index, aurora_term_line_cap, aurora_term_show, aurora_term_visible, aurora_tick, aurora_tick_value, aurora_titlebar_height, aurora_topbar_height, aurora_wallpaper_len, aurora_window_active, aurora_window_count, aurora_window_height, aurora_window_title_len, aurora_window_width, aurora_window_x, aurora_window_y, default_files, paint_scene_command, scene, source_url, status_text,
};

fn started() -> State {
    let mut s = State::new();
    assert_eq!(aurora_init(&mut s, 960, 540, &[]), 1);
    s
}

fn name_buf(text: &str) -> [u8; NAME_CAP] {
    let mut buf = [0u8; NAME_CAP];
    buf[..text.len()].copy_from_slice(text.as_bytes());
    buf
}

#[test]
fn new_session_defaults() {
    let s = State::new();
    assert_eq!(aurora_active_window(&s), 1);
    assert_eq!(aurora_is_running(&s), 0);
    assert_eq!(aurora_files_visible(&s), 1);
    assert_eq!(aurora_term_visible(&s), 1);
    assert_eq!(aurora_netsurf_visible(&s), 1);
    assert_eq!(aurora_files_count(&s), 0);
    assert_eq!(aurora_frame_len(&s), 0);
    assert_eq!(aurora_layout_version(&s), 0);
    assert_eq!(aurora_window_x(&s, 0), 0);
    assert_eq!(aurora_status_len(&s), 4);
    assert_eq!(status_text(&s), "idle");
}

#[test]
fn init_lays_out_and_decodes() {
    let s = started();
    assert_eq!(aurora_is_running(&s), 1);
    assert_eq!(aurora_files_count(&s), 4);
    assert_eq!(aurora_layout_version(&s), 1);
    assert_eq!(aurora_wallpaper_len(&s), 960 * 540 * 4);
    assert_eq!(aurora_frame_len(&s), 960 * 540 * 4);
    // An empty PNG falls back to the slate wallpaper colour.
    assert_eq!(&s.wallpaper()[0..4], &[18, 42, 58, 255]);
    assert_eq!(s.frame(), s.wallpaper());
    assert_eq!((aurora_dock_x(&s), aurora_dock_y(&s), aurora_dock_width(&s), aurora_dock_height(&s)), (358, 484, 244, 44));
    assert_eq!((aurora_window_x(&s, 1), aurora_window_y(&s, 1), aurora_window_width(&s, 1), aurora_window_height(&s, 1)), (24, 66, 556, 402));
    assert_eq!((aurora_content_x(&s, 2), aurora_content_y(&s, 2), aurora_content_width(&s, 2), aurora_content_height(&s, 2)), (594, 100, 342, 187));
    assert_eq!(aurora_window_x(&s, 3), 0);
    assert_eq!(aurora_content_height(&s, 7), 0);
    assert_eq!(aurora_status_len(&s), 36);
    assert_eq!(status_text(&s), "running - terminal + netsurf + files");
}

#[test]
fn init_clamps_screen_size() {
    let mut s = State::new();
    aurora_init(&mut s, 100, 5000, &[]);
    assert_eq!(aurora_frame_len(&s), 320 * 1000 * 4);
    assert_eq!(aurora_dock_y(&s), 1000 - 56);
    let mut t = State::new();
    aurora_init(&mut t, 5000, 10, &[]);
    assert_eq!(aurora_frame_len(&t), 1600 * 180 * 4);
}

#[test]
fn init_keeps_host_listing() {
    let mut s = State::new();
    aurora_files_add(&mut s, &name_buf("a.txt"), 5, 2);
    aurora_init(&mut s, 960, 540, &[]);
    assert_eq!(aurora_files_count(&s), 1);
}

#[test]
fn constants_and_indices() {
    assert_eq!(aurora_window_count(), 3);
    assert_eq!(aurora_topbar_height(), 40);
    assert_eq!(aurora_titlebar_height(), 34);
    assert_eq!(aurora_files_path_cap(), 160);
    assert_eq!(aurora_files_name_cap(), 96);
    assert_eq!(aurora_term_line_cap(), 96);
    assert_eq!(aurora_netsurf_index(), 1);
    assert_eq!(aurora_term_index(), 0);
    assert_eq!(aurora_window_title_len(0), 15);
    assert_eq!(aurora_window_title_len(1), 7);
    assert_eq!(aurora_window_title_len(2), 12);
    assert_eq!(aurora_window_title_len(99), 15);
    assert_eq!(aurora_source_len(), 36);
    assert_eq!(source_url(), "https://github.com/ecooxai/aurora-wm");
}

#[test]
fn tick_and_render() {
    let mut s = started();
    aurora_tick(&mut s, 77);
    assert_eq!(aurora_tick_value(&s), 77);
    assert_eq!(aurora_render(&mut s, 1234), 1);
    assert_eq!(aurora_tick_value(&s), 1234);
    assert_eq!(s.frame(), s.wallpaper());
}

#[test]
fn painting_the_scene_draws_the_top_bar() {
    let mut s = started();
    aurora_render(&mut s, 0);
    let sc = scene(&s);
    for i in 0..sc.len() {
        paint_scene_command(&mut s, &sc, i);
    }
    assert_eq!(aurora_frame_len(&s), 960 * 540 * 4);
    // Top bar colour blended over the slate wallpaper.
    let p = &s.frame()[(5 * 960 + 300) * 4..(5 * 960 + 300) * 4 + 4];
    let blend = |c: u32, d: u32| ((c * 210 + d * 45) / 255) as u8;
    assert_eq!(p, &[blend(250, 18), blend(254, 42), blend(255, 58), 255]);
}

#[test]
fn blend_pixel_draws_into_frame() {
    let mut s = started();
    aurora_blend_pixel(&mut s, 1, 0, [1, 2, 3, 255]);
    assert_eq!(&s.frame()[4..8], &[1, 2, 3, 255]);
    aurora_blend_pixel(&mut s, 960, 0, [9, 9, 9, 255]);
    assert_eq!(&s.frame()[960 * 4..960 * 4 + 4], &[18, 42, 58, 255]);
}

#[test]
fn files_show_and_hide() {
    let mut s = started();
    assert_eq!(aurora_files_show(&mut s, 0), 1);
    assert_eq!(aurora_files_visible(&s), 0);
    assert_eq!(aurora_active_window(&s), 1);
    assert_eq!(aurora_layout_version(&s), 2);
    assert_eq!(aurora_files_show(&mut s, 5), 1);
    assert_eq!(aurora_files_visible(&s), 1);
    assert_eq!(aurora_active_window(&s), 2);
    assert_eq!(aurora_layout_version(&s), 3);
}

#[test]
fn term_and_netsurf_show() {
    let mut s = started();
    aurora_term_show(&mut s, 0);
    assert_eq!(aurora_term_visible(&s), 0);
    aurora_term_show(&mut s, 1);
    assert_eq!(aurora_term_visible(&s), 1);
    assert_eq!(aurora_active_window(&s), 0);
    aurora_netsurf_show(&mut s, 0);
    assert_eq!(aurora_netsurf_visible(&s), 0);
    aurora_netsurf_show(&mut s, 2);
    assert_eq!(aurora_netsurf_visible(&s), 1);
    assert_eq!(aurora_active_window(&s), 1);
    assert_eq!(aurora_layout_version(&s), 1);
}

#[test]
fn files_add_and_refusals() {
    let mut s = started();
    aurora_files_clear(&mut s);
    assert_eq!(aurora_files_count(&s), 0);
    assert_eq!(aurora_files_add(&mut s, &name_buf("notes.md"), 0, 1), 0);
    assert_eq!(aurora_files_add(&mut s, &name_buf("notes.md"), 8, 9), 1);
    assert_eq!(aurora_files_count(&s), 1);
    for i in 1..64 {
        let name = format!("f{}", i);
        assert_eq!(aurora_files_add(&mut s, &name_buf(&name), name.len() as u32, 1), 1);
    }
    assert_eq!(aurora_files_count(&s), 64);
    assert_eq!(aurora_files_add(&mut s, &name_buf("late"), 4, 1), 0);
    assert_eq!(aurora_files_count(&s), 64);
}

#[test]
fn files_add_kind_is_capped() {
    let mut s = State::new();
    aurora_files_add(&mut s, &name_buf("x"), 1, 99);
    aurora_init(&mut s, 960, 540, &[]);
    let sc = scene(&s);
    let mut saw_config = false;
    for i in 0..sc.len() {
        if let aurora_wm::scene::DrawOp::Text { text, .. } = sc.command(i) {
            if text == "Config" {
                saw_config = true;
            }
        }
    }
    assert!(saw_config);
}

#[test]
fn set_path_replaces_invalid_utf8() {
    let mut s = started();
    let mut buf = [0u8; PATH_CAP];
    buf[..5].copy_from_slice(&[b'/', b't', 0xff, b'm', b'p']);
    assert_eq!(aurora_files_set_path(&mut s, &buf, 5), 1);
    let sc = scene(&s);
    let mut found = false;
    for i in 0..sc.len() {
        if let aurora_wm::scene::DrawOp::Text { text, .. } = sc.command(i) {
            if text == "/t\u{fffd}mp" {
                found = true;
            }
        }
    }
    assert!(found);
}

#[test]
fn set_path_length_is_capped() {
    let mut s = started();
    let buf = [b'a'; PATH_CAP];
    aurora_files_set_path(&mut s, &buf, 1000);
    let sc = scene(&s);
    let want = "a".repeat(PATH_CAP);
    let mut found = false;
    for i in 0..sc.len() {
        if let aurora_wm::scene::DrawOp::Text { text, .. } = sc.command(i) {
            if *text == want {
                found = true;
            }
        }
    }
    assert!(found);
}

#[test]
fn terminal_log_keeps_last_forty() {
    let mut s = started();
    aurora_term_show(&mut s, 0);
    for i in 0..45 {
        let line = format!("line {}", i);
        assert_eq!(aurora_term_add_line(&mut s, &name_buf(&line), line.len() as u32), 1);
    }
    assert_eq!(aurora_term_visible(&s), 1);
    let sc = scene(&s);
    let mut lines = Vec::new();
    for i in 0..sc.len() {
        if let aurora_wm::scene::DrawOp::Text { text, face, .. } = sc.command(i) {
            if *face == aurora_wm::scene::FontFace::Mono {
                lines.push(text.clone());
            }
        }
    }
    assert_eq!(lines, vec!["line 5", "line 6", "line 7", "line 8", "line 9"]);
    aurora_term_clear(&mut s);
}

#[test]
fn map_request_places_and_focuses() {
    let mut s = started();
    aurora_files_show(&mut s, 0);
    assert_eq!(aurora_map_request(&mut s, 7, 10, 10), 0);
    assert_eq!(aurora_active_window(&s), 1);
    assert_eq!(aurora_map_request(&mut s, 2, 10, 10), 1);
    assert_eq!(aurora_active_window(&s), 2);
    assert_eq!(aurora_files_visible(&s), 1);
    assert_eq!(aurora_window_height(&s, 2), 221);
}

#[test]
fn pointer_on_dock_launchers() {
    let mut s = started();
    aurora_term_show(&mut s, 0);
    // Term launcher: dock starts at x 358, y 484.
    assert_eq!(aurora_pointer_down(&mut s, 360, 490), 1);
    assert_eq!(aurora_active_window(&s), 0);
    assert_eq!(aurora_term_visible(&s), 1);
    assert_eq!(aurora_pointer_down(&mut s, 358 + 50, 490), 3);
    assert_eq!(aurora_pointer_down(&mut s, 358 + 100, 490), 2);
    // The Set launcher only counts a layout change.
    let v = aurora_layout_version(&s);
    assert_eq!(aurora_pointer_down(&mut s, 358 + 150, 490), 2);
    assert_eq!(aurora_layout_version(&s), v + 1);
}

#[test]
fn pointer_on_windows_and_rows() {
    let mut s = started();
    // Inside the browser.
    assert_eq!(aurora_pointer_down(&mut s, 100, 200), 2);
    assert_eq!(aurora_active_window(&s), 1);
    // Third row of the Files list: content at (594, 100), rows start 90 below.
    assert_eq!(aurora_pointer_down(&mut s, 594 + 140, 100 + 90 + 2 * 42 + 5), 3);
    assert_eq!(aurora_active_window(&s), 2);
    // Empty desktop.
    assert_eq!(aurora_pointer_down(&mut s, 5, 520), 0);
    // A hidden Files window takes no clicks.
    aurora_files_show(&mut s, 0);
    assert_eq!(aurora_pointer_down(&mut s, 700, 120), 0);
}

#[test]
fn row_click_selects_row() {
    let mut s = started();
    aurora_pointer_down(&mut s, 594 + 140, 100 + 90 + 42 + 5);
    let sc = scene(&s);
    let mut tiles = Vec::new();
    for i in 0..sc.len() {
        if let aurora_wm::scene::DrawOp::RoundFill { rect, radius, color } = sc.command(i) {
            if *radius == 9 {
                tiles.push((rect.y, *color));
            }
        }
    }
    assert_eq!(tiles.len(), 2);
    assert_eq!(tiles[1].1, [116, 213, 198, 140]);
    assert_eq!(tiles[0].1, [255, 255, 255, 140]);
}

#[test]
fn keys_move_focus() {
    let mut s = started();
    assert_eq!(aurora_handle_key(&mut s, 9), 2);
    assert_eq!(aurora_handle_key(&mut s, 9), 0);
    assert_eq!(aurora_handle_key(&mut s, 9), 1);
    assert_eq!(aurora_handle_key(&mut s, 51), 2);
    assert_eq!(aurora_handle_key(&mut s, 49), 0);
    assert_eq!(aurora_handle_key(&mut s, 65), 0);
    assert_eq!(aurora_window_active(&s, 0), 1);
    assert_eq!(aurora_window_active(&s, 2), 0);
}

#[test]
fn default_listing_entries() {
    let files = default_files();
    let names: Vec<&str> = files.iter().map(|f| f.name.as_str()).collect();
    assert_eq!(names, vec!["README.md", "hello.txt", "data.txt", "config.json"]);
    let kinds: Vec<u32> = files.iter().map(|f| f.kind).collect();
    assert_eq!(kinds, vec![2, 2, 2, 3]);
}

#[test]
fn init_without_wallpaper_paints_slate() {
    let s = started();
    assert_eq!(s.wallpaper().len(), 960 * 540 * 4);
    for px in s.wallpaper().chunks(4) {
        assert_eq!(px, &[18, 42, 58, 255]);
    }
    assert_eq!(s.frame(), s.wallpaper());
}
