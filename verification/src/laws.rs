use vstd::prelude::*;
use crate::geometry::{
    FILES_INDEX, NETSURF_INDEX, TERM_INDEX, TITLEBAR_HEIGHT, TOPBAR_HEIGHT, WINDOW_COUNT, client_layout,
    content_height, content_top, div_trunc, dock_rect,
};
use crate::geometry::Rect;
use crate::raster::{
    Color, corner_radius, disc_filled, drawable, file_icon_drawn, icon_fits, in_disc, in_round_rect, painted, plotted,
    rect_filled, round_rect_filled,
};
use crate::raster::{blended_byte, disc_shape};
use crate::scene::{CommandView, DrawOp, TextAlign, dock_button_cmds, dock_buttons, dock_cmds, text_left};
use crate::state::{
    MAX_TERM_LINES, StateView, clickable, clicked_window, focus_after_key, log_append, new_entry, pointer_outcome,
};

verus! {

/// On every allowed screen the browser takes the left column and Files and
/// the terminal share the right column, 14 pixels to its right; Files starts
/// at the top of the window area and the terminal ends level with the
/// browser's bottom edge. Every window starts below the top bar, is at least
/// 180×140, and has its content directly under its title bar, as wide as
/// its frame.
pub proof fn law_layout_columns(w: int, h: int)
    requires
        320 <= w <= 1600,
        180 <= h <= 1000,
    ensures
        ({
            let dock = dock_rect(w, h);
            let browser = client_layout(NETSURF_INDEX as int, w, dock).frame;
            let files = client_layout(FILES_INDEX as int, w, dock).frame;
            let term = client_layout(TERM_INDEX as int, w, dock).frame;
            &&& browser.x == 24
            &&& browser.x + browser.width + 14 == files.x
            &&& files.x == term.x
            &&& files.y == content_top() && browser.y == content_top()
            &&& term.y + term.height == browser.y + browser.height
            &&& browser.height == content_height(dock)
        }),
        forall|i: int|
            0 <= i < WINDOW_COUNT ==> {
                let c = #[trigger] client_layout(i, w, dock_rect(w, h));
                &&& c.frame.y > TOPBAR_HEIGHT
                &&& c.frame.width >= 180
                &&& c.frame.height >= 140
                &&& c.content.x == c.frame.x
                &&& c.content.y == c.frame.y + TITLEBAR_HEIGHT
                &&& c.content.width == c.frame.width
                &&& c.content.height >= 1
                &&& c.mapped == 1
            },
{
    let dock = dock_rect(w, h);
    assert(185 <= div_trunc(w * 58, 100) <= 928);
    assert(content_height(dock) >= 240);
}

/// The dock lies within the screen's width, centred, 12 pixels above the
/// bottom edge, and is as wide as its row of five launchers.
pub proof fn law_dock_placement(w: int, h: int)
    requires
        320 <= w <= 1600,
        180 <= h <= 1000,
    ensures
        ({
            let d = dock_rect(w, h);
            &&& d.width == 244
            &&& 0 <= d.x
            &&& d.x + d.width <= w
            &&& d.x == (w - d.width) / 2
            &&& d.y + d.height + 12 == h
        }),
{
}

/// Pressing Tab three times brings focus back to where it was, and each
/// Tab moves it to another window.
pub proof fn law_tab_cycles(active: u32)
    requires
        active < WINDOW_COUNT,
    ensures
        focus_after_key(active, 9) != active,
        focus_after_key(focus_after_key(focus_after_key(active, 9), 9), 9) == active,
{
}

/// The keys 1, 2 and 3 focus window slots 0, 1 and 2 whatever was focused.
pub proof fn law_number_keys(active: u32, key: u32)
    requires
        49 <= key <= 51,
    ensures
        focus_after_key(active, key) == key - 49,
{
}

/// The terminal log keeps the latest lines: after a line is appended it
/// holds at most 40 lines, ends with the new line, and is the tail of the
/// old log followed by the new line.
pub proof fn law_log_keeps_latest(lines: Seq<Seq<char>>, line: Seq<char>)
    requires
        lines.len() <= MAX_TERM_LINES,
    ensures
        ({
            let all = lines.push(line);
            let r = log_append(lines, line);
            &&& r.len() == if all.len() <= MAX_TERM_LINES { all.len() as int } else { MAX_TERM_LINES as int }
            &&& r.last() == line
            &&& r == all.subrange(all.len() - r.len(), all.len() as int)
        }),
{
    let all = lines.push(line);
    let r = log_append(lines, line);
    assert(r =~= all.subrange(all.len() - r.len(), all.len() as int));
}

/// The window slot dock launcher `b` opens: Term the terminal, Files the
/// Files window, Net the browser.
pub open spec fn launcher_slot(b: int) -> int {
    if b == 0 { TERM_INDEX as int } else if b == 1 { FILES_INDEX as int } else { NETSURF_INDEX as int }
}

/// Clicking one of the first three dock launchers shows, maps and focuses
/// its window and answers that window's slot plus one; the layout counter
/// advances.
pub proof fn law_dock_launch(v: StateView, x: int, y: int)
    requires
        v.well_formed(),
        v.dock.holds(x, y),
        (x - v.dock.x) / 50 < 3,
    ensures
        ({
            let b = (x - v.dock.x) / 50;
            let (w, r) = pointer_outcome(v, x, y);
            &&& w.active == launcher_slot(b)
            &&& r == launcher_slot(b) + 1
            &&& w.clients[launcher_slot(b)].mapped == 1
            &&& (b == 0 ==> w.term_visible == 1)
            &&& (b == 1 ==> w.files_visible == 1)
            &&& (b == 2 ==> w.netsurf_visible == 1)
            &&& w.layout_version != v.layout_version
        }),
{
}

/// A press off the dock focuses the topmost window that takes it and
/// answers its slot plus one; no window above it takes the press. A press
/// that no window takes changes nothing and answers 0.
pub proof fn law_click_focuses_topmost(v: StateView, x: int, y: int)
    requires
        v.well_formed(),
        !v.dock.holds(x, y),
    ensures
        match clicked_window(v, x, y) {
            Some(i) => {
                &&& clickable(v, i, x, y)
                &&& forall|j: int| i < j < WINDOW_COUNT ==> !clickable(v, j, x, y)
                &&& pointer_outcome(v, x, y).0.active == i
                &&& pointer_outcome(v, x, y).1 == i + 1
            },
            None => pointer_outcome(v, x, y) == (v, 0u32),
        },
{
}

/// Drawing one pixel changes only that pixel's four bytes and keeps the
/// frame's size.
pub proof fn law_plot_touches_one_pixel(s: Seq<u8>, width: u32, x: int, y: int, color: Color, k: int)
    requires
        0 <= k < s.len(),
        width > 0,
        k / 4 != y * width + x,
        0 <= x < width,
    ensures
        plotted(s, width, x, y, color)[k] == s[k],
        plotted(s, width, x, y, color).len() == s.len(),
{
    let p = k / 4;
    let w = width as int;
    vstd::arithmetic::div_mod::lemma_fundamental_div_mod(p, w);
    if p % w == x && p / w == y {
        assert(p == w * (p / w) + p % w);
        assert(w * y == y * w) by (nonlinear_arith);
    }
}

/// Drawing a nearly opaque colour (alpha 250 or more) over a drawable pixel
/// replaces that pixel's four bytes with the colour.
pub proof fn law_opaque_plot(s: Seq<u8>, width: u32, x: int, y: int, color: Color)
    requires
        color[3] >= 250,
        drawable(s.len() as int, width as int, x, y),
    ensures
        ({
            let i = (y * width + x) * 4;
            let t = plotted(s, width, x, y, color);
            &&& t[i] == color[0]
            &&& t[i + 1] == color[1]
            &&& t[i + 2] == color[2]
            &&& t[i + 3] == color[3]
        }),
{
    let w = width as int;
    let p = y * w + x;
    assert(0 <= y * w) by (nonlinear_arith)
        requires 0 <= y, 0 <= w;
    vstd::arithmetic::div_mod::lemma_fundamental_div_mod_converse(p, w, y, x);
    assert((p * 4) / 4 == p);
    assert((p * 4 + 1) / 4 == p);
    assert((p * 4 + 2) / 4 == p);
    assert((p * 4 + 3) / 4 == p);
}

/// A right-aligned text ends at its `x`; a centred text leaves margins on
/// either side of it in its box that differ by at most one pixel.
pub proof fn law_text_alignment(x: int, box_width: i32, measured: int)
    ensures
        text_left(TextAlign::Right, x, measured) + measured == x,
        ({
            let left = text_left(TextAlign::Centered(box_width), x, measured) - x;
            let right = box_width - measured - left;
            -1 <= left - right <= 1
        }),
{
}


/// A pixel that a shape leaves out keeps its bytes when the shape is painted.
proof fn lemma_painted_keeps(s: Seq<u8>, width: u32, shape: spec_fn(int, int) -> bool, color: Color, k: int)
    requires
        0 <= k < s.len(),
        width == 0 || !shape((k / 4) % (width as int), (k / 4) / (width as int)),
    ensures
        painted(s, width, shape, color)[k] == s[k],
        painted(s, width, shape, color).len() == s.len(),
{
}

/// Painting a shape twice with a nearly opaque colour gives the frame that
/// painting it once gives.
proof fn lemma_painted_twice_opaque(s: Seq<u8>, width: u32, shape: spec_fn(int, int) -> bool, color: Color)
    requires
        color[3] >= 250,
    ensures
        painted(painted(s, width, shape, color), width, shape, color) == painted(s, width, shape, color),
{
    let once = painted(s, width, shape, color);
    assert(painted(once, width, shape, color) =~= once);
}

/// A file icon centred at `(cx, cy)` changes nothing outside the 20×20
/// box `[cx - 10, cx + 10) × [cy - 10, cy + 10)` and keeps the frame's size.
pub proof fn law_icon_stays_in_box(s: Seq<u8>, width: u32, kind: u32, cx: int, cy: int, k: int)
    requires
        icon_fits(cx, cy),
        0 <= k < s.len(),
        width == 0 || ({
            let x = (k / 4) % (width as int);
            let y = (k / 4) / (width as int);
            !(cx - 10 <= x < cx + 10 && cy - 10 <= y < cy + 10)
        }),
    ensures
        file_icon_drawn(s, width, kind, cx, cy)[k] == s[k],
        file_icon_drawn(s, width, kind, cx, cy).len() == s.len(),
{
    if kind == 0 {
        let body_rect = Rect { x: (cx - 10) as i32, y: (cy - 7) as i32, width: 20, height: 14 };
        let tab_rect = Rect { x: (cx - 10) as i32, y: (cy - 10) as i32, width: 9, height: 5 };
        let color: Color = [246u8, 190u8, 82u8, 240u8];
        let body = round_rect_filled(s, width, body_rect, 3, color);
        lemma_painted_keeps(s, width, |a: int, b: int| in_round_rect(body_rect, 3, a, b), color, k);
        lemma_painted_keeps(body, width, |a: int, b: int| tab_rect.holds(a, b), color, k);
    } else {
        let page_rect = Rect { x: (cx - 8) as i32, y: (cy - 10) as i32, width: 16, height: 20 };
        let r1 = Rect { x: (cx - 5) as i32, y: (cy - 5) as i32, width: 10, height: 2 };
        let r2 = Rect { x: (cx - 5) as i32, y: cy as i32, width: 10, height: 2 };
        let r3 = Rect { x: (cx - 5) as i32, y: (cy + 5) as i32, width: 7, height: 2 };
        let white: Color = [255u8, 255u8, 255u8, 220u8];
        let ink: Color = [90u8, 130u8, 150u8, 200u8];
        let faint: Color = [90u8, 130u8, 150u8, 180u8];
        let page = round_rect_filled(s, width, page_rect, 3, white);
        let line1 = rect_filled(page, width, r1, ink);
        let line2 = rect_filled(line1, width, r2, ink);
        lemma_painted_keeps(s, width, |a: int, b: int| in_round_rect(page_rect, 3, a, b), white, k);
        lemma_painted_keeps(page, width, |a: int, b: int| r1.holds(a, b), ink, k);
        lemma_painted_keeps(line1, width, |a: int, b: int| r2.holds(a, b), ink, k);
        lemma_painted_keeps(line2, width, |a: int, b: int| r3.holds(a, b), faint, k);
    }
}

/// Every kind other than a folder (0) draws the same page icon.
pub proof fn law_non_folder_icons_agree(s: Seq<u8>, width: u32, kind1: u32, kind2: u32, cx: int, cy: int)
    requires
        kind1 != 0,
        kind2 != 0,
    ensures
        file_icon_drawn(s, width, kind1, cx, cy) == file_icon_drawn(s, width, kind2, cx, cy),
{
}

/// Drawing a nearly opaque colour (alpha 250 or more) over the same pixel
/// twice leaves the frame that drawing it once leaves.
pub proof fn law_opaque_plot_idempotent(s: Seq<u8>, width: u32, x: int, y: int, color: Color)
    requires
        color[3] >= 250,
    ensures
        plotted(plotted(s, width, x, y, color), width, x, y, color) == plotted(s, width, x, y, color),
{
    lemma_painted_twice_opaque(s, width, |a: int, b: int| a == x && b == y, color);
}

/// Filling a rectangle twice with a nearly opaque colour leaves the frame
/// that filling it once leaves.
pub proof fn law_opaque_fill_idempotent(s: Seq<u8>, width: u32, rect: Rect, color: Color)
    requires
        color[3] >= 250,
    ensures
        rect_filled(rect_filled(s, width, rect, color), width, rect, color) == rect_filled(s, width, rect, color),
{
    lemma_painted_twice_opaque(s, width, |a: int, b: int| rect.holds(a, b), color);
}

/// A rounded rectangle whose radius is 0 or less is the plain rectangle.
pub proof fn law_round_rect_without_radius(s: Seq<u8>, width: u32, rect: Rect, radius: int, color: Color)
    requires
        radius <= 0,
    ensures
        round_rect_filled(s, width, rect, radius, color) == rect_filled(s, width, rect, color),
{
    assert forall|a: int, b: int| in_round_rect(rect, radius, a, b) == rect.holds(a, b) by {}
    let lhs = round_rect_filled(s, width, rect, radius, color);
    let rhs = rect_filled(s, width, rect, color);
    assert forall|k: int| 0 <= k < s.len() implies lhs[k] == rhs[k] by {
        if width > 0 {
            let x = (k / 4) % (width as int);
            let y = (k / 4) / (width as int);
            assert(in_round_rect(rect, radius, x, y) == rect.holds(x, y));
        }
    }
    assert(lhs =~= rhs);
}

/// `(d, e)` lies in a disc exactly when `(-d, e)` and `(d, -e)` do.
proof fn lemma_disc_mirror(d: int, e: int, r: int)
    ensures
        in_disc(d, e, r) == in_disc(-d, e, r),
        in_disc(d, e, r) == in_disc(d, -e, r),
{
    assert((-d) * (-d) == d * d) by (nonlinear_arith);
    assert((-e) * (-e) == e * e) by (nonlinear_arith);
}

/// The radius actually drawn is at least 0 and at most half of each side.
proof fn lemma_corner_radius_bounds(rect: Rect, radius: int)
    requires
        rect.width > 0,
        rect.height > 0,
    ensures
        0 <= corner_radius(rect, radius),
        2 * corner_radius(rect, radius) <= rect.width,
        2 * corner_radius(rect, radius) <= rect.height,
{
}

/// A rounded rectangle covers only pixels of its rectangle; its corners are
/// cut alike, so it is the same when mirrored left to right or top to
/// bottom within the rectangle; and every pixel of the rectangle outside
/// the four `r`×`r` corner squares is covered, `r` being the radius drawn.
pub proof fn law_round_rect_shape(rect: Rect, radius: int, a: int, b: int)
    ensures
        in_round_rect(rect, radius, a, b) ==> rect.holds(a, b),
        in_round_rect(rect, radius, a, b) == in_round_rect(rect, radius, 2 * rect.x + rect.width - 1 - a, b),
        in_round_rect(rect, radius, a, b) == in_round_rect(rect, radius, a, 2 * rect.y + rect.height - 1 - b),
        ({
            let r = corner_radius(rect, radius);
            let px = a - rect.x;
            let py = b - rect.y;
            rect.holds(a, b) && (r <= px < rect.width - r || r <= py < rect.height - r)
        }) ==> in_round_rect(rect, radius, a, b),
{
    if rect.width > 0 && rect.height > 0 {
        lemma_corner_radius_bounds(rect, radius);
        let r = corner_radius(rect, radius);
        let w = rect.width as int;
        let h = rect.height as int;
        let px = a - rect.x;
        let py = b - rect.y;
        let qx = w - 1 - px;
        let qy = h - 1 - py;
        lemma_disc_mirror(px - r, py - r, r);
        lemma_disc_mirror(px - r, py - (h - r - 1), r);
        lemma_disc_mirror(px - (w - r - 1), py - r, r);
        lemma_disc_mirror(px - (w - r - 1), py - (h - r - 1), r);
        assert(qx - r == -(px - (w - r - 1)));
        assert(qx - (w - r - 1) == -(px - r));
        assert(qy - r == -(py - (h - r - 1)));
        assert(qy - (h - r - 1) == -(py - r));
    }
}

/// A disc of negative radius draws nothing, and a disc of radius 0 draws
/// only its centre pixel.
pub proof fn law_disc_extremes(s: Seq<u8>, width: u32, cx: int, cy: int, radius: int, color: Color)
    ensures
        radius < 0 ==> disc_filled(s, width, cx, cy, radius, color) == s,
        radius == 0 ==> disc_filled(s, width, cx, cy, radius, color) == plotted(s, width, cx, cy, color),
{
    if radius < 0 {
        assert(disc_filled(s, width, cx, cy, radius, color) =~= s);
    }
    if radius == 0 {
        assert forall|a: int, b: int| #[trigger] in_disc(a - cx, b - cy, 0) == (a == cx && b == cy) by {
            let d = a - cx;
            let e = b - cy;
            assert(d * d >= 0 && e * e >= 0) by (nonlinear_arith);
            assert(d * d + e * e <= 0 ==> d == 0 && e == 0) by (nonlinear_arith);
        }
        let lhs = disc_filled(s, width, cx, cy, radius, color);
        let rhs = plotted(s, width, cx, cy, color);
        assert forall|k: int| 0 <= k < s.len() implies lhs[k] == rhs[k] by {
            if width > 0 {
                let x = (k / 4) % (width as int);
                let y = (k / 4) / (width as int);
                assert(in_disc(x - cx, y - cy, 0) == (x == cx && y == cy));
            }
        }
        assert(lhs =~= rhs);
    }
}


/// Byte `k` of `s` with `color` drawn over its pixel when `inside` holds and
/// the pixel can be drawn, and unchanged otherwise.
pub open spec fn drawn_if(s: Seq<u8>, width: u32, k: int, inside: bool, color: Color) -> u8 {
    let x = (k / 4) % (width as int);
    let y = (k / 4) / (width as int);
    if inside && drawable(s.len() as int, width as int, x, y) { blended_byte(s[k], k % 4, color) } else { s[k] }
}

/// A requested corner radius of at most half of each side is the radius
/// drawn: within the top-left `radius`×`radius` corner square a pixel is
/// drawn exactly when it lies within `radius` of the square's inner corner
/// `(rect.x + radius, rect.y + radius)`; the other corners follow by the
/// mirror symmetry of `law_round_rect_shape`.
pub proof fn law_round_rect_keeps_requested_radius(s: Seq<u8>, width: u32, rect: Rect, radius: int, color: Color, k: int)
    requires
        rect.width > 0,
        rect.height > 0,
        0 <= radius,
        2 * radius <= rect.width,
        2 * radius <= rect.height,
        width > 0,
        0 <= k < s.len(),
        ({
            let px = (k / 4) % (width as int) - rect.x;
            let py = (k / 4) / (width as int) - rect.y;
            0 <= px < radius && 0 <= py < radius
        }),
    ensures
        corner_radius(rect, radius) == radius,
        ({
            let px = (k / 4) % (width as int) - rect.x;
            let py = (k / 4) / (width as int) - rect.y;
            let near = (px - radius) * (px - radius) + (py - radius) * (py - radius) <= radius * radius;
            round_rect_filled(s, width, rect, radius, color)[k] == drawn_if(s, width, k, near, color)
        }),
{
}

/// For a radius of 0 or more a pixel is drawn exactly when its squared
/// distance from the centre is at most the squared radius; so the disc is
/// the same mirrored about its centre column and about its centre row.
pub proof fn law_disc_pixels(s: Seq<u8>, width: u32, cx: int, cy: int, radius: int, color: Color, k: int)
    requires
        radius >= 0,
        width > 0,
        0 <= k < s.len(),
    ensures
        ({
            let x = (k / 4) % (width as int);
            let y = (k / 4) / (width as int);
            let inside = (x - cx) * (x - cx) + (y - cy) * (y - cy) <= radius * radius;
            disc_filled(s, width, cx, cy, radius, color)[k] == drawn_if(s, width, k, inside, color)
        }),
        ({
            let x = (k / 4) % (width as int);
            let y = (k / 4) / (width as int);
            &&& disc_shape(cx, cy, radius)(x, y) == disc_shape(cx, cy, radius)(2 * cx - x, y)
            &&& disc_shape(cx, cy, radius)(x, y) == disc_shape(cx, cy, radius)(x, 2 * cy - y)
        }),
{
    let x = (k / 4) % (width as int);
    let y = (k / 4) / (width as int);
    lemma_disc_mirror(x - cx, y - cy, radius);
    assert((2 * cx - x) - cx == -(x - cx));
    assert((2 * cy - y) - cy == -(y - cy));
}

/// The bar that marks the focused window's launcher.
pub open spec fn focus_bar(dock: Rect, i: int) -> CommandView {
    DrawOp::Fill {
        rect: Rect {
            x: (dock.x + i * 50 + 12) as i32,
            y: (dock.y + div_trunc(dock.height as int, 2) - 22 + 46) as i32,
            width: 20,
            height: 3,
        },
        color: [40u8, 70u8, 90u8, 220u8],
    }
}

/// The dock is its panel followed by the commands of its five launchers,
/// left to right; launcher `i` carries the focus bar exactly when it opens
/// the focused window: Term (0) the terminal (slot 0), Files (1) the Files
/// window (slot 2), Net (2) the browser (slot 1). The other launchers never
/// carry it.
pub proof fn law_dock_focus_bar(dock: Rect, active: u32, i: int)
    requires
        0 <= i < 5,
    ensures
        dock_cmds(dock, active) == seq![dock_cmds(dock, active)[0]] + dock_button_cmds(dock, active, 0)
            + dock_button_cmds(dock, active, 1) + dock_button_cmds(dock, active, 2)
            + dock_button_cmds(dock, active, 3) + dock_button_cmds(dock, active, 4),
        ({
            let owns = (i == 0 && active == 0) || (i == 1 && active == 2) || (i == 2 && active == 1);
            let c = dock_button_cmds(dock, active, i);
            &&& c.len() == if owns { 3int } else { 2int }
            &&& owns ==> c[1] == focus_bar(dock, i)
            &&& !owns ==> !c.contains(focus_bar(dock, i))
        }),
{
    reveal_with_fuel(dock_buttons, 6);
    let c = dock_button_cmds(dock, active, i);
    let owns = (i == 0 && active == 0) || (i == 1 && active == 2) || (i == 2 && active == 1);
    if !owns {
        assert forall|j: int| 0 <= j < c.len() implies c[j] != focus_bar(dock, i) by {
            if j == 0 {
                assert(c[0] is RoundFill);
            } else {
                assert(c[j] is Text);
            }
        }
    }
}

/// After a click on one of the first three dock launchers, the next frame's
/// dock marks that launcher and no other.
pub proof fn law_dock_click_moves_focus_bar(v: StateView, x: int, y: int, j: int)
    requires
        v.well_formed(),
        v.dock.holds(x, y),
        (x - v.dock.x) / 50 < 3,
        0 <= j < 5,
    ensures
        ({
            let b = (x - v.dock.x) / 50;
            let w = pointer_outcome(v, x, y).0;
            dock_button_cmds(w.dock, w.active, j).len() == 3 <==> j == b
        }),
{
}

/// An entry added with a kind of at most 3 keeps that kind; a larger kind
/// becomes 3 (a configuration file). The name is the decoded bytes.
pub proof fn law_added_entry_kind(bytes: Seq<u8>, kind: u32)
    ensures
        kind <= 3 ==> new_entry(bytes, kind).kind == kind,
        kind > 3 ==> new_entry(bytes, kind).kind == 3,
        new_entry(bytes, kind).name == crate::state::lossy_utf8(bytes),
{
}

/// A press changes the Files selection only when it falls off the dock, on
/// the Files window as the topmost window under the pointer, in the list
/// area (at or right of `content.x + 132`, at or below `content.y + 90`),
/// on an existing row; it then selects that row, counted in steps of 42
/// pixels. In particular a press left of the list (on the sidebar) keeps
/// the selection.
pub proof fn law_selection_changes_only_in_list(v: StateView, x: int, y: int)
    requires
        v.well_formed(),
    ensures
        ({
            let c = v.clients[2].content;
            let after = pointer_outcome(v, x, y).0.files_selected;
            &&& x < c.x + 132 ==> after == v.files_selected
            &&& after != v.files_selected ==> {
                &&& !v.dock.holds(x, y)
                &&& clicked_window(v, x, y) == Some(2int)
                &&& x >= c.x + 132
                &&& y >= c.y + 90
                &&& after == (y - (c.y + 90)) / 42
                &&& after < v.files.len()
            }
        }),
{
}

} // verus!
