use vstd::prelude::*;
use crate::geometry::{
    Rect, Client, DOCK_BUTTONS, DOCK_ICON_RADIUS, DOCK_ICON_SIZE, DOCK_STRIDE, FILES_INDEX,
    FRAME_CORNER_RADIUS, NETSURF_INDEX, TERM_INDEX, TITLEBAR_HEIGHT, TOPBAR_HEIGHT, WINDOW_COUNT,
    div_trunc,
};
use crate::raster::{
    Color, disc_filled, disc_fits, draw_file_icon, file_icon_drawn, fill_circle, fill_rect, fill_round_rect,
    icon_fits, lemma_round_rect_fits, rect_filled, round_rect_filled,
};
use crate::state::{FileEntry, FileView, entries_view, strings_view};

verus! {

/// The typeface a text is set in.
#[derive(Clone, Copy, Debug, PartialEq, Eq, Structural)]
pub enum FontFace {
    Regular,
    Bold,
    Mono,
}

/// Where a text stands relative to the `x` of its command.
#[derive(Clone, Copy, Debug, PartialEq, Eq, Structural)]
pub enum TextAlign {
    /// The text starts at `x`.
    Left,
    /// The text ends at `x`.
    Right,
    /// The text is centred in a box of the given width that starts at `x`.
    Centered(i32),
}

/// One step of drawing a frame, in the order the steps are taken. `T` is the
/// type of a text: `String` for the commands that are run, `Seq<char>` for
/// their model.
#[derive(Debug)]
pub enum DrawOp<T> {
    /// Fill a rectangle.
    Fill { rect: Rect, color: Color },
    /// Fill a rectangle with rounded corners.
    RoundFill { rect: Rect, radius: i32, color: Color },
    /// Fill a disc.
    Disc { cx: i32, cy: i32, radius: i32, color: Color },
    /// Draw the icon of a file of the given kind.
    FileIcon { kind: u32, cx: i32, cy: i32 },
    /// Set a text whose top edge is at `y`, in a size of `size` pixels.
    Text { face: FontFace, text: T, x: i32, y: i32, size: u32, color: Color, align: TextAlign },
}

/// A draw command as it is run.
pub type Command = DrawOp<String>;

/// The model of a draw command.
pub type CommandView = DrawOp<Seq<char>>;

impl View for DrawOp<String> {
    type V = DrawOp<Seq<char>>;

    open spec fn view(&self) -> DrawOp<Seq<char>> {
        match self {
            DrawOp::Fill { rect, color } => DrawOp::Fill { rect: *rect, color: *color },
            DrawOp::RoundFill { rect, radius, color } => DrawOp::RoundFill { rect: *rect, radius: *radius, color: *color },
            DrawOp::Disc { cx, cy, radius, color } => DrawOp::Disc { cx: *cx, cy: *cy, radius: *radius, color: *color },
            DrawOp::FileIcon { kind, cx, cy } => DrawOp::FileIcon { kind: *kind, cx: *cx, cy: *cy },
            DrawOp::Text { face, text, x, y, size, color, align } => DrawOp::Text {
                face: *face,
                text: text@,
                x: *x,
                y: *y,
                size: *size,
                color: *color,
                align: *align,
            },
        }
    }
}

/// The models of a list of commands.
pub open spec fn cmds(v: Seq<Command>) -> Seq<CommandView> {
    v.map_values(|c: Command| c@)
}

/// A coordinate small enough for the rasteriser's arithmetic.
pub open spec fn coord_ok(v: int) -> bool {
    -8_000_000 <= v <= 8_000_000
}

/// Every coordinate of the rectangle is small.
pub open spec fn rect_ok(r: Rect) -> bool {
    coord_ok(r.x as int) && coord_ok(r.y as int) && coord_ok(r.width as int) && coord_ok(r.height as int)
}

/// A command whose coordinates are small and whose radius is at most 16384.
pub open spec fn cmd_small(c: CommandView) -> bool {
    match c {
        DrawOp::Fill { rect, .. } => rect_ok(rect),
        DrawOp::RoundFill { rect, radius, .. } => rect_ok(rect) && 0 <= radius <= 16384,
        DrawOp::Disc { cx, cy, radius, .. } => coord_ok(cx as int) && coord_ok(cy as int) && 0 <= radius <= 16384,
        DrawOp::FileIcon { cx, cy, .. } => coord_ok(cx as int) && coord_ok(cy as int),
        DrawOp::Text { .. } => true,
    }
}

/// All commands of the list are small.
pub open spec fn all_small(v: Seq<CommandView>) -> bool {
    forall|i: int| 0 <= i < v.len() ==> cmd_small(#[trigger] v[i])
}

proof fn lemma_cmds_push(v: Seq<Command>, c: Command)
    ensures
        cmds(v.push(c)) == cmds(v).push(c@),
{
    assert(cmds(v.push(c)) =~= cmds(v).push(c@));
}

pub(crate) fn push_fill(ops: &mut Vec<Command>, rect: Rect, color: Color)
    requires
        cmd_small(DrawOp::Fill { rect, color }),
    ensures
        all_small(cmds(old(ops)@)) ==> all_small(cmds(final(ops)@)),
        cmds(final(ops)@) == cmds(old(ops)@).push(DrawOp::Fill { rect, color }),
{
    let c = DrawOp::Fill { rect, color };
    proof { lemma_cmds_push(ops@, c); }
    ops.push(c);
}

fn push_round(ops: &mut Vec<Command>, rect: Rect, radius: i32, color: Color)
    requires
        cmd_small(DrawOp::RoundFill { rect, radius, color }),
    ensures
        all_small(cmds(old(ops)@)) ==> all_small(cmds(final(ops)@)),
        cmds(final(ops)@) == cmds(old(ops)@).push(DrawOp::RoundFill { rect, radius, color }),
{
    let c = DrawOp::RoundFill { rect, radius, color };
    proof { lemma_cmds_push(ops@, c); }
    ops.push(c);
}

fn push_disc(ops: &mut Vec<Command>, cx: i32, cy: i32, radius: i32, color: Color)
    requires
        cmd_small(DrawOp::Disc { cx, cy, radius, color }),
    ensures
        all_small(cmds(old(ops)@)) ==> all_small(cmds(final(ops)@)),
        cmds(final(ops)@) == cmds(old(ops)@).push(DrawOp::Disc { cx, cy, radius, color }),
{
    let c = DrawOp::Disc { cx, cy, radius, color };
    proof { lemma_cmds_push(ops@, c); }
    ops.push(c);
}

fn push_icon(ops: &mut Vec<Command>, kind: u32, cx: i32, cy: i32)
    requires
        cmd_small(DrawOp::FileIcon { kind, cx, cy }),
    ensures
        all_small(cmds(old(ops)@)) ==> all_small(cmds(final(ops)@)),
        cmds(final(ops)@) == cmds(old(ops)@).push(DrawOp::FileIcon { kind, cx, cy }),
{
    let c = DrawOp::FileIcon { kind, cx, cy };
    proof { lemma_cmds_push(ops@, c); }
    ops.push(c);
}

fn push_text(ops: &mut Vec<Command>, face: FontFace, text: String, x: i32, y: i32, size: u32, color: Color, align: TextAlign)
    ensures
        all_small(cmds(old(ops)@)) ==> all_small(cmds(final(ops)@)),
        cmds(final(ops)@) == cmds(old(ops)@).push(
            DrawOp::Text { face, text: text@, x, y, size, color, align },
        ),
{
    let ghost t = text@;
    let c = DrawOp::Text { face, text, x, y, size, color, align };
    proof { lemma_cmds_push(ops@, c); }
    ops.push(c);
}

/// A text in the given face, left-aligned at `(x, y)`.
pub open spec fn text_at(face: FontFace, text: Seq<char>, x: int, y: int, size: u32, color: Color) -> CommandView {
    DrawOp::Text { face, text, x: x as i32, y: y as i32, size, color, align: TextAlign::Left }
}

/// The commands of the top bar of a screen `width` pixels wide at time
/// `tick` ms: the translucent bar and its bottom rule, the Aurora mark and
/// name on the left, a status light that changes colour every 400 ms and the
/// session label right-aligned next to it.
pub open spec fn topbar_cmds(width: u32, tick: u32) -> Seq<CommandView> {
    let w = width as i32;
    seq![
        DrawOp::Fill { rect: Rect { x: 0, y: 0, width: w, height: TOPBAR_HEIGHT }, color: [250u8, 254u8, 255u8, 210u8] },
        DrawOp::Fill { rect: Rect { x: 0, y: (TOPBAR_HEIGHT - 1) as i32, width: w, height: 1 }, color: [180u8, 200u8, 215u8, 180u8] },
        DrawOp::Disc { cx: 22, cy: 20, radius: 7, color: [76u8, 197u8, 178u8, 255u8] },
        text_at(FontFace::Bold, "Aurora"@, 38, 10, 16, [45u8, 75u8, 95u8, 255u8]),
        DrawOp::Disc {
            cx: (w - 18) as i32,
            cy: 20,
            radius: 5,
            color: if (tick / 400) % 2 == 0 { [76u8, 197u8, 178u8, 255u8] } else { [182u8, 243u8, 107u8, 255u8] },
        },
        DrawOp::Text {
            face: FontFace::Regular,
            text: "DISPLAY :0  \u{b7}  TERM+NETSURF+FILES"@,
            x: (w - 32) as i32,
            y: 11,
            size: 13,
            color: [60u8, 90u8, 110u8, 240u8],
            align: TextAlign::Right,
        },
    ]
}

/// Appends the commands of the top bar.
pub(crate) fn draw_topbar(ops: &mut Vec<Command>, width: u32, tick: u32)
    requires
        width <= 1_000_000,
    ensures
        all_small(cmds(old(ops)@)) ==> all_small(cmds(final(ops)@)),
        cmds(final(ops)@) == cmds(old(ops)@) + topbar_cmds(width, tick),
{
    let ghost start = cmds(ops@);
    let w = width as i32;
    push_fill(ops, Rect { x: 0, y: 0, width: w, height: TOPBAR_HEIGHT }, [250, 254, 255, 210]);
    push_fill(ops, Rect { x: 0, y: TOPBAR_HEIGHT - 1, width: w, height: 1 }, [180, 200, 215, 180]);
    push_disc(ops, 22, 20, 7, [76, 197, 178, 255]);
    push_text(ops, FontFace::Bold, String::from_str("Aurora"), 38, 10, 16, [45, 75, 95, 255], TextAlign::Left);
    let pulse = (tick / 400) % 2;
    let light: Color = if pulse == 0 { [76, 197, 178, 255] } else { [182, 243, 107, 255] };
    push_disc(ops, w - 18, 20, 5, light);
    push_text(
        ops,
        FontFace::Regular,
        String::from_str("DISPLAY :0  \u{b7}  TERM+NETSURF+FILES"),
        w - 32,
        11,
        13,
        [60, 90, 110, 240],
        TextAlign::Right,
    );
    assert(cmds(ops@) =~= start + topbar_cmds(width, tick));
}


/// A rectangle whose coordinates are small enough for the offsets the
/// scene adds to them.
pub open spec fn modest(r: Rect) -> bool {
    within(r, 1_000_000)
}

/// Every coordinate of the rectangle lies in `[-b, b]`.
pub open spec fn within(r: Rect, b: int) -> bool {
    &&& -b <= r.x <= b
    &&& -b <= r.y <= b
    &&& -b <= r.width <= b
    &&& -b <= r.height <= b
}

/// The title of window slot `index`; slots past the last fall back to the
/// first title.
pub open spec fn title_of(index: int) -> Seq<char> {
    if index == NETSURF_INDEX {
        "NetSurf"@
    } else if index == FILES_INDEX {
        "Aurora Files"@
    } else {
        "Aurora Terminal"@
    }
}

/// The title of window slot `index`.
pub fn window_title(index: usize) -> (t: &'static str)
    ensures
        t@ == title_of(index as int),
{
    if index == NETSURF_INDEX {
        "NetSurf"
    } else if index == FILES_INDEX {
        "Aurora Files"
    } else {
        "Aurora Terminal"
    }
}

/// The label shown under a file of the given kind.
pub open spec fn kind_text(kind: u32) -> Seq<char> {
    if kind == 0 {
        "Folder"@
    } else if kind == 2 {
        "Text"@
    } else if kind == 3 {
        "Config"@
    } else {
        "File"@
    }
}

/// The label of a file kind: 0 is a folder, 2 a text, 3 a configuration,
/// anything else a plain file.
pub fn kind_label(kind: u32) -> (t: &'static str)
    ensures
        t@ == kind_text(kind),
{
    if kind == 0 {
        "Folder"
    } else if kind == 2 {
        "Text"
    } else if kind == 3 {
        "Config"
    } else {
        "File"
    }
}

/// Colour of the title bar of an active or an inactive window.
pub open spec fn titlebar_color(active: bool) -> Color {
    if active { [221u8, 238u8, 252u8, 232u8] } else { [250u8, 254u8, 255u8, 225u8] }
}

/// Colour of the title of an active or an inactive window.
pub open spec fn title_text_color(active: bool) -> Color {
    if active { [40u8, 70u8, 95u8, 255u8] } else { [70u8, 95u8, 115u8, 230u8] }
}

/// The commands of the title bar of window slot `index`: the bar with its
/// rounded top corners and square bottom, the close, minimise and maximise
/// lights, and the title.
pub open spec fn titlebar_cmds(index: int, client: Client, active: bool) -> Seq<CommandView> {
    let f = client.frame;
    let color = titlebar_color(active);
    seq![
        DrawOp::RoundFill {
            rect: Rect { x: f.x, y: f.y, width: f.width, height: (TITLEBAR_HEIGHT + FRAME_CORNER_RADIUS) as i32 },
            radius: FRAME_CORNER_RADIUS,
            color,
        },
        DrawOp::Fill {
            rect: Rect { x: f.x, y: (f.y + TITLEBAR_HEIGHT - FRAME_CORNER_RADIUS) as i32, width: f.width, height: FRAME_CORNER_RADIUS },
            color,
        },
        DrawOp::Disc { cx: (f.x + 19) as i32, cy: (f.y + 17) as i32, radius: 8, color: [241u8, 96u8, 105u8, 235u8] },
        DrawOp::Disc { cx: (f.x + 42) as i32, cy: (f.y + 17) as i32, radius: 8, color: [246u8, 190u8, 82u8, 235u8] },
        DrawOp::Disc { cx: (f.x + 65) as i32, cy: (f.y + 17) as i32, radius: 8, color: [76u8, 197u8, 178u8, 235u8] },
        text_at(FontFace::Bold, title_of(index), f.x + 86, f.y + 8, 15, title_text_color(active)),
    ]
}

pub(crate) fn draw_titlebar(ops: &mut Vec<Command>, index: usize, client: Client, active: bool)
    requires
        index < WINDOW_COUNT,
        modest(client.frame),
    ensures
        all_small(cmds(old(ops)@)) ==> all_small(cmds(final(ops)@)),
        cmds(final(ops)@) == cmds(old(ops)@) + titlebar_cmds(index as int, client, active),
{
    let ghost start = cmds(ops@);
    let f = client.frame;
    let color: Color = if active { [221, 238, 252, 232] } else { [250, 254, 255, 225] };
    push_round(ops, Rect { x: f.x, y: f.y, width: f.width, height: TITLEBAR_HEIGHT + FRAME_CORNER_RADIUS }, FRAME_CORNER_RADIUS, color);
    push_fill(ops, Rect { x: f.x, y: f.y + TITLEBAR_HEIGHT - FRAME_CORNER_RADIUS, width: f.width, height: FRAME_CORNER_RADIUS }, color);
    push_disc(ops, f.x + 19, f.y + 17, 8, [241, 96, 105, 235]);
    push_disc(ops, f.x + 42, f.y + 17, 8, [246, 190, 82, 235]);
    push_disc(ops, f.x + 65, f.y + 17, 8, [76, 197, 178, 235]);
    let text_color: Color = if active { [40, 70, 95, 255] } else { [70, 95, 115, 230] };
    push_text(ops, FontFace::Bold, String::from_str(window_title(index)), f.x + 86, f.y + 8, 15, text_color, TextAlign::Left);
    assert(cmds(ops@) =~= start + titlebar_cmds(index as int, client, active));
}

/// The commands of the browser placeholder: a light page with the browser's
/// name, a loading line and the project address.
pub open spec fn netsurf_cmds(c: Rect) -> Seq<CommandView> {
    seq![
        DrawOp::Fill { rect: c, color: [248u8, 250u8, 252u8, 255u8] },
        text_at(FontFace::Bold, "NetSurf"@, c.x + 18, c.y + 18, 18, [20u8, 80u8, 140u8, 255u8]),
        text_at(FontFace::Regular, "Loading netsurf-web.wasm framebuffer\u{2026}"@, c.x + 18, c.y + 46, 13, [60u8, 90u8, 120u8, 255u8]),
        text_at(FontFace::Regular, "github.com/netsurf-browser/netsurf"@, c.x + 18, c.y + 68, 12, [90u8, 120u8, 150u8, 255u8]),
    ]
}

pub(crate) fn draw_netsurf_placeholder(ops: &mut Vec<Command>, c: Rect)
    requires
        modest(c),
    ensures
        all_small(cmds(old(ops)@)) ==> all_small(cmds(final(ops)@)),
        cmds(final(ops)@) == cmds(old(ops)@) + netsurf_cmds(c),
{
    let ghost start = cmds(ops@);
    push_fill(ops, c, [248, 250, 252, 255]);
    push_text(ops, FontFace::Bold, String::from_str("NetSurf"), c.x + 18, c.y + 18, 18, [20, 80, 140, 255], TextAlign::Left);
    push_text(
        ops,
        FontFace::Regular,
        String::from_str("Loading netsurf-web.wasm framebuffer\u{2026}"),
        c.x + 18,
        c.y + 46,
        13,
        [60, 90, 120, 255],
        TextAlign::Left,
    );
    push_text(
        ops,
        FontFace::Regular,
        String::from_str("github.com/netsurf-browser/netsurf"),
        c.x + 18,
        c.y + 68,
        12,
        [90, 120, 150, 255],
        TextAlign::Left,
    );
    assert(cmds(ops@) =~= start + netsurf_cmds(c));
}

/// The label of dock launcher `i`.
pub open spec fn dock_label(i: int) -> Seq<char> {
    if i == 0 {
        "Term"@
    } else if i == 1 {
        "Files"@
    } else if i == 2 {
        "Net"@
    } else if i == 3 {
        "Set"@
    } else {
        "More"@
    }
}

fn dock_label_str(i: i32) -> (t: &'static str)
    ensures
        t@ == dock_label(i as int),
{
    if i == 0 {
        "Term"
    } else if i == 1 {
        "Files"
    } else if i == 2 {
        "Net"
    } else if i == 3 {
        "Set"
    } else {
        "More"
    }
}

/// The colour of dock launcher `i`.
pub open spec fn dock_color(i: int) -> Color {
    if i == 0 {
        [76u8, 197u8, 178u8, 235u8]
    } else if i == 1 {
        [115u8, 170u8, 220u8, 235u8]
    } else if i == 2 {
        [246u8, 190u8, 82u8, 235u8]
    } else if i == 3 {
        [182u8, 243u8, 107u8, 235u8]
    } else {
        [180u8, 160u8, 210u8, 235u8]
    }
}

/// Launcher `i` belongs to the focused window: Term to the terminal, Files
/// to Aurora Files, Net to the browser.
pub open spec fn dock_focused(i: int, active: u32) -> bool {
    ||| i == 0 && active == TERM_INDEX
    ||| i == 1 && active == FILES_INDEX
    ||| i == 2 && active == NETSURF_INDEX
}

/// Top edge of the dock launchers.
pub open spec fn dock_icon_top(dock: Rect) -> int {
    dock.y + div_trunc(dock.height as int, 2) - DOCK_ICON_SIZE / 2
}

/// The commands of dock launcher `i`: its rounded tile, a bar under it when
/// its window is focused, and its label centred on the tile.
pub open spec fn dock_button_cmds(dock: Rect, active: u32, i: int) -> Seq<CommandView> {
    let ix = dock.x + i * DOCK_STRIDE;
    let iy = dock_icon_top(dock);
    seq![DrawOp::RoundFill {
        rect: Rect { x: ix as i32, y: iy as i32, width: DOCK_ICON_SIZE, height: DOCK_ICON_SIZE },
        radius: DOCK_ICON_RADIUS,
        color: dock_color(i),
    }] + (if dock_focused(i, active) {
        seq![DrawOp::Fill {
            rect: Rect { x: (ix + 12) as i32, y: (iy + DOCK_ICON_SIZE + 2) as i32, width: 20, height: 3 },
            color: [40u8, 70u8, 90u8, 220u8],
        }]
    } else {
        Seq::empty()
    }) + seq![DrawOp::Text {
        face: FontFace::Bold,
        text: dock_label(i),
        x: ix as i32,
        y: (iy + 14) as i32,
        size: 10,
        color: [20u8, 35u8, 45u8, 255u8],
        align: TextAlign::Centered(DOCK_ICON_SIZE),
    }]
}

/// The commands of the first `n` dock launchers, left to right.
pub open spec fn dock_buttons(dock: Rect, active: u32, n: nat) -> Seq<CommandView>
    decreases n,
{
    if n == 0 {
        Seq::empty()
    } else {
        dock_buttons(dock, active, (n - 1) as nat) + dock_button_cmds(dock, active, n - 1)
    }
}

/// The commands of the dock: its rounded panel, then its launchers.
pub open spec fn dock_cmds(dock: Rect, active: u32) -> Seq<CommandView> {
    seq![DrawOp::RoundFill { rect: dock, radius: 16, color: [250u8, 254u8, 255u8, 200u8] }]
        + dock_buttons(dock, active, DOCK_BUTTONS as nat)
}

pub(crate) fn draw_dock(ops: &mut Vec<Command>, dock: Rect, active: u32)
    requires
        modest(dock),
    ensures
        all_small(cmds(old(ops)@)) ==> all_small(cmds(final(ops)@)),
        cmds(final(ops)@) == cmds(old(ops)@) + dock_cmds(dock, active),
{
    let ghost start = cmds(ops@);
    push_round(ops, dock, 16, [250, 254, 255, 200]);
    let cy = dock.y + dock.height / 2;
    let mut i: i32 = 0;
    while i < DOCK_BUTTONS
        invariant
            modest(dock),
            cy == dock.y + div_trunc(dock.height as int, 2),
            0 <= i <= DOCK_BUTTONS,
            cmds(ops@) == start + seq![DrawOp::RoundFill { rect: dock, radius: 16, color: [250u8, 254u8, 255u8, 200u8] }]
                + dock_buttons(dock, active, i as nat),
            all_small(start) ==> all_small(cmds(ops@)),
        decreases DOCK_BUTTONS - i,
    {
        let ghost before = cmds(ops@);
        let ix = dock.x + i * DOCK_STRIDE;
        let iy = cy - DOCK_ICON_SIZE / 2;
        let focused = (i == 0 && active == TERM_INDEX as u32) || (i == 1 && active == FILES_INDEX as u32) || (i == 2
            && active == NETSURF_INDEX as u32);
        let color: Color = if i == 0 {
            [76, 197, 178, 235]
        } else if i == 1 {
            [115, 170, 220, 235]
        } else if i == 2 {
            [246, 190, 82, 235]
        } else if i == 3 {
            [182, 243, 107, 235]
        } else {
            [180, 160, 210, 235]
        };
        push_round(ops, Rect { x: ix, y: iy, width: DOCK_ICON_SIZE, height: DOCK_ICON_SIZE }, DOCK_ICON_RADIUS, color);
        if focused {
            push_fill(ops, Rect { x: ix + 12, y: iy + DOCK_ICON_SIZE + 2, width: 20, height: 3 }, [40, 70, 90, 220]);
        }
        push_text(
            ops,
            FontFace::Bold,
            String::from_str(dock_label_str(i)),
            ix,
            iy + 14,
            10,
            [20, 35, 45, 255],
            TextAlign::Centered(DOCK_ICON_SIZE),
        );
        assert(cmds(ops@) =~= before + dock_button_cmds(dock, active, i as int));
        i = i + 1;
    }
    assert(cmds(ops@) =~= start + dock_cmds(dock, active));
}


/// The lines the terminal shows before the host has sent any.
pub open spec fn term_fallback() -> Seq<Seq<char>> {
    seq![
        "Aurora Terminal"@,
        "compiled from ecooxai/aurora-wm"@,
        "PTY bridge: agentOS browser shell"@,
        "$ ls /workspace"@,
        "README.md  hello.txt  config.json"@,
        "$"@,
    ]
}

/// How many 16-pixel lines fit in a terminal whose content is `height`
/// pixels tall: the body starts 40 pixels down and keeps a 4-pixel margin
/// at the bottom.
pub open spec fn term_rows_fit(height: int) -> int {
    if height >= 60 { (height - 60) / 16 + 1 } else { 0 }
}

/// The lines the terminal shows: the host's lines, or the fallback when
/// there are none.
pub open spec fn term_rows(lines: Seq<Seq<char>>) -> Seq<Seq<char>> {
    if lines.len() == 0 { term_fallback() } else { lines }
}

/// Number of terminal lines drawn: as many as there are, up to those that fit.
pub open spec fn term_shown(c: Rect, lines: Seq<Seq<char>>) -> int {
    let n = term_rows(lines).len() as int;
    let f = term_rows_fit(c.height as int);
    if n <= f { n } else { f }
}

/// The command of terminal line `k`.
pub open spec fn term_line_cmd(c: Rect, line: Seq<char>, k: int) -> CommandView {
    text_at(FontFace::Mono, line, c.x + 12, c.y + 40 + 16 * k, 12, [115u8, 222u8, 210u8, 255u8])
}

/// The commands of the terminal: its light body, the tab strip with the
/// "shell" tab (white when the terminal is focused), the dark console, and
/// the first lines that fit, top to bottom.
pub open spec fn term_cmds(c: Rect, active: bool, lines: Seq<Seq<char>>) -> Seq<CommandView> {
    let rows = term_rows(lines);
    seq![
        DrawOp::Fill { rect: c, color: [247u8, 252u8, 255u8, 245u8] },
        DrawOp::Fill { rect: Rect { x: c.x, y: c.y, width: c.width, height: 28 }, color: [230u8, 238u8, 245u8, 255u8] },
        DrawOp::RoundFill {
            rect: Rect { x: (c.x + 8) as i32, y: (c.y + 4) as i32, width: 92, height: 22 },
            radius: 8,
            color: if active { [255u8, 255u8, 255u8, 255u8] } else { [245u8, 248u8, 252u8, 255u8] },
        },
        text_at(FontFace::Bold, "shell"@, c.x + 20, c.y + 8, 12, [40u8, 80u8, 95u8, 255u8]),
        DrawOp::Fill {
            rect: Rect { x: c.x, y: (c.y + 30) as i32, width: c.width, height: (c.height - 30) as i32 },
            color: [24u8, 36u8, 42u8, 255u8],
        },
    ] + Seq::new(term_shown(c, lines) as nat, |k: int| term_line_cmd(c, rows[k], k))
}

fn term_fallback_lines() -> (v: Vec<String>)
    ensures
        strings_view(v@) == term_fallback(),
{
    let mut v: Vec<String> = Vec::new();
    v.push(String::from_str("Aurora Terminal"));
    v.push(String::from_str("compiled from ecooxai/aurora-wm"));
    v.push(String::from_str("PTY bridge: agentOS browser shell"));
    v.push(String::from_str("$ ls /workspace"));
    v.push(String::from_str("README.md  hello.txt  config.json"));
    v.push(String::from_str("$"));
    assert(strings_view(v@) =~= term_fallback());
    v
}

pub(crate) fn draw_terminal_body(ops: &mut Vec<Command>, c: Rect, active: bool, lines: &Vec<String>)
    requires
        modest(c),
    ensures
        all_small(cmds(old(ops)@)) ==> all_small(cmds(final(ops)@)),
        cmds(final(ops)@) == cmds(old(ops)@) + term_cmds(c, active, strings_view(lines@)),
{
    let ghost start = cmds(ops@);
    push_fill(ops, c, [247, 252, 255, 245]);
    push_fill(ops, Rect { x: c.x, y: c.y, width: c.width, height: 28 }, [230, 238, 245, 255]);
    let tab: Color = if active { [255, 255, 255, 255] } else { [245, 248, 252, 255] };
    push_round(ops, Rect { x: c.x + 8, y: c.y + 4, width: 92, height: 22 }, 8, tab);
    push_text(ops, FontFace::Bold, String::from_str("shell"), c.x + 20, c.y + 8, 12, [40, 80, 95, 255], TextAlign::Left);
    let body_top = c.y + 30;
    push_fill(ops, Rect { x: c.x, y: body_top, width: c.width, height: c.height - 30 }, [24, 36, 42, 255]);
    let ghost lv = strings_view(lines@);
    let ghost head = cmds(ops@);
    let fallback = term_fallback_lines();
    let rows: &Vec<String> = if lines.len() == 0 { &fallback } else { lines };
    assert(strings_view(rows@) == term_rows(lv));
    let ghost rv = strings_view(rows@);
    let ghost shown = term_shown(c, lv);
    let mut y = body_top + 10;
    let mut k: usize = 0;
    while k < rows.len()
        invariant
            modest(c),
            rv == strings_view(rows@),
            rv == term_rows(lv),
            shown == term_shown(c, lv),
            0 <= k <= rows.len(),
            k <= shown,
            y == c.y + 40 + 16 * k,
            cmds(ops@) == head + Seq::new(k as nat, |j: int| term_line_cmd(c, rv[j], j)),
        ensures
            cmds(ops@) == head + Seq::new(shown as nat, |j: int| term_line_cmd(c, rv[j], j)),
        decreases rows.len() - k,
    {
        if y + 16 > c.y + c.height - 4 {
            break;
        }
        let ghost before = cmds(ops@);
        push_text(ops, FontFace::Mono, rows[k].clone(), c.x + 12, y, 12, [115, 222, 210, 255], TextAlign::Left);
        assert(cmds(ops@) =~= head + Seq::new((k + 1) as nat, |j: int| term_line_cmd(c, rv[j], j)));
        y = y + 16;
        k = k + 1;
    }
    assert(cmds(ops@) =~= start + term_cmds(c, active, lv));
}


/// The decimal digit `d` as a character.
pub open spec fn digit_char(d: int) -> char {
    (48 + d) as char
}

/// The decimal representation of `n`, without leading zeros.
pub open spec fn decimal(n: nat) -> Seq<char>
    decreases n,
{
    if n < 10 {
        seq![digit_char(n as int)]
    } else {
        decimal(n / 10).push(digit_char((n % 10) as int))
    }
}

fn digit_str(d: usize) -> (t: &'static str)
    requires
        d < 10,
    ensures
        t@ == seq![digit_char(d as int)],
{
    match d {
        0 => { proof { reveal_strlit("0"); } "0" },
        1 => { proof { reveal_strlit("1"); } "1" },
        2 => { proof { reveal_strlit("2"); } "2" },
        3 => { proof { reveal_strlit("3"); } "3" },
        4 => { proof { reveal_strlit("4"); } "4" },
        5 => { proof { reveal_strlit("5"); } "5" },
        6 => { proof { reveal_strlit("6"); } "6" },
        7 => { proof { reveal_strlit("7"); } "7" },
        8 => { proof { reveal_strlit("8"); } "8" },
        _ => { proof { reveal_strlit("9"); } "9" },
    }
}

/// Writes `n` in decimal.
pub fn decimal_string(n: usize) -> (t: String)
    ensures
        t@ == decimal(n as nat),
    decreases n,
{
    if n < 10 {
        String::from_str(digit_str(n))
    } else {
        let mut t = decimal_string(n / 10);
        t.append(digit_str(n % 10));
        t
    }
}

/// The name of place `i` in the Files sidebar.
pub open spec fn place_name(i: int) -> Seq<char> {
    if i == 0 {
        "Home"@
    } else if i == 1 {
        "Workspace"@
    } else if i == 2 {
        "Etc"@
    } else {
        "Tmp"@
    }
}

fn place_str(i: i32) -> (t: &'static str)
    ensures
        t@ == place_name(i as int),
{
    if i == 0 {
        "Home"
    } else if i == 1 {
        "Workspace"
    } else if i == 2 {
        "Etc"
    } else {
        "Tmp"
    }
}

/// The label of toolbar button `i` of the Files window: home, terminal, sort.
pub open spec fn toolbar_label(i: int) -> Seq<char> {
    if i == 0 {
        "H"@
    } else if i == 1 {
        "T"@
    } else {
        "S"@
    }
}

/// The commands of toolbar button `i`, whose left edge is `x`.
pub open spec fn toolbar_button_cmds(c: Rect, i: int, x: int) -> Seq<CommandView> {
    seq![
        DrawOp::RoundFill {
            rect: Rect { x: x as i32, y: (c.y + 14) as i32, width: 30, height: 30 },
            radius: 10,
            color: [255u8, 255u8, 255u8, 170u8],
        },
        text_at(FontFace::Bold, toolbar_label(i), x + 9, c.y + 20, 12, [40u8, 110u8, 100u8, 255u8]),
    ]
}

/// The commands of the Files header: the window body in two translucent
/// layers, the home, terminal and sort buttons, the overflow button on the
/// right, the current path and the rule under it.
pub open spec fn files_header_cmds(c: Rect, path: Seq<char>) -> Seq<CommandView> {
    seq![
        DrawOp::RoundFill { rect: c, radius: 14, color: [247u8, 252u8, 255u8, 230u8] },
        DrawOp::RoundFill { rect: c, radius: 14, color: [214u8, 229u8, 237u8, 40u8] },
    ] + toolbar_button_cmds(c, 0, c.x + 18) + toolbar_button_cmds(c, 1, c.x + 56) + toolbar_button_cmds(c, 2, c.x + 94)
        + seq![
        DrawOp::RoundFill {
            rect: Rect { x: (c.x + c.width - 50) as i32, y: (c.y + 14) as i32, width: 30, height: 30 },
            radius: 10,
            color: [255u8, 255u8, 255u8, 170u8],
        },
        text_at(FontFace::Bold, "..."@, c.x + c.width - 42, c.y + 18, 14, [40u8, 110u8, 100u8, 255u8]),
        text_at(FontFace::Bold, path, c.x + 18, c.y + 50, 14, [40u8, 110u8, 100u8, 255u8]),
        DrawOp::Fill {
            rect: Rect { x: (c.x + 18) as i32, y: (c.y + 72) as i32, width: (c.width - 36) as i32, height: 1 },
            color: [178u8, 202u8, 214u8, 140u8],
        },
    ]
}

/// The Places sidebar of the Files window.
pub open spec fn files_sidebar(c: Rect) -> Rect {
    Rect { x: (c.x + 12) as i32, y: (c.y + 84) as i32, width: 110, height: (c.height - 96) as i32 }
}

/// The commands of place `i`: the Workspace place is highlighted.
pub open spec fn place_cmds(sb: Rect, i: int) -> Seq<CommandView> {
    let y = sb.y + 34 + i * 28;
    (if i == 1 {
        seq![DrawOp::RoundFill {
            rect: Rect { x: (sb.x + 8) as i32, y: (y - 4) as i32, width: (sb.width - 16) as i32, height: 24 },
            radius: 8,
            color: [116u8, 213u8, 198u8, 130u8],
        }]
    } else {
        Seq::empty()
    }) + seq![text_at(FontFace::Regular, place_name(i), sb.x + 16, y, 12, [40u8, 70u8, 90u8, 255u8])]
}

/// The commands of the sidebar: its panel, its heading and the four places.
pub open spec fn files_sidebar_cmds(c: Rect) -> Seq<CommandView> {
    let sb = files_sidebar(c);
    seq![
        DrawOp::RoundFill { rect: sb, radius: 10, color: [255u8, 255u8, 255u8, 140u8] },
        text_at(FontFace::Bold, "Places"@, sb.x + 12, sb.y + 10, 12, [60u8, 90u8, 110u8, 255u8]),
    ] + place_cmds(sb, 0) + place_cmds(sb, 1) + place_cmds(sb, 2) + place_cmds(sb, 3)
}

/// Left edge of the file list.
pub open spec fn list_left(c: Rect) -> int {
    c.x + 132
}

/// Number of list rows that fit in the Files window, at least one.
pub open spec fn max_list_rows(c: Rect) -> int {
    let r = div_trunc(c.height - 96, 42);
    if r >= 1 { r } else { 1 }
}

/// The commands of list row `idx` showing `e`: its tile (tinted when it is
/// the selected row), the icon of its kind, its name and its kind's label.
pub open spec fn file_row_cmds(c: Rect, e: FileView, idx: int, selected: i32) -> Seq<CommandView> {
    let lx = list_left(c);
    let row_y = c.y + 90 + idx * 42;
    seq![
        DrawOp::RoundFill {
            rect: Rect { x: lx as i32, y: (row_y - 4) as i32, width: (c.width - 148) as i32, height: 34 },
            radius: 9,
            color: if selected == idx { [116u8, 213u8, 198u8, 140u8] } else { [255u8, 255u8, 255u8, 140u8] },
        },
        DrawOp::FileIcon { kind: e.kind, cx: (lx + 18) as i32, cy: (row_y + 13) as i32 },
        text_at(FontFace::Bold, e.name, lx + 40, row_y, 13, [30u8, 50u8, 65u8, 255u8]),
        text_at(FontFace::Regular, kind_text(e.kind), lx + 40, row_y + 16, 10, [90u8, 120u8, 135u8, 230u8]),
    ]
}

/// The commands of the first `n` rows of the list.
pub open spec fn file_rows(c: Rect, entries: Seq<FileView>, selected: i32, n: nat) -> Seq<CommandView>
    decreases n,
{
    if n == 0 {
        Seq::empty()
    } else {
        file_rows(c, entries, selected, (n - 1) as nat) + file_row_cmds(c, entries[n - 1], n - 1, selected)
    }
}

/// Number of rows the list draws: all entries, up to the rows that fit.
pub open spec fn list_shown(c: Rect, count: int) -> int {
    if count <= max_list_rows(c) { count } else { max_list_rows(c) }
}

/// The status line under the list: the number of entries.
pub open spec fn files_status(count: nat) -> Seq<char> {
    decimal(count) + " items \u{b7} Aurora Files"@
}

/// The commands of the file list: a notice when the folder is empty;
/// otherwise the rows that fit and the status line with the entry count.
pub open spec fn files_list_cmds(c: Rect, entries: Seq<FileView>, selected: i32) -> Seq<CommandView> {
    let lx = list_left(c);
    if entries.len() == 0 {
        seq![text_at(FontFace::Regular, "No files in this folder."@, lx, c.y + 110, 13, [120u8, 140u8, 155u8, 255u8])]
    } else {
        file_rows(c, entries, selected, list_shown(c, entries.len() as int) as nat) + seq![
            text_at(FontFace::Regular, files_status(entries.len()), lx, c.y + c.height - 22, 11, [80u8, 110u8, 125u8, 230u8]),
        ]
    }
}

/// The commands of the Files window: header, sidebar and list.
pub open spec fn files_app_cmds(c: Rect, path: Seq<char>, entries: Seq<FileView>, selected: i32) -> Seq<CommandView> {
    files_header_cmds(c, path) + files_sidebar_cmds(c) + files_list_cmds(c, entries, selected)
}

fn draw_toolbar_button(ops: &mut Vec<Command>, c: Rect, i: i32, x: i32)
    requires
        modest(c),
        -2_000_000 <= x <= 2_000_000,
    ensures
        all_small(cmds(old(ops)@)) ==> all_small(cmds(final(ops)@)),
        cmds(final(ops)@) == cmds(old(ops)@) + toolbar_button_cmds(c, i as int, x as int),
{
    let ghost start = cmds(ops@);
    push_round(ops, Rect { x, y: c.y + 14, width: 30, height: 30 }, 10, [255, 255, 255, 170]);
    let label = if i == 0 {
        "H"
    } else if i == 1 {
        "T"
    } else {
        "S"
    };
    push_text(ops, FontFace::Bold, String::from_str(label), x + 9, c.y + 20, 12, [40, 110, 100, 255], TextAlign::Left);
    assert(cmds(ops@) =~= start + toolbar_button_cmds(c, i as int, x as int));
}

fn draw_place(ops: &mut Vec<Command>, sb: Rect, i: i32)
    requires
        within(sb, 2_000_000),
        0 <= i < 4,
    ensures
        all_small(cmds(old(ops)@)) ==> all_small(cmds(final(ops)@)),
        cmds(final(ops)@) == cmds(old(ops)@) + place_cmds(sb, i as int),
{
    let ghost start = cmds(ops@);
    let y = sb.y + 34 + i * 28;
    if i == 1 {
        push_round(ops, Rect { x: sb.x + 8, y: y - 4, width: sb.width - 16, height: 24 }, 8, [116, 213, 198, 130]);
    }
    push_text(ops, FontFace::Regular, String::from_str(place_str(i)), sb.x + 16, y, 12, [40, 70, 90, 255], TextAlign::Left);
    assert(cmds(ops@) =~= start + place_cmds(sb, i as int));
}

fn draw_file_row(ops: &mut Vec<Command>, c: Rect, e: &FileEntry, idx: usize, selected: i32)
    requires
        modest(c),
        idx <= 30_000,
    ensures
        all_small(cmds(old(ops)@)) ==> all_small(cmds(final(ops)@)),
        cmds(final(ops)@) == cmds(old(ops)@) + file_row_cmds(c, e@, idx as int, selected),
{
    let ghost start = cmds(ops@);
    let lx = c.x + 132;
    let row_y = c.y + 90 + idx as i32 * 42;
    let tile: Color = if selected == idx as i32 { [116, 213, 198, 140] } else { [255, 255, 255, 140] };
    push_round(ops, Rect { x: lx, y: row_y - 4, width: c.width - 148, height: 34 }, 9, tile);
    push_icon(ops, e.kind, lx + 18, row_y + 13);
    push_text(ops, FontFace::Bold, e.name.clone(), lx + 40, row_y, 13, [30, 50, 65, 255], TextAlign::Left);
    push_text(ops, FontFace::Regular, String::from_str(kind_label(e.kind)), lx + 40, row_y + 16, 10, [90, 120, 135, 230], TextAlign::Left);
    assert(cmds(ops@) =~= start + file_row_cmds(c, e@, idx as int, selected));
}

fn draw_files_header(ops: &mut Vec<Command>, c: Rect, path: &String)
    requires
        modest(c),
    ensures
        all_small(cmds(old(ops)@)) ==> all_small(cmds(final(ops)@)),
        cmds(final(ops)@) == cmds(old(ops)@) + files_header_cmds(c, path@),
{
    let ghost start = cmds(ops@);
    push_round(ops, c, 14, [247, 252, 255, 230]);
    push_round(ops, c, 14, [214, 229, 237, 40]);
    draw_toolbar_button(ops, c, 0, c.x + 18);
    draw_toolbar_button(ops, c, 1, c.x + 56);
    draw_toolbar_button(ops, c, 2, c.x + 94);
    push_round(ops, Rect { x: c.x + c.width - 50, y: c.y + 14, width: 30, height: 30 }, 10, [255, 255, 255, 170]);
    push_text(ops, FontFace::Bold, String::from_str("..."), c.x + c.width - 42, c.y + 18, 14, [40, 110, 100, 255], TextAlign::Left);
    push_text(ops, FontFace::Bold, path.clone(), c.x + 18, c.y + 50, 14, [40, 110, 100, 255], TextAlign::Left);
    push_fill(ops, Rect { x: c.x + 18, y: c.y + 72, width: c.width - 36, height: 1 }, [178, 202, 214, 140]);
    assert(cmds(ops@) =~= start + files_header_cmds(c, path@));
}

fn draw_files_sidebar(ops: &mut Vec<Command>, c: Rect)
    requires
        modest(c),
    ensures
        all_small(cmds(old(ops)@)) ==> all_small(cmds(final(ops)@)),
        cmds(final(ops)@) == cmds(old(ops)@) + files_sidebar_cmds(c),
{
    let ghost start = cmds(ops@);
    let sidebar = Rect { x: c.x + 12, y: c.y + 84, width: 110, height: c.height - 96 };
    push_round(ops, sidebar, 10, [255, 255, 255, 140]);
    push_text(ops, FontFace::Bold, String::from_str("Places"), sidebar.x + 12, sidebar.y + 10, 12, [60, 90, 110, 255], TextAlign::Left);
    draw_place(ops, sidebar, 0);
    draw_place(ops, sidebar, 1);
    draw_place(ops, sidebar, 2);
    draw_place(ops, sidebar, 3);
    assert(cmds(ops@) =~= start + files_sidebar_cmds(c));
}

fn draw_files_list(ops: &mut Vec<Command>, c: Rect, entries: &Vec<FileEntry>, selected: i32)
    requires
        modest(c),
    ensures
        all_small(cmds(old(ops)@)) ==> all_small(cmds(final(ops)@)),
        cmds(final(ops)@) == cmds(old(ops)@) + files_list_cmds(c, entries_view(entries@), selected),
{
    let ghost start = cmds(ops@);
    let ghost ev = entries_view(entries@);
    let list_x = c.x + 132;
    if entries.len() == 0 {
        push_text(
            ops,
            FontFace::Regular,
            String::from_str("No files in this folder."),
            list_x,
            c.y + 110,
            13,
            [120, 140, 155, 255],
            TextAlign::Left,
        );
        assert(cmds(ops@) =~= start + files_list_cmds(c, ev, selected));
        return;
    }
    let fit = (c.height - 96) / 42;
    let max_rows: usize = if fit >= 1 { fit as usize } else { 1 };
    let shown: usize = if entries.len() <= max_rows { entries.len() } else { max_rows };
    assert(shown == list_shown(c, ev.len() as int));
    assert(shown <= 30_000);
    let mut idx: usize = 0;
    while idx < shown
        invariant
            modest(c),
            shown <= entries@.len(),
            shown <= 30_000,
            ev == entries_view(entries@),
            0 <= idx <= shown,
            cmds(ops@) == start + file_rows(c, ev, selected, idx as nat),
            all_small(start) ==> all_small(cmds(ops@)),
        decreases shown - idx,
    {
        draw_file_row(ops, c, &entries[idx], idx, selected);
        assert(ev[idx as int] == entries@[idx as int]@);
        assert(cmds(ops@) =~= start + file_rows(c, ev, selected, (idx + 1) as nat));
        idx = idx + 1;
    }
    let mut status = decimal_string(entries.len());
    status.append(" items \u{b7} Aurora Files");
    push_text(ops, FontFace::Regular, status, list_x, c.y + c.height - 22, 11, [80, 110, 125, 230], TextAlign::Left);
    assert(cmds(ops@) =~= start + files_list_cmds(c, ev, selected));
}

pub(crate) fn draw_files_app(ops: &mut Vec<Command>, c: Rect, path: &String, entries: &Vec<FileEntry>, selected: i32)
    requires
        modest(c),
    ensures
        all_small(cmds(old(ops)@)) ==> all_small(cmds(final(ops)@)),
        cmds(final(ops)@) == cmds(old(ops)@) + files_app_cmds(c, path@, entries_view(entries@), selected),
{
    let ghost start = cmds(ops@);
    draw_files_header(ops, c, path);
    draw_files_sidebar(ops, c);
    draw_files_list(ops, c, entries, selected);
    assert(cmds(ops@) =~= start + files_app_cmds(c, path@, entries_view(entries@), selected));
}


/// The frame `s` after command `c` is run on it; texts are set by the host
/// and leave the frame as it is here.
pub open spec fn cmd_painted(s: Seq<u8>, width: u32, c: CommandView) -> Seq<u8> {
    match c {
        DrawOp::Fill { rect, color } => rect_filled(s, width, rect, color),
        DrawOp::RoundFill { rect, radius, color } => round_rect_filled(s, width, rect, radius as int, color),
        DrawOp::Disc { cx, cy, radius, color } => disc_filled(s, width, cx as int, cy as int, radius as int, color),
        DrawOp::FileIcon { kind, cx, cy } => file_icon_drawn(s, width, kind, cx as int, cy as int),
        DrawOp::Text { .. } => s,
    }
}

/// Runs a shape command on a frame laid out in rows of `width` pixels;
/// a text command leaves the frame as it is.
pub fn paint_command(frame: &mut Vec<u8>, width: u32, c: &Command)
    requires
        old(frame)@.len() <= u32::MAX,
        cmd_small(c@),
    ensures
        final(frame)@ == cmd_painted(old(frame)@, width, c@),
{
    match c {
        DrawOp::Fill { rect, color } => {
            fill_rect(frame, width, *rect, *color);
        },
        DrawOp::RoundFill { rect, radius, color } => {
            proof { lemma_round_rect_fits(*rect, *radius as int); }
            fill_round_rect(frame, width, *rect, *radius, *color);
        },
        DrawOp::Disc { cx, cy, radius, color } => {
            proof {
                let r = *radius as int;
                assert(2 * r * r <= 2 * 16384 * 16384) by (nonlinear_arith)
                    requires 0 <= r <= 16384;
            }
            fill_circle(frame, width, *cx, *cy, *radius, *color);
        },
        DrawOp::FileIcon { kind, cx, cy } => {
            draw_file_icon(frame, width, *kind, *cx, *cy);
        },
        DrawOp::Text { .. } => {},
    }
}

/// The commands of one frame, each small enough to be run.
pub struct Scene {
    cmds: Vec<Command>,
}

impl View for Scene {
    type V = Seq<CommandView>;

    closed spec fn view(&self) -> Seq<CommandView> {
        cmds(self.cmds@)
    }
}

impl Scene {
    #[verifier::type_invariant]
    spec fn runnable(self) -> bool {
        all_small(cmds(self.cmds@))
    }

    pub(crate) fn from_cmds(v: Vec<Command>) -> (s: Scene)
        requires
            all_small(cmds(v@)),
        ensures
            s@ == cmds(v@),
    {
        Scene { cmds: v }
    }

    /// Number of commands.
    pub fn len(&self) -> (n: usize)
        ensures
            n == self@.len(),
    {
        self.cmds.len()
    }

    /// Command `i`.
    pub fn command(&self, i: usize) -> (c: &Command)
        requires
            i < self@.len(),
        ensures
            c@ == self@[i as int],
            cmd_small(c@),
    {
        proof { use_type_invariant(self); }
        &self.cmds[i]
    }
}


/// The arithmetic that places a text of the measured width fits in `i32`.
pub open spec fn text_x_fits(align: TextAlign, x: int, measured: int) -> bool {
    match align {
        TextAlign::Left => true,
        TextAlign::Right => i32::MIN <= x - measured <= i32::MAX,
        TextAlign::Centered(w) => {
            &&& i32::MIN <= w - measured <= i32::MAX
            &&& i32::MIN <= x + div_trunc(w - measured, 2) <= i32::MAX
        },
    }
}

/// Left edge of a text `measured` pixels wide placed at `x` with `align`.
pub open spec fn text_left(align: TextAlign, x: int, measured: int) -> int {
    match align {
        TextAlign::Left => x,
        TextAlign::Right => x - measured,
        TextAlign::Centered(w) => x + div_trunc(w - measured, 2),
    }
}

/// Where a text `measured` pixels wide starts when placed at `x` with
/// `align`; `None` when that position does not fit in `i32`.
pub fn text_x(align: TextAlign, x: i32, measured: i32) -> (r: Option<i32>)
    ensures
        r is Some <==> text_x_fits(align, x as int, measured as int),
        r matches Some(v) ==> v == text_left(align, x as int, measured as int),
{
    match align {
        TextAlign::Left => Some(x),
        TextAlign::Right => {
            let v: i64 = x as i64 - measured as i64;
            if v < i32::MIN as i64 || v > i32::MAX as i64 { None } else { Some(v as i32) }
        },
        TextAlign::Centered(w) => {
            let gap: i64 = w as i64 - measured as i64;
            if gap < i32::MIN as i64 || gap > i32::MAX as i64 {
                return None;
            }
            let half: i32 = (gap as i32) / 2;
            let v: i64 = x as i64 + half as i64;
            if v < i32::MIN as i64 || v > i32::MAX as i64 { None } else { Some(v as i32) }
        },
    }
}

} // verus!
