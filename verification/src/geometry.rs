use vstd::prelude::*;

verus! {

/// Height of the top bar, in pixels.
pub const TOPBAR_HEIGHT: i32 = 40;
/// Size of one square dock launcher.
pub const DOCK_ICON_SIZE: i32 = 44;
/// Corner radius of a dock launcher.
pub const DOCK_ICON_RADIUS: i32 = 12;
/// Horizontal distance between the left edges of two dock launchers.
pub const DOCK_STRIDE: i32 = 50;
/// Height of the dock.
pub const DOCK_HEIGHT: i32 = 44;
/// Gap between the dock and the bottom of the screen.
pub const DOCK_BOTTOM_MARGIN: i32 = 12;
/// Height of a window title bar.
pub const TITLEBAR_HEIGHT: i32 = 34;
/// Corner radius of a window frame.
pub const FRAME_CORNER_RADIUS: i32 = 8;
/// Number of client windows.
pub const WINDOW_COUNT: usize = 3;
/// Number of dock launchers.
pub const DOCK_BUTTONS: i32 = 5;
/// Window slot of the Aurora Files client.
pub const FILES_INDEX: usize = 2;
/// Window slot of the Aurora Terminal client.
pub const TERM_INDEX: usize = 0;
/// Window slot of the NetSurf browser client.
pub const NETSURF_INDEX: usize = 1;

/// An axis-aligned rectangle: left edge, top edge, width and height.
#[derive(Clone, Copy, Debug, PartialEq, Eq, Structural)]
pub struct Rect {
    pub x: i32,
    pub y: i32,
    pub width: i32,
    pub height: i32,
}

/// The larger of two integers.
pub open spec fn max_int(a: int, b: int) -> int {
    if a >= b { a } else { b }
}

/// The smaller of two integers.
pub open spec fn min_int(a: int, b: int) -> int {
    if a <= b { a } else { b }
}

/// `a - b`, held to the range of `i32`.
pub open spec fn saturating_sub_i32(a: int, b: int) -> int {
    if a - b > i32::MAX { i32::MAX as int } else if a - b < i32::MIN { i32::MIN as int } else { a - b }
}

pub fn i32_max(a: i32, b: i32) -> (r: i32)
    ensures r == max_int(a as int, b as int),
{
    if a >= b { a } else { b }
}

pub fn i32_min(a: i32, b: i32) -> (r: i32)
    ensures r == min_int(a as int, b as int),
{
    if a <= b { a } else { b }
}

fn i32_saturating_sub(a: i32, b: i32) -> (r: i32)
    ensures r == saturating_sub_i32(a as int, b as int),
{
    let d: i64 = a as i64 - b as i64;
    if d > i32::MAX as i64 {
        i32::MAX
    } else if d < i32::MIN as i64 {
        i32::MIN
    } else {
        d as i32
    }
}

impl Rect {
    /// The rectangle at the origin with no area.
    pub fn empty() -> (r: Rect)
        ensures
            r == (Rect { x: 0, y: 0, width: 0, height: 0 }),
    {
        Rect { x: 0, y: 0, width: 0, height: 0 }
    }

    /// The point lies in the half-open box `[x, x + width) × [y, y + height)`.
    pub open spec fn holds(self, x: int, y: int) -> bool {
        &&& self.x <= x
        &&& self.y <= y
        &&& x < self.x + self.width
        &&& y < self.y + self.height
    }

    /// The right and bottom edges can be computed in `i32`.
    pub open spec fn edges_fit(self) -> bool {
        &&& i32::MIN <= self.x + self.width <= i32::MAX
        &&& i32::MIN <= self.y + self.height <= i32::MAX
    }

    /// Whether the point `(x, y)` lies inside the rectangle.
    pub fn contains(self, x: i32, y: i32) -> (r: bool)
        requires
            self.edges_fit(),
        ensures
            r == self.holds(x as int, y as int),
    {
        x >= self.x && y >= self.y && x < self.x + self.width && y < self.y + self.height
    }
}

/// A client window slot: its outer frame, its content area below the title
/// bar, and whether it is mapped (1) or not (0).
#[derive(Clone, Copy, Debug, PartialEq, Eq, Structural)]
pub struct Client {
    pub frame: Rect,
    pub content: Rect,
    pub mapped: u32,
}

impl Client {
    /// An unmapped client with empty frame and content.
    pub fn empty() -> (c: Client)
        ensures
            c == (Client {
                frame: Rect { x: 0, y: 0, width: 0, height: 0 },
                content: Rect { x: 0, y: 0, width: 0, height: 0 },
                mapped: 0,
            }),
    {
        Client { frame: Rect::empty(), content: Rect::empty(), mapped: 0 }
    }
}

/// Width of the row of dock launchers: five launchers, the last one without
/// the trailing gap.
pub open spec fn dock_row_width() -> int {
    DOCK_BUTTONS * DOCK_STRIDE - (DOCK_STRIDE - DOCK_ICON_SIZE)
}

/// Where the dock stands on a screen of the given size: the launcher row,
/// narrowed to the screen, centred horizontally, and lifted off the bottom
/// edge by the margin.
pub open spec fn dock_rect(screen_width: int, screen_height: int) -> Rect {
    let w = min_int(max_int(dock_row_width(), DOCK_ICON_SIZE as int), screen_width);
    Rect {
        x: (saturating_sub_i32(screen_width, w) / 2) as i32,
        y: saturating_sub_i32(screen_height, (DOCK_HEIGHT + DOCK_BOTTOM_MARGIN) as int) as i32,
        width: w as i32,
        height: DOCK_HEIGHT,
    }
}

/// Places the dock on a screen of the given size.
pub fn dock_geometry(screen_width: i32, screen_height: i32) -> (r: Rect)
    ensures
        r == dock_rect(screen_width as int, screen_height as int),
{
    let width = i32_max(DOCK_BUTTONS * DOCK_STRIDE - (DOCK_STRIDE - DOCK_ICON_SIZE), DOCK_ICON_SIZE);
    let width = i32_min(width, screen_width);
    let diff = i32_saturating_sub(screen_width, width);
    let x = diff / 2;
    let y = i32_saturating_sub(screen_height, DOCK_HEIGHT + DOCK_BOTTOM_MARGIN);
    proof {
        assert(diff / 2 == saturating_sub_i32(screen_width as int, width as int) / 2);
    }
    Rect { x, y, width, height: DOCK_HEIGHT }
}


/// Division that rounds toward zero, as integer division does in Rust.
pub open spec fn div_trunc(a: int, b: int) -> int
    recommends
        b > 0,
{
    if a >= 0 { a / b } else { -((-a) / b) }
}

/// `v` held to `[lo, hi]`.
pub open spec fn clamp_int(v: int, lo: int, hi: int) -> int {
    if v < lo { lo } else if v > hi { hi } else { v }
}

/// Top of the area where windows are placed: below the top bar with a gap.
pub open spec fn content_top() -> int {
    TOPBAR_HEIGHT + 26
}

/// Height of the window area above the dock, at least 240 pixels.
pub open spec fn content_height(dock: Rect) -> int {
    max_int(dock.y - 16 - content_top(), 240)
}

/// Width of the browser window: 58% of the screen, held to `[440, 580]`.
pub open spec fn browser_width(screen_w: int) -> int {
    clamp_int(div_trunc(screen_w * 58, 100), 440, 580)
}

/// Left edge of the right-hand column (Files and Terminal).
pub open spec fn side_x(screen_w: int) -> int {
    24 + browser_width(screen_w) + 14
}

/// Width of the right-hand column, at least 240 pixels.
pub open spec fn side_width(screen_w: int) -> int {
    max_int(screen_w - side_x(screen_w) - 24, 240)
}

/// The frame a window slot gets before the minimum frame size is applied:
/// the browser fills the left column; Files takes the top 55% of the right
/// column; the terminal takes the bottom 40% of it; any other slot takes the
/// top half of the right column.
pub open spec fn raw_frame(index: int, screen_w: int, dock: Rect) -> (int, int, int, int) {
    let top = content_top();
    let ch = content_height(dock);
    if index == NETSURF_INDEX {
        (24, top, browser_width(screen_w), ch)
    } else if index == FILES_INDEX {
        (side_x(screen_w), top, side_width(screen_w), max_int(ch * 55 / 100, 180))
    } else if index == TERM_INDEX {
        let h = max_int(ch * 40 / 100, 150);
        (side_x(screen_w), top + ch - h, side_width(screen_w), h)
    } else {
        (side_x(screen_w), top, side_width(screen_w), ch / 2)
    }
}

/// The client a window slot gets on a screen `screen_w` wide with the dock at
/// `dock`: the frame is at least 180×140, the content sits below the title
/// bar with the frame's width and at least one row, and the client is mapped.
pub open spec fn client_layout(index: int, screen_w: int, dock: Rect) -> Client {
    let (fx, fy, fw, fh) = raw_frame(index, screen_w, dock);
    let frame = Rect {
        x: fx as i32,
        y: fy as i32,
        width: max_int(fw, 180) as i32,
        height: max_int(fh, 140) as i32,
    };
    Client {
        frame,
        content: Rect {
            x: frame.x,
            y: (frame.y + TITLEBAR_HEIGHT) as i32,
            width: frame.width,
            height: max_int(frame.height - TITLEBAR_HEIGHT, 1) as i32,
        },
        mapped: 1,
    }
}

/// The arithmetic of the layout stays within `i32` for these inputs.
pub open spec fn layout_fits(index: int, screen_w: int, dock: Rect) -> bool {
    &&& i32::MIN <= screen_w * 58 <= i32::MAX
    &&& i32::MIN + 16 + content_top() <= dock.y
    &&& index == FILES_INDEX ==> content_height(dock) * 55 <= i32::MAX
    &&& index == TERM_INDEX ==> content_height(dock) * 40 <= i32::MAX
}

/// Places window slot `index`: NetSurf on the left, Files top-right, the
/// terminal bottom-right.
pub fn place_client(index: usize, screen_w: i32, screen_h: i32, dock: Rect) -> (c: Client)
    requires
        layout_fits(index as int, screen_w as int, dock),
    ensures
        c == client_layout(index as int, screen_w as int, dock),
{
    let content_top: i32 = TOPBAR_HEIGHT + 26;
    let content_bottom: i32 = dock.y - 16;
    let content_h = i32_max(content_bottom - content_top, 240);
    let scaled: i32 = screen_w * 58;
    let pct: i32 = scaled / 100;
    proof {
        assert(pct == div_trunc(scaled as int, 100));
    }
    let browser_w: i32 = if pct < 440 { 440 } else if pct > 580 { 580 } else { pct };
    let side_x: i32 = 24 + browser_w + 14;
    let side_w = i32_max(screen_w - side_x - 24, 240);
    let (frame_x, frame_y, frame_w, frame_h): (i32, i32, i32, i32) = if index == NETSURF_INDEX {
        (24, content_top, browser_w, content_h)
    } else if index == FILES_INDEX {
        let h = i32_max((content_h * 55) / 100, 180);
        (side_x, content_top, side_w, h)
    } else if index == TERM_INDEX {
        let h = i32_max((content_h * 40) / 100, 150);
        let y: i32 = content_top + content_h - h;
        (side_x, y, side_w, h)
    } else {
        (side_x, content_top, side_w, content_h / 2)
    };
    let frame = Rect {
        x: frame_x,
        y: frame_y,
        width: i32_max(frame_w, 180),
        height: i32_max(frame_h, 140),
    };
    let content = Rect {
        x: frame.x,
        y: frame.y + TITLEBAR_HEIGHT,
        width: frame.width,
        height: i32_max(frame.height - TITLEBAR_HEIGHT, 1),
    };
    Client { frame, content, mapped: 1 }
}

} // verus!
