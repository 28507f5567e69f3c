use vstd::prelude::*;
use vstd::arithmetic::div_mod::{lemma_fundamental_div_mod, lemma_fundamental_div_mod_converse};
use crate::geometry::{Rect, div_trunc, max_int, min_int, i32_max, i32_min};

verus! {

/// An RGBA colour; the last component is the alpha.
pub type Color = [u8; 4];

/// Number of whole rows of `width` pixels (4 bytes each) in a frame of
/// `len` bytes; a width of 0 counts as 1.
pub open spec fn frame_rows(len: int, width: int) -> int {
    (len / 4) / max_int(width, 1)
}

/// Pixel `(x, y)` of a frame of `len` bytes laid out in rows of `width`
/// pixels can be written: it lies in the frame's columns and rows, and its
/// four bytes lie in the frame.
pub open spec fn drawable(len: int, width: int, x: int, y: int) -> bool {
    &&& 0 <= x < width
    &&& 0 <= y < frame_rows(len, width)
    &&& (y * width + x) * 4 + 3 < len
}

/// One colour channel of `src` laid over `dst` with opacity `alpha` out of 255.
pub open spec fn blend_channel(src: u8, dst: u8, alpha: int) -> u8 {
    ((src * alpha + dst * (255 - alpha)) / 255) as u8
}

/// The byte that channel `channel` of a pixel holds after `color` is drawn
/// over a pixel whose byte was `old`: nearly opaque colours (alpha 250 and
/// up) replace the pixel, a transparent one leaves it, any other is blended
/// channel by channel and makes the pixel opaque.
pub open spec fn blended_byte(old: u8, channel: int, color: Color) -> u8 {
    let a = color[3] as int;
    if a >= 250 {
        color[channel]
    } else if a == 0 {
        old
    } else if channel < 3 {
        blend_channel(color[channel], old, a)
    } else {
        255
    }
}

/// The frame `s` after `color` is drawn over every drawable pixel `(x, y)`
/// for which `shape(x, y)` holds, each such pixel once; all other bytes
/// keep their value.
pub open spec fn painted(s: Seq<u8>, width: u32, shape: spec_fn(int, int) -> bool, color: Color) -> Seq<u8> {
    Seq::new(
        s.len(),
        |k: int|
            {
                let p = k / 4;
                let x = p % (width as int);
                let y = p / (width as int);
                if width > 0 && shape(x, y) && drawable(s.len() as int, width as int, x, y) {
                    blended_byte(s[k], k % 4, color)
                } else {
                    s[k]
                }
            },
    )
}

/// The frame after `color` is drawn over the single pixel `(x, y)`.
pub open spec fn plotted(s: Seq<u8>, width: u32, x: int, y: int, color: Color) -> Seq<u8> {
    painted(s, width, |a: int, b: int| a == x && b == y, color)
}

/// Painting over the same set of pixels gives the same frame.
pub proof fn lemma_painted_same(s: Seq<u8>, width: u32, p: spec_fn(int, int) -> bool, q: spec_fn(int, int) -> bool, color: Color)
    requires
        forall|a: int, b: int| #[trigger] p(a, b) == q(a, b),
    ensures
        painted(s, width, p, color) == painted(s, width, q, color),
{
    assert(painted(s, width, p, color) =~= painted(s, width, q, color));
}

/// Painting nothing leaves the frame unchanged.
pub proof fn lemma_painted_nothing(s: Seq<u8>, width: u32, p: spec_fn(int, int) -> bool, color: Color)
    requires
        forall|a: int, b: int| !#[trigger] p(a, b),
    ensures
        painted(s, width, p, color) == s,
{
    assert(painted(s, width, p, color) =~= s);
}

/// Pixel index `p` of a frame with rows of `w` pixels is column `p % w` of row `p / w`.
proof fn lemma_pixel_coords(p: int, w: int, x: int, y: int)
    requires
        w > 0,
        0 <= x < w,
        p >= 0,
    ensures
        (p == y * w + x) <==> (p % w == x && p / w == y),
{
    lemma_fundamental_div_mod(p, w);
    if p == y * w + x {
        lemma_fundamental_div_mod_converse(p, w, y, x);
    }
}

/// Drawing one more pixel over a frame already painted over the shape `p`
/// gives the frame painted over `p` with that pixel added.
pub proof fn lemma_painted_extend(
    s: Seq<u8>,
    width: u32,
    p: spec_fn(int, int) -> bool,
    q: spec_fn(int, int) -> bool,
    x: int,
    y: int,
    color: Color,
)
    requires
        !p(x, y),
        forall|a: int, b: int| #[trigger] q(a, b) == (p(a, b) || (a == x && b == y)),
    ensures
        plotted(painted(s, width, p, color), width, x, y, color) == painted(s, width, q, color),
{
    let mid = painted(s, width, p, color);
    let lhs = plotted(mid, width, x, y, color);
    let rhs = painted(s, width, q, color);
    assert forall|k: int| 0 <= k < s.len() implies lhs[k] == rhs[k] by {
        let pk = k / 4;
        let w = width as int;
        if w > 0 {
            let a = pk % w;
            let b = pk / w;
            assert(q(a, b) == (p(a, b) || (a == x && b == y)));
        }
    }
    assert(lhs =~= rhs);
}

proof fn lemma_blend_bound(c: int, f: int, a: int)
    requires
        0 <= c <= 255,
        0 <= f <= 255,
        0 <= a <= 255,
    ensures
        0 <= c * a + f * (255 - a) <= 255 * 255,
{
    assert(0 <= c * a <= 255 * a) by (nonlinear_arith)
        requires 0 <= c <= 255, 0 <= a;
    assert(0 <= f * (255 - a) <= 255 * (255 - a)) by (nonlinear_arith)
        requires 0 <= f <= 255, 0 <= 255 - a;
}

proof fn lemma_offset_bound(x: int, y: int, w: int, rows: int, q: int)
    requires
        0 <= x < w,
        0 <= y < rows,
        rows == q / w,
        w > 0,
        q >= 0,
    ensures
        0 <= y * w + x < q,
{
    lemma_fundamental_div_mod(q, w);
    assert(y * w <= (rows - 1) * w) by (nonlinear_arith)
        requires y <= rows - 1, w > 0;
    assert((rows - 1) * w + w == rows * w) by (nonlinear_arith);
    assert(0 <= y * w) by (nonlinear_arith)
        requires y >= 0, w > 0;
}

/// Draws `color` over pixel `(x, y)` of a frame laid out in rows of `width`
/// RGBA pixels; pixels outside the frame are ignored.
pub fn put_pixel(frame: &mut Vec<u8>, width: u32, x: i32, y: i32, color: Color)
    requires
        old(frame)@.len() <= u32::MAX,
    ensures
        final(frame)@ == plotted(old(frame)@, width, x as int, y as int, color),
{
    let ghost s = frame@;
    let ghost shape = |a: int, b: int| a == x && b == y;
    if x < 0 || y < 0 {
        proof { lemma_painted_nothing_at(s, width, x as int, y as int, color); }
        return;
    }
    let xu = x as u32;
    let yu = y as u32;
    let height: u32 = ((frame.len() / 4) as u32) / u32_max(width, 1);
    if xu >= width || yu >= height {
        proof { lemma_painted_nothing_at(s, width, x as int, y as int, color); }
        return;
    }
    proof {
        lemma_offset_bound(x as int, y as int, width as int, height as int, (s.len() / 4) as int);
    }
    let index = ((yu * width + xu) * 4) as usize;
    if index + 3 >= frame.len() {
        proof { lemma_painted_nothing_at(s, width, x as int, y as int, color); }
        return;
    }
    let src_a = color[3] as u32;
    if src_a >= 250 {
        frame[index] = color[0];
        frame[index + 1] = color[1];
        frame[index + 2] = color[2];
        frame[index + 3] = color[3];
    } else {
        if src_a == 0 {
            proof { lemma_plot_transparent(s, width, x as int, y as int, color); }
            return;
        }
        let inv = 255 - src_a;
        proof {
            lemma_blend_bound(color[0] as int, frame@[index as int] as int, src_a as int);
            lemma_blend_bound(color[1] as int, frame@[index + 1] as int, src_a as int);
            lemma_blend_bound(color[2] as int, frame@[index + 2] as int, src_a as int);
        }
        let c0 = ((color[0] as u32 * src_a + frame[index] as u32 * inv) / 255) as u8;
        let c1 = ((color[1] as u32 * src_a + frame[index + 1] as u32 * inv) / 255) as u8;
        let c2 = ((color[2] as u32 * src_a + frame[index + 2] as u32 * inv) / 255) as u8;
        frame[index] = c0;
        frame[index + 1] = c1;
        frame[index + 2] = c2;
        frame[index + 3] = 255;
    }
    proof {
        let rhs = plotted(s, width, x as int, y as int, color);
        let p = y as int * width as int + x as int;
        assert forall|k: int| 0 <= k < s.len() implies frame@[k] == rhs[k] by {
            lemma_pixel_coords(k / 4, width as int, x as int, y as int);
        }
        assert(frame@ =~= rhs);
    }
}

fn u32_max(a: u32, b: u32) -> (r: u32)
    ensures r == max_int(a as int, b as int),
{
    if a >= b { a } else { b }
}

/// Drawing over a pixel that cannot be drawn leaves the frame unchanged.
proof fn lemma_painted_nothing_at(s: Seq<u8>, width: u32, x: int, y: int, color: Color)
    requires
        !drawable(s.len() as int, width as int, x, y),
    ensures
        plotted(s, width, x, y, color) == s,
{
    assert(plotted(s, width, x, y, color) =~= s);
}

/// Drawing a transparent colour leaves the frame unchanged.
proof fn lemma_plot_transparent(s: Seq<u8>, width: u32, x: int, y: int, color: Color)
    requires
        color[3] == 0,
    ensures
        plotted(s, width, x, y, color) == s,
{
    assert(plotted(s, width, x, y, color) =~= s);
}


/// The pixels of `rect`.
pub open spec fn rect_shape(rect: Rect) -> spec_fn(int, int) -> bool {
    |a: int, b: int| rect.holds(a, b)
}

/// The frame after `color` is drawn over every pixel of `rect`.
pub open spec fn rect_filled(s: Seq<u8>, width: u32, rect: Rect, color: Color) -> Seq<u8> {
    painted(s, width, rect_shape(rect), color)
}

/// Fills `rect` with `color`, each pixel of it once.
pub fn fill_rect(frame: &mut Vec<u8>, width: u32, rect: Rect, color: Color)
    requires
        old(frame)@.len() <= u32::MAX,
        rect.edges_fit(),
    ensures
        final(frame)@ == rect_filled(old(frame)@, width, rect, color),
{
    let ghost s = frame@;
    if rect.width <= 0 || rect.height <= 0 {
        proof { lemma_painted_nothing(s, width, rect_shape(rect), color); }
        return;
    }
    let mut y = rect.y;
    while y < rect.y + rect.height
        invariant
            rect.edges_fit(),
            rect.width > 0,
            rect.y <= y <= rect.y + rect.height,
            frame@.len() == s.len(),
            s.len() <= u32::MAX,
            frame@ == painted(s, width, |a: int, b: int| rect.holds(a, b) && b < y, color),
        decreases rect.y + rect.height - y,
    {
        let mut x = rect.x;
        while x < rect.x + rect.width
            invariant
                rect.edges_fit(),
                rect.y <= y < rect.y + rect.height,
                rect.x <= x <= rect.x + rect.width,
                frame@.len() == s.len(),
                s.len() <= u32::MAX,
                frame@ == painted(s, width, |a: int, b: int| rect.holds(a, b) && (b < y || (b == y && a < x)), color),
            decreases rect.x + rect.width - x,
        {
            let ghost p = |a: int, b: int| rect.holds(a, b) && (b < y || (b == y && a < x));
            let ghost q = |a: int, b: int| rect.holds(a, b) && (b < y || (b == y && a < x + 1));
            proof {
                assert forall|a: int, b: int| #[trigger] q(a, b) == (p(a, b) || (a == x && b == y)) by {}
                lemma_painted_extend(s, width, p, q, x as int, y as int, color);
            }
            put_pixel(frame, width, x, y, color);
            x = x + 1;
        }
        proof {
            let p = |a: int, b: int| rect.holds(a, b) && (b < y || (b == y && a < x));
            let q = |a: int, b: int| rect.holds(a, b) && b < y + 1;
            assert forall|a: int, b: int| #[trigger] p(a, b) == q(a, b) by {}
            lemma_painted_same(s, width, p, q, color);
        }
        y = y + 1;
    }
    proof {
        let p = |a: int, b: int| rect.holds(a, b) && b < y;
        assert forall|a: int, b: int| #[trigger] p(a, b) == rect_shape(rect)(a, b) by {}
        lemma_painted_same(s, width, p, rect_shape(rect), color);
    }
}


/// Radius of the rounded corners actually drawn: the requested radius, not
/// below 0 and not above half the shorter side.
pub open spec fn corner_radius(rect: Rect, radius: int) -> int {
    min_int(max_int(radius, 0), div_trunc(min_int(rect.width as int, rect.height as int), 2))
}

/// `(dx, dy)` lies in the disc of radius `r` about the origin.
pub open spec fn in_disc(dx: int, dy: int, r: int) -> bool {
    dx * dx + dy * dy <= r * r
}

/// Whether the point `(px, py)` of a `w`×`h` box, relative to its top-left
/// corner, survives rounding the corners with radius `r`: in each `r`×`r`
/// corner square only the quarter disc about the corner's inner centre is kept.
pub open spec fn round_corner_keeps(w: int, h: int, r: int, px: int, py: int) -> bool {
    if px < r && py < r {
        in_disc(px - r, py - r, r)
    } else if px >= w - r && py < r {
        in_disc(px - (w - r - 1), py - r, r)
    } else if px < r && py >= h - r {
        in_disc(px - r, py - (h - r - 1), r)
    } else if px >= w - r && py >= h - r {
        in_disc(px - (w - r - 1), py - (h - r - 1), r)
    } else {
        true
    }
}

/// Pixel `(a, b)` belongs to `rect` with its corners rounded to `radius`.
pub open spec fn in_round_rect(rect: Rect, radius: int, a: int, b: int) -> bool {
    let px = a - rect.x;
    let py = b - rect.y;
    &&& 0 <= px < rect.width
    &&& 0 <= py < rect.height
    &&& round_corner_keeps(rect.width as int, rect.height as int, corner_radius(rect, radius), px, py)
}

/// The pixels of `rect` with its corners rounded to `radius`.
pub open spec fn round_rect_shape(rect: Rect, radius: int) -> spec_fn(int, int) -> bool {
    |a: int, b: int| in_round_rect(rect, radius, a, b)
}

/// The frame after `color` is drawn over `rect` with rounded corners.
pub open spec fn round_rect_filled(s: Seq<u8>, width: u32, rect: Rect, radius: int, color: Color) -> Seq<u8> {
    painted(s, width, round_rect_shape(rect, radius), color)
}

/// The arithmetic of a rounded rectangle stays within `i32`.
pub open spec fn round_rect_fits(rect: Rect, radius: int) -> bool {
    &&& rect.edges_fit()
    &&& rect.width > 0 && rect.height > 0 ==> 2 * corner_radius(rect, radius) * corner_radius(rect, radius) <= i32::MAX
}

/// A rounded rectangle whose edges fit and whose radius is at most 16384
/// can be drawn without leaving `i32`.
pub proof fn lemma_round_rect_fits(rect: Rect, radius: int)
    requires
        rect.edges_fit(),
        0 <= radius <= 16384,
    ensures
        round_rect_fits(rect, radius),
{
    if rect.width > 0 && rect.height > 0 {
        let r = corner_radius(rect, radius);
        assert(0 <= r <= 16384);
        assert(2 * r * r <= 2 * 16384 * 16384) by (nonlinear_arith)
            requires 0 <= r <= 16384;
    }
}

proof fn lemma_square_bound(d: int, r: int)
    requires
        -r <= d <= r,
    ensures
        0 <= d * d <= r * r,
{
    assert(0 <= d * d <= r * r) by (nonlinear_arith)
        requires -r <= d <= r;
}

fn in_corner(px: i32, py: i32, cx: i32, cy: i32, r: i32) -> (b: bool)
    requires
        -r <= px - cx <= r,
        -r <= py - cy <= r,
        2 * r * r <= i32::MAX,
    ensures
        b == in_disc(px - cx, py - cy, r as int),
{
    let dx = px - cx;
    let dy = py - cy;
    proof {
        lemma_square_bound(dx as int, r as int);
        lemma_square_bound(dy as int, r as int);
        assert(2 * r * r == r * r + r * r) by (nonlinear_arith);
    }
    dx * dx + dy * dy <= r * r
}

/// Fills `rect` with `color`, rounding its corners with `radius`.
pub fn fill_round_rect(frame: &mut Vec<u8>, width: u32, rect: Rect, radius: i32, color: Color)
    requires
        old(frame)@.len() <= u32::MAX,
        round_rect_fits(rect, radius as int),
    ensures
        final(frame)@ == round_rect_filled(old(frame)@, width, rect, radius as int, color),
{
    let ghost s = frame@;
    let r = i32_min(i32_max(radius, 0), i32_min(rect.width, rect.height) / 2);
    proof {
        assert(r == corner_radius(rect, radius as int));
    }
    let mut py: i32 = 0;
    if rect.width <= 0 || rect.height <= 0 {
        proof { lemma_painted_nothing(s, width, round_rect_shape(rect, radius as int), color); }
        return;
    }
    proof {
        let p = |a: int, b: int| in_round_rect(rect, radius as int, a, b) && b - rect.y < 0;
        lemma_painted_nothing(s, width, p, color);
    }
    while py < rect.height
        invariant
            round_rect_fits(rect, radius as int),
            r == corner_radius(rect, radius as int),
            0 <= py <= rect.height,
            rect.width > 0,
            frame@.len() == s.len(),
            s.len() <= u32::MAX,
            frame@ == painted(s, width, |a: int, b: int| in_round_rect(rect, radius as int, a, b) && b - rect.y < py, color),
        decreases rect.height - py,
    {
        let mut px: i32 = 0;
        proof {
            let p = |a: int, b: int| in_round_rect(rect, radius as int, a, b) && b - rect.y < py;
            let q = |a: int, b: int| in_round_rect(rect, radius as int, a, b) && (b - rect.y < py || (b - rect.y == py && a - rect.x < 0));
            assert forall|a: int, b: int| #[trigger] p(a, b) == q(a, b) by {}
            lemma_painted_same(s, width, p, q, color);
        }
        while px < rect.width
            invariant
                round_rect_fits(rect, radius as int),
                r == corner_radius(rect, radius as int),
                0 <= py < rect.height,
                0 <= px <= rect.width,
                frame@.len() == s.len(),
                s.len() <= u32::MAX,
                frame@ == painted(s, width, |a: int, b: int| in_round_rect(rect, radius as int, a, b) && (b - rect.y < py || (b - rect.y == py && a - rect.x < px)), color),
            decreases rect.width - px,
        {
            assert(r >= 0);
            let ok = if px < r && py < r {
                in_corner(px, py, r, r, r)
            } else if px >= rect.width - r && py < r {
                in_corner(px, py, rect.width - r - 1, r, r)
            } else if px < r && py >= rect.height - r {
                in_corner(px, py, r, rect.height - r - 1, r)
            } else if px >= rect.width - r && py >= rect.height - r {
                in_corner(px, py, rect.width - r - 1, rect.height - r - 1, r)
            } else {
                true
            };
            assert(ok == round_corner_keeps(rect.width as int, rect.height as int, r as int, px as int, py as int));
            let ghost p = |a: int, b: int| in_round_rect(rect, radius as int, a, b) && (b - rect.y < py || (b - rect.y == py && a - rect.x < px));
            let ghost q = |a: int, b: int| in_round_rect(rect, radius as int, a, b) && (b - rect.y < py || (b - rect.y == py && a - rect.x < px + 1));
            let ax = rect.x + px;
            let ay = rect.y + py;
            if ok {
                proof {
                    assert forall|a: int, b: int| #[trigger] q(a, b) == (p(a, b) || (a == ax && b == ay)) by {
                        if a == ax && b == ay {
                            assert(in_round_rect(rect, radius as int, a, b));
                        }
                    }
                    lemma_painted_extend(s, width, p, q, ax as int, ay as int, color);
                }
                put_pixel(frame, width, ax, ay, color);
            } else {
                proof {
                    assert forall|a: int, b: int| #[trigger] p(a, b) == q(a, b) by {
                        if a == ax && b == ay {
                            assert(!in_round_rect(rect, radius as int, a, b));
                        }
                    }
                    lemma_painted_same(s, width, p, q, color);
                }
            }
            px = px + 1;
        }
        proof {
            let p = |a: int, b: int| in_round_rect(rect, radius as int, a, b) && (b - rect.y < py || (b - rect.y == py && a - rect.x < px));
            let q = |a: int, b: int| in_round_rect(rect, radius as int, a, b) && b - rect.y < py + 1;
            assert forall|a: int, b: int| #[trigger] p(a, b) == q(a, b) by {}
            lemma_painted_same(s, width, p, q, color);
        }
        py = py + 1;
    }
    proof {
        let p = |a: int, b: int| in_round_rect(rect, radius as int, a, b) && b - rect.y < py;
        assert forall|a: int, b: int| #[trigger] p(a, b) == round_rect_shape(rect, radius as int)(a, b) by {}
        lemma_painted_same(s, width, p, round_rect_shape(rect, radius as int), color);
    }
}

/// Pixel `(a, b)` lies within `radius` of `(cx, cy)`, for a radius of at least 0.
pub open spec fn in_disc_about(cx: int, cy: int, radius: int, a: int, b: int) -> bool {
    radius >= 0 && in_disc(a - cx, b - cy, radius)
}

/// The pixels within `radius` of `(cx, cy)`; none when the radius is negative.
pub open spec fn disc_shape(cx: int, cy: int, radius: int) -> spec_fn(int, int) -> bool {
    |a: int, b: int| in_disc_about(cx, cy, radius, a, b)
}

/// The frame after `color` is drawn over the disc of `radius` about `(cx, cy)`.
pub open spec fn disc_filled(s: Seq<u8>, width: u32, cx: int, cy: int, radius: int, color: Color) -> Seq<u8> {
    painted(s, width, disc_shape(cx, cy, radius), color)
}

/// The arithmetic of a disc stays within `i32`.
pub open spec fn disc_fits(cx: int, cy: int, radius: int) -> bool {
    &&& radius > i32::MIN
    &&& radius >= 0 ==> {
        &&& 2 * radius * radius <= i32::MAX
        &&& i32::MIN <= cx - radius
        &&& cx + radius <= i32::MAX
        &&& i32::MIN <= cy - radius
        &&& cy + radius <= i32::MAX
    }
}

proof fn lemma_disc_within(dx: int, dy: int, r: int)
    requires
        r >= 0,
        in_disc(dx, dy, r),
    ensures
        -r <= dx <= r,
        -r <= dy <= r,
{
    assert(dx * dx <= r * r) by (nonlinear_arith)
        requires dx * dx + dy * dy <= r * r;
    assert(-r <= dx <= r) by (nonlinear_arith)
        requires dx * dx <= r * r, r >= 0;
    assert(dy * dy <= r * r) by (nonlinear_arith)
        requires dx * dx + dy * dy <= r * r;
    assert(-r <= dy <= r) by (nonlinear_arith)
        requires dy * dy <= r * r, r >= 0;
}

/// Fills the disc of `radius` about `(cx, cy)` with `color`.
pub fn fill_circle(frame: &mut Vec<u8>, width: u32, cx: i32, cy: i32, radius: i32, color: Color)
    requires
        old(frame)@.len() <= u32::MAX,
        disc_fits(cx as int, cy as int, radius as int),
    ensures
        final(frame)@ == disc_filled(old(frame)@, width, cx as int, cy as int, radius as int, color),
{
    let ghost s = frame@;
    if radius < 0 {
        proof { lemma_painted_nothing(s, width, disc_shape(cx as int, cy as int, radius as int), color); }
        return;
    }
    let mut y: i32 = -radius;
    proof {
        assert(radius <= 46340) by (nonlinear_arith)
            requires 2 * radius * radius <= i32::MAX, radius >= 0;
        let p = |a: int, b: int| in_disc_about(cx as int, cy as int, radius as int, a, b) && b - cy < y;
        assert forall|a: int, b: int| !#[trigger] p(a, b) by {
            if in_disc_about(cx as int, cy as int, radius as int, a, b) {
                lemma_disc_within(a - cx, b - cy, radius as int);
            }
        }
        lemma_painted_nothing(s, width, p, color);
    }
    while y <= radius
        invariant
            disc_fits(cx as int, cy as int, radius as int),
            0 <= radius <= 46340,
            -radius <= y <= radius + 1,
            frame@.len() == s.len(),
            s.len() <= u32::MAX,
            frame@ == painted(s, width, |a: int, b: int| in_disc_about(cx as int, cy as int, radius as int, a, b) && b - cy < y, color),
        decreases radius + 1 - y,
    {
        let mut x: i32 = -radius;
        proof {
            let p = |a: int, b: int| in_disc_about(cx as int, cy as int, radius as int, a, b) && b - cy < y;
            let q = |a: int, b: int| in_disc_about(cx as int, cy as int, radius as int, a, b) && (b - cy < y || (b - cy == y && a - cx < x));
            assert forall|a: int, b: int| #[trigger] p(a, b) == q(a, b) by {
                if in_disc_about(cx as int, cy as int, radius as int, a, b) {
                    lemma_disc_within(a - cx, b - cy, radius as int);
                }
            }
            lemma_painted_same(s, width, p, q, color);
        }
        while x <= radius
            invariant
                disc_fits(cx as int, cy as int, radius as int),
                0 <= radius <= 46340,
                -radius <= y <= radius,
                -radius <= x <= radius + 1,
                frame@.len() == s.len(),
                s.len() <= u32::MAX,
                frame@ == painted(s, width, |a: int, b: int| in_disc_about(cx as int, cy as int, radius as int, a, b) && (b - cy < y || (b - cy == y && a - cx < x)), color),
            decreases radius + 1 - x,
        {
            proof {
                lemma_square_bound(x as int, radius as int);
                lemma_square_bound(y as int, radius as int);
                assert(2 * radius * radius == radius * radius + radius * radius) by (nonlinear_arith);
            }
            let ghost p = |a: int, b: int| in_disc_about(cx as int, cy as int, radius as int, a, b) && (b - cy < y || (b - cy == y && a - cx < x));
            let ghost q = |a: int, b: int| in_disc_about(cx as int, cy as int, radius as int, a, b) && (b - cy < y || (b - cy == y && a - cx < x + 1));
            if x * x + y * y <= radius * radius {
                proof {
                    assert forall|a: int, b: int| #[trigger] q(a, b) == (p(a, b) || (a == cx + x && b == cy + y)) by {}
                    lemma_painted_extend(s, width, p, q, cx + x, cy + y, color);
                }
                put_pixel(frame, width, cx + x, cy + y, color);
            } else {
                proof {
                    assert forall|a: int, b: int| #[trigger] p(a, b) == q(a, b) by {}
                    lemma_painted_same(s, width, p, q, color);
                }
            }
            x = x + 1;
        }
        proof {
            let p = |a: int, b: int| in_disc_about(cx as int, cy as int, radius as int, a, b) && (b - cy < y || (b - cy == y && a - cx < x));
            let q = |a: int, b: int| in_disc_about(cx as int, cy as int, radius as int, a, b) && b - cy < y + 1;
            assert forall|a: int, b: int| #[trigger] p(a, b) == q(a, b) by {
                if in_disc_about(cx as int, cy as int, radius as int, a, b) {
                    lemma_disc_within(a - cx, b - cy, radius as int);
                }
            }
            lemma_painted_same(s, width, p, q, color);
        }
        y = y + 1;
    }
    proof {
        let p = |a: int, b: int| in_disc_about(cx as int, cy as int, radius as int, a, b) && b - cy < y;
        assert forall|a: int, b: int| #[trigger] p(a, b) == disc_shape(cx as int, cy as int, radius as int)(a, b) by {
            if in_disc_about(cx as int, cy as int, radius as int, a, b) {
                lemma_disc_within(a - cx, b - cy, radius as int);
            }
        }
        lemma_painted_same(s, width, p, disc_shape(cx as int, cy as int, radius as int), color);
    }
}

} // verus!

verus! {

/// Colour of a folder icon.
pub open spec fn folder_color() -> Color {
    [246u8, 190u8, 82u8, 240u8]
}

/// The frame after the icon of a file of the given kind is drawn centred at
/// `(cx, cy)`: a folder (kind 0) is a rounded body with a tab on its top
/// left; any other kind is a rounded white page with three text lines.
pub open spec fn file_icon_drawn(s: Seq<u8>, width: u32, kind: u32, cx: int, cy: int) -> Seq<u8> {
    if kind == 0 {
        let body = round_rect_filled(
            s,
            width,
            Rect { x: (cx - 10) as i32, y: (cy - 7) as i32, width: 20, height: 14 },
            3,
            folder_color(),
        );
        rect_filled(body, width, Rect { x: (cx - 10) as i32, y: (cy - 10) as i32, width: 9, height: 5 }, folder_color())
    } else {
        let page = round_rect_filled(
            s,
            width,
            Rect { x: (cx - 8) as i32, y: (cy - 10) as i32, width: 16, height: 20 },
            3,
            [255u8, 255u8, 255u8, 220u8],
        );
        let line1 = rect_filled(page, width, Rect { x: (cx - 5) as i32, y: (cy - 5) as i32, width: 10, height: 2 }, [90u8, 130u8, 150u8, 200u8]);
        let line2 = rect_filled(line1, width, Rect { x: (cx - 5) as i32, y: cy as i32, width: 10, height: 2 }, [90u8, 130u8, 150u8, 200u8]);
        rect_filled(line2, width, Rect { x: (cx - 5) as i32, y: (cy + 5) as i32, width: 7, height: 2 }, [90u8, 130u8, 150u8, 180u8])
    }
}

/// An icon centred at `(cx, cy)` can be drawn without leaving `i32`.
pub open spec fn icon_fits(cx: int, cy: int) -> bool {
    &&& i32::MIN + 10 <= cx <= i32::MAX - 10
    &&& i32::MIN + 10 <= cy <= i32::MAX - 10
}

/// Draws the icon of a file of the given kind centred at `(cx, cy)`.
pub fn draw_file_icon(frame: &mut Vec<u8>, width: u32, kind: u32, cx: i32, cy: i32)
    requires
        old(frame)@.len() <= u32::MAX,
        icon_fits(cx as int, cy as int),
    ensures
        final(frame)@ == file_icon_drawn(old(frame)@, width, kind, cx as int, cy as int),
{
    proof {
        lemma_round_rect_fits(Rect { x: (cx - 10) as i32, y: (cy - 7) as i32, width: 20, height: 14 }, 3);
        lemma_round_rect_fits(Rect { x: (cx - 8) as i32, y: (cy - 10) as i32, width: 16, height: 20 }, 3);
    }
    if kind == 0 {
        let color: Color = [246, 190, 82, 240];
        fill_round_rect(frame, width, Rect { x: cx - 10, y: cy - 7, width: 20, height: 14 }, 3, color);
        fill_rect(frame, width, Rect { x: cx - 10, y: cy - 10, width: 9, height: 5 }, color);
    } else {
        fill_round_rect(frame, width, Rect { x: cx - 8, y: cy - 10, width: 16, height: 20 }, 3, [255, 255, 255, 220]);
        fill_rect(frame, width, Rect { x: cx - 5, y: cy - 5, width: 10, height: 2 }, [90, 130, 150, 200]);
        fill_rect(frame, width, Rect { x: cx - 5, y: cy, width: 10, height: 2 }, [90, 130, 150, 200]);
        fill_rect(frame, width, Rect { x: cx - 5, y: cy + 5, width: 7, height: 2 }, [90, 130, 150, 180]);
    }
}

} // verus!
