use vstd::prelude::*;
use vstd::string::StringSliceAdditionalSpecFns;

use crate::color::{colorref_from_rgb24, colorref_of_rgb24};
use crate::hex::{leading_hash_count, parse_hex_range, parse_hex_u32, trim_leading_hash};
use crate::text::str_eq;

verus! {

/// `COLORREF` drawn where the canvas is to stay transparent (also the
/// eraser's color).
pub const TRANSPARENT_KEY: u32 = 0x0003_0201;

/// Offset of committed text from the point where its editor was opened.
pub const TEXT_PADDING: i32 = 8;

/// The eraser is this many times wider than the pen width.
pub const ERASER_WIDTH_MULTIPLIER: i32 = 12;

/// Half size of the square selection handles.
pub const SELECTION_HANDLE_SIZE: i32 = 7;

/// Red used for drawing until another color is chosen, and when a color
/// text cannot be read.
pub const DRAWING_FALLBACK_RGB: u32 = 0xef2b2d;

/// The drawing tools.
#[derive(Clone, Copy, PartialEq, Eq, Structural, Debug)]
pub enum NativeTool {
    Pointer,
    Select,
    Pen,
    Eraser,
    Line,
    Arrow,
    Rectangle,
    Ellipse,
    Text,
    Number,
    CheckMark,
    CrossMark,
}

/// The tool that a toolbar name stands for.
pub open spec fn tool_named(name: Seq<char>) -> Option<NativeTool> {
    if name == "pointer"@ {
        Some(NativeTool::Pointer)
    } else if name == "select"@ {
        Some(NativeTool::Select)
    } else if name == "pen"@ {
        Some(NativeTool::Pen)
    } else if name == "eraser"@ {
        Some(NativeTool::Eraser)
    } else if name == "line"@ {
        Some(NativeTool::Line)
    } else if name == "arrow"@ {
        Some(NativeTool::Arrow)
    } else if name == "rectangle"@ {
        Some(NativeTool::Rectangle)
    } else if name == "ellipse"@ {
        Some(NativeTool::Ellipse)
    } else if name == "text"@ {
        Some(NativeTool::Text)
    } else if name == "number"@ {
        Some(NativeTool::Number)
    } else if name == "check-mark"@ {
        Some(NativeTool::CheckMark)
    } else if name == "cross-mark"@ {
        Some(NativeTool::CrossMark)
    } else {
        None
    }
}

/// The tool named by the toolbar, if the name is one of them.
pub fn parse_tool(value: &str) -> (tool: Option<NativeTool>)
    ensures
        tool == tool_named(value@),
{
    if str_eq(value, "pointer") {
        Some(NativeTool::Pointer)
    } else if str_eq(value, "select") {
        Some(NativeTool::Select)
    } else if str_eq(value, "pen") {
        Some(NativeTool::Pen)
    } else if str_eq(value, "eraser") {
        Some(NativeTool::Eraser)
    } else if str_eq(value, "line") {
        Some(NativeTool::Line)
    } else if str_eq(value, "arrow") {
        Some(NativeTool::Arrow)
    } else if str_eq(value, "rectangle") {
        Some(NativeTool::Rectangle)
    } else if str_eq(value, "ellipse") {
        Some(NativeTool::Ellipse)
    } else if str_eq(value, "text") {
        Some(NativeTool::Text)
    } else if str_eq(value, "number") {
        Some(NativeTool::Number)
    } else if str_eq(value, "check-mark") {
        Some(NativeTool::CheckMark)
    } else if str_eq(value, "cross-mark") {
        Some(NativeTool::CrossMark)
    } else {
        None
    }
}

/// The `COLORREF` that `parse_color` gives for the bytes of a color text.
pub open spec fn drawing_color_spec(bytes: Seq<u8>) -> int {
    let rgb = match parse_hex_u32(trim_leading_hash(bytes)) {
        Some(v) => v as int,
        None => DRAWING_FALLBACK_RGB as int,
    };
    colorref_of_rgb24(rgb)
}

/// Reads a `#rrggbb` drawing color as a `COLORREF`, red when unreadable.
pub fn parse_color(value: &str) -> (c: u32)
    ensures
        c == drawing_color_spec(value.spec_bytes()),
{
    let bytes = value.as_bytes();
    let k = leading_hash_count(bytes);
    let parsed = match parse_hex_range(bytes, k, bytes.len(), u32::MAX) {
        Some(v) => v,
        None => DRAWING_FALLBACK_RGB,
    };
    colorref_from_rgb24(parsed)
}

/// The opaque `0xAARRGGBB` value of a `COLORREF` (`0x00BBGGRR`).
pub open spec fn argb_spec(c: int) -> int {
    0xff00_0000 + (c % 0x100) * 0x10000 + ((c / 0x100) % 0x100) * 0x100 + (c / 0x10000) % 0x100
}

/// The opaque ARGB value of a `COLORREF`, as GDI+ takes colors.
pub fn argb_from_color(color: u32) -> (argb: u32)
    ensures
        argb == argb_spec(color as int),
{
    let red = color & 0xff;
    let green = (color >> 8) & 0xff;
    let blue = (color >> 16) & 0xff;
    proof {
        assert(red == color % 0x100) by (bit_vector)
            requires
                red == color & 0xff,
        ;
        assert(green == (color / 0x100) % 0x100) by (bit_vector)
            requires
                green == (color >> 8) & 0xff,
        ;
        assert(blue == (color / 0x10000) % 0x100) by (bit_vector)
            requires
                blue == (color >> 16) & 0xff,
        ;
        assert(0xff00_0000u32 | (red << 16) | (green << 8) | blue == 0xff00_0000 + red * 0x10000
            + green * 0x100 + blue) by (bit_vector)
            requires
                red < 0x100,
                green < 0x100,
                blue < 0x100,
        ;
    }
    0xff00_0000 | (red << 16) | (green << 8) | blue
}

/// A `COLORREF` that GDI draws visibly on the canvas: pure black (which
/// the canvas would treat as empty) becomes the darkest non-zero gray.
pub fn gdi_visible_color(color: u32) -> (c: u32)
    ensures
        c == if color % 0x100_0000 == 0 { 0x0001_0101 } else { color },
{
    let low = color & 0x00ff_ffff;
    proof {
        assert(low == color % 0x100_0000) by (bit_vector)
            requires
                low == color & 0x00ff_ffff,
        ;
    }
    if low == 0 {
        0x0001_0101
    } else {
        color
    }
}

/// A point in pixels.
#[derive(Clone, Copy, PartialEq, Eq, Structural, Debug)]
pub struct Point {
    pub x: i32,
    pub y: i32,
}

/// A rectangle in pixels; `right` and `bottom` lie just outside.
#[derive(Clone, Copy, PartialEq, Eq, Structural, Debug)]
pub struct Rect {
    pub left: i32,
    pub top: i32,
    pub right: i32,
    pub bottom: i32,
}

/// Whether `point` lies within `radius` of `target` on both axes.
pub fn point_near(point: Point, target: Point, radius: i32) -> (near: bool)
    ensures
        near == (abs_int(point.x - target.x) <= radius && abs_int(point.y - target.y) <= radius),
{
    let dx = (point.x as i64 - target.x as i64);
    let dy = (point.y as i64 - target.y as i64);
    let adx = if dx < 0 { -dx } else { dx };
    let ady = if dy < 0 { -dy } else { dy };
    adx <= radius as i64 && ady <= radius as i64
}

/// Absolute value.
pub open spec fn abs_int(v: int) -> int {
    if v < 0 { -v } else { v }
}

/// Whether moving both points by `(dx, dy)` stays within `i32`.
pub open spec fn pair_moves_within(start: Point, end: Point, dx: int, dy: int) -> bool {
    &&& i32::MIN <= start.x + dx <= i32::MAX
    &&& i32::MIN <= start.y + dy <= i32::MAX
    &&& i32::MIN <= end.x + dx <= i32::MAX
    &&& i32::MIN <= end.y + dy <= i32::MAX
}

/// Moves both points by `(dx, dy)`.
pub fn translate_point_pair(start: &mut Point, end: &mut Point, dx: i32, dy: i32)
    requires
        pair_moves_within(*old(start), *old(end), dx as int, dy as int),
    ensures
        final(start).x == old(start).x + dx,
        final(start).y == old(start).y + dy,
        final(end).x == old(end).x + dx,
        final(end).y == old(end).y + dy,
{
    start.x = start.x + dx;
    start.y = start.y + dy;
    end.x = end.x + dx;
    end.y = end.y + dy;
}

/// `v` limited to `[lo, hi]`.
pub open spec fn clamp_int(v: int, lo: int, hi: int) -> int {
    if v < lo {
        lo
    } else if v > hi {
        hi
    } else {
        v
    }
}

/// Radius of a numbered marker drawn with width `width`.
pub open spec fn number_radius_spec(width: int) -> int {
    14 + clamp_int(width, 1, 100) * 2
}

/// Radius of a numbered marker drawn with width `width`.
pub fn number_radius(width: i32) -> (r: i32)
    ensures
        r == number_radius_spec(width as int),
        16 <= r <= 214,
{
    let w = if width < 1 {
        1
    } else if width > 100 {
        100
    } else {
        width
    };
    14 + w * 2
}

/// Radius of a check or cross stamp: that of a numbered marker.
pub fn stamp_radius(width: i32) -> (r: i32)
    ensures
        r == number_radius_spec(width as int),
        16 <= r <= 214,
{
    number_radius(width)
}

/// Font height of text drawn with width `width`: four pixels per unit of
/// width, at least 18.
pub fn text_font_size(width: i32) -> (size: i32)
    requires
        i32::MIN <= width * 4 <= i32::MAX,
    ensures
        size == if width * 4 > 18 { width * 4 } else { 18 },
{
    let scaled = width * 4;
    if scaled > 18 {
        scaled
    } else {
        18
    }
}

/// The rectangle spanned by two corner points.
pub fn rect_from_points(start: Point, end: Point) -> (r: Rect)
    ensures
        r.left == if start.x <= end.x { start.x } else { end.x },
        r.top == if start.y <= end.y { start.y } else { end.y },
        r.right == if start.x >= end.x { start.x } else { end.x },
        r.bottom == if start.y >= end.y { start.y } else { end.y },
{
    Rect {
        left: if start.x <= end.x { start.x } else { end.x },
        top: if start.y <= end.y { start.y } else { end.y },
        right: if start.x >= end.x { start.x } else { end.x },
        bottom: if start.y >= end.y { start.y } else { end.y },
    }
}

/// Whether two rectangles overlap or touch (edges inclusive).
pub open spec fn rects_intersect_spec(a: Rect, b: Rect) -> bool {
    a.left <= b.right && a.right >= b.left && a.top <= b.bottom && a.bottom >= b.top
}

/// Whether two rectangles overlap or touch (edges inclusive).
pub fn rects_intersect(left: Rect, right: Rect) -> (res: bool)
    ensures
        res == rects_intersect_spec(left, right),
{
    left.left <= right.right && left.right >= right.left && left.top <= right.bottom
        && left.bottom >= right.top
}

/// Whether the point lies inside the rectangle (right and bottom excluded).
pub open spec fn rect_contains(r: Rect, x: int, y: int) -> bool {
    r.left <= x < r.right && r.top <= y < r.bottom
}

/// The client point that a mouse message packs into its `lparam`: signed
/// 16-bit x in the low word, signed 16-bit y in the next word.
pub open spec fn signed_word(w: int) -> int {
    if w >= 0x8000 { w - 0x10000 } else { w }
}

/// Unpacks the client point of a mouse message.
pub fn lparam_point(lparam: isize) -> (p: Point)
    ensures
        p.x == signed_word((lparam as u32) as int % 0x10000),
        p.y == signed_word(((lparam as u32) as int / 0x10000) % 0x10000),
{
    let bits = lparam as u32;
    let low = bits & 0xffff;
    let high = (bits >> 16) & 0xffff;
    proof {
        assert(low == bits % 0x10000) by (bit_vector)
            requires
                low == bits & 0xffff,
        ;
        assert(high == (bits / 0x10000) % 0x10000) by (bit_vector)
            requires
                high == (bits >> 16) & 0xffff,
        ;
    }
    let x: i32 = if low >= 0x8000 { low as i32 - 0x10000 } else { low as i32 };
    let y: i32 = if high >= 0x8000 { high as i32 - 0x10000 } else { high as i32 };
    Point { x, y }
}

/// The wheel rotation that a wheel message packs into the high word of its
/// `wparam`, as a signed 16-bit number.
pub fn wheel_delta(wparam: usize) -> (delta: i32)
    ensures
        delta == signed_word((wparam as int / 0x10000) % 0x10000),
{
    let shifted = wparam >> 16;
    let word = shifted & 0xffff;
    proof {
        assert(shifted == wparam / 0x10000) by (bit_vector)
            requires
                shifted == wparam >> 16,
        ;
        assert(word == shifted % 0x10000) by (bit_vector)
            requires
                word == shifted & 0xffff,
        ;
    }
    if word >= 0x8000 {
        word as i32 - 0x10000
    } else {
        word as i32
    }
}

} // verus!
