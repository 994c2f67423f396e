use vstd::prelude::*;
use vstd::string::StringSliceAdditionalSpecFns;

use crate::color::{blue_of, colorref, colorref_from_channels, green_of, red_of};
use crate::hex::{leading_hash_count, parse_hex_range, parse_hex_u32, starts_char, trim_leading_hash};
use crate::native_drawing::{Point, Rect};

verus! {

/// White, used for the group background when its color text cannot be read.
pub const KEY_BACKGROUND_FALLBACK_RGB: u32 = 0xffffff;

/// The bytes of a color text that are read as its `rrggbb` part: the first
/// six bytes after the leading `#` when a character starts at the sixth
/// byte, else everything after the leading `#`.
pub open spec fn rgb_part(bytes: Seq<u8>) -> Seq<u8> {
    let t = trim_leading_hash(bytes);
    if 6 <= t.len() && starts_char(t, 6) {
        t.take(6)
    } else {
        t
    }
}

/// The `0xRRGGBB` value read from a color text, white when unreadable.
pub open spec fn key_rgb_spec(bytes: Seq<u8>) -> int {
    match parse_hex_u32(rgb_part(bytes)) {
        Some(v) => v as int,
        None => KEY_BACKGROUND_FALLBACK_RGB as int,
    }
}

/// The `COLORREF` of `red`, `green` and `blue`.
pub fn rgb(red: u8, green: u8, blue: u8) -> (c: u32)
    ensures
        c == colorref(red as int, green as int, blue as int),
{
    colorref_from_channels(red, green, blue)
}

/// Start and end (in bytes) of the `rrggbb` part of a color text.
pub fn rgb_part_range(bytes: &[u8]) -> (r: (usize, usize))
    ensures
        r.0 <= r.1 <= bytes@.len(),
        bytes@.subrange(r.0 as int, r.1 as int) == rgb_part(bytes@),
        trim_leading_hash(bytes@) == bytes@.subrange(r.0 as int, bytes@.len() as int),
{
    let k = leading_hash_count(bytes);
    let ghost t = bytes@.subrange(k as int, bytes@.len() as int);
    let n = bytes.len();
    if n - k >= 6 && (n - k == 6 || !(0x80 <= bytes[k + 6] && bytes[k + 6] < 0xC0)) {
        proof {
            assert(starts_char(t, 6));
            assert(bytes@.subrange(k as int, k + 6) =~= t.take(6));
        }
        (k, k + 6)
    } else {
        proof {
            assert(!(6 <= t.len() && starts_char(t, 6)));
        }
        (k, n)
    }
}

/// Reads a `#rrggbb` color for the key overlay as a `COLORREF`; anything
/// after the sixth byte is ignored.
pub fn parse_color(value: &str) -> (c: u32)
    ensures
        c == colorref(
            red_of(key_rgb_spec(value.spec_bytes())),
            green_of(key_rgb_spec(value.spec_bytes())),
            blue_of(key_rgb_spec(value.spec_bytes())),
        ),
{
    let bytes = value.as_bytes();
    let (start, end) = rgb_part_range(bytes);
    let parsed = match parse_hex_range(bytes, start, end, u32::MAX) {
        Some(v) => v,
        None => KEY_BACKGROUND_FALLBACK_RGB,
    };
    let red = ((parsed >> 16) & 0xff) as u8;
    let green = ((parsed >> 8) & 0xff) as u8;
    let blue = (parsed & 0xff) as u8;
    proof {
        assert((parsed >> 16) & 0xff == (parsed / 0x10000) % 0x100) by (bit_vector);
        assert((parsed >> 8) & 0xff == (parsed / 0x100) % 0x100) by (bit_vector);
        assert(parsed & 0xff == parsed % 0x100) by (bit_vector);
    }
    rgb(red, green, blue)
}

/// A group of keys shown together.
pub struct NativeKeyGroup {
    pub keys: Vec<NativeKeyItem>,
}

/// A key shown by the overlay.
pub struct NativeKeyItem {
    pub label: String,
    pub modifier: bool,
    pub mouse_kind: Option<String>,
    pub pressed: bool,
}

/// Sizes of the key overlay's layout in pixels, which the application
/// derives from the text size and the monitor's scale. The two renderers
/// differ in `plus_offset` (where a `+` is anchored past the gap after a
/// key: its left edge for the Direct2D renderer, its centre, half a font
/// size on, for the software renderer) and in `bottom_margin` (room below
/// the groups: 16 pixels for the Direct2D renderer, none for the software
/// one).
#[derive(Clone, Copy, PartialEq, Eq, Structural, Debug)]
pub struct LayoutMetrics {
    pub key_height: i32,
    pub key_gap: i32,
    pub group_gap: i32,
    pub padding: i32,
    pub group_padding: i32,
    pub plus_width: i32,
    pub plus_offset: i32,
    pub bottom_margin: i32,
}

/// Where a group of keys is drawn: its box, the box of each key and the
/// position of each `+` between two keys.
pub struct GroupPlan {
    pub rect: Rect,
    pub keys: Vec<Rect>,
    pub plus_positions: Vec<Point>,
}

/// The layout of the key overlay: its groups and the window's size.
pub struct KeyLayoutPlan {
    pub groups: Vec<GroupPlan>,
    pub width: i32,
    pub height: i32,
}

/// The sum of the values, each followed by `stride`.
pub open spec fn advance(s: Seq<int>, stride: int) -> int
    decreases s.len(),
{
    if s.len() == 0 {
        0
    } else {
        advance(s.drop_last(), stride) + s.last() + stride
    }
}

/// Key widths as integers.
pub open spec fn widths_of(ws: Seq<i32>) -> Seq<int> {
    ws.map_values(|w: i32| w as int)
}

/// The room between the starts of two neighbouring keys beyond the first
/// key's width: a gap, the `+`, and a gap.
pub open spec fn key_step(m: LayoutMetrics) -> int {
    2 * m.key_gap + m.plus_width
}

/// The width of a group: its keys with a `+` between neighbours, inside
/// the group's padding.
pub open spec fn group_width_spec(ws: Seq<i32>, m: LayoutMetrics) -> int {
    if ws.len() == 0 {
        2 * m.group_padding
    } else {
        advance(widths_of(ws), key_step(m)) - key_step(m) + 2 * m.group_padding
    }
}

/// The height of a group: a key inside the group's padding.
pub open spec fn group_height_spec(m: LayoutMetrics) -> int {
    m.key_height + 2 * m.group_padding
}

/// The widths of all groups.
pub open spec fn group_widths(wss: Seq<Seq<i32>>, m: LayoutMetrics) -> Seq<int> {
    wss.map_values(|ws: Seq<i32>| group_width_spec(ws, m))
}

/// The largest of the values, `dflt` when there are none.
pub open spec fn max_or(s: Seq<int>, dflt: int) -> int
    decreases s.len(),
{
    if s.len() == 0 {
        dflt
    } else if s.len() == 1 {
        s[0]
    } else {
        let rest = max_or(s.drop_last(), dflt);
        if s.last() > rest { s.last() } else { rest }
    }
}

/// The width of the groups together: side by side with gaps in a row,
/// else the widest (1 when there is none).
pub open spec fn content_width_spec(wss: Seq<Seq<i32>>, m: LayoutMetrics, row: bool) -> int {
    let gws = group_widths(wss, m);
    if row {
        if gws.len() == 0 { 0 } else { advance(gws, m.group_gap as int) - m.group_gap }
    } else {
        max_or(gws, 1)
    }
}

/// The height of the groups together: one group in a row, else the groups
/// stacked with gaps.
pub open spec fn content_height_spec(n: int, m: LayoutMetrics, row: bool) -> int {
    if row {
        group_height_spec(m)
    } else if n == 0 {
        0
    } else {
        n * (group_height_spec(m) + m.group_gap) - m.group_gap
    }
}

/// The window's width: the groups with the padding on both sides, at
/// least 1.
pub open spec fn layout_width_spec(wss: Seq<Seq<i32>>, m: LayoutMetrics, row: bool) -> int {
    let w = content_width_spec(wss, m, row) + 2 * m.padding;
    if w < 1 { 1 } else { w }
}

/// The window's height: the groups with the padding above and below and
/// the bottom margin, at least 1.
pub open spec fn layout_height_spec(n: int, m: LayoutMetrics, row: bool) -> int {
    let h = content_height_spec(n, m, row) + 2 * m.padding + m.bottom_margin;
    if h < 1 { 1 } else { h }
}

/// The top-left corner of group `g`: groups follow one another from the
/// padding, left to right in a row, else top to bottom.
pub open spec fn group_origin(wss: Seq<Seq<i32>>, m: LayoutMetrics, row: bool, g: int) -> (int, int) {
    if row {
        (m.padding + advance(group_widths(wss, m).take(g), m.group_gap as int), m.padding as int)
    } else {
        (m.padding as int, m.padding + g * (group_height_spec(m) + m.group_gap))
    }
}

/// The left edge of key `k` relative to its group.
pub open spec fn key_offset(ws: Seq<i32>, m: LayoutMetrics, k: int) -> int {
    m.group_padding + advance(widths_of(ws).take(k), key_step(m))
}

/// Whether a group is placed at `origin` as the layout places it: its box
/// spans its width and height; each key starts at its offset, its top 2
/// pixels lower when pressed; a `+` sits a gap and the plus offset after
/// each key but the last, halfway down the group.
pub open spec fn group_placed(
    plan: GroupPlan,
    ws: Seq<i32>,
    pressed: Seq<bool>,
    m: LayoutMetrics,
    origin: (int, int),
) -> bool {
    &&& plan.rect.left == origin.0
    &&& plan.rect.top == origin.1
    &&& plan.rect.right == origin.0 + group_width_spec(ws, m)
    &&& plan.rect.bottom == origin.1 + group_height_spec(m)
    &&& plan.keys@.len() == ws.len()
    &&& forall|k: int|
        0 <= k < ws.len() ==> {
            let r = #[trigger] plan.keys@[k];
            let top = origin.1 + m.group_padding + if pressed[k] { 2int } else { 0int };
            &&& r.left == origin.0 + key_offset(ws, m, k)
            &&& r.top == top
            &&& r.right == origin.0 + key_offset(ws, m, k) + ws[k]
            &&& r.bottom == top + m.key_height
        }
    &&& plan.plus_positions@.len() == if ws.len() == 0 { 0 } else { ws.len() - 1 }
    &&& forall|k: int|
        0 <= k < plan.plus_positions@.len() ==> {
            let q = #[trigger] plan.plus_positions@[k];
            &&& q.x == origin.0 + key_offset(ws, m, k) + ws[k] + m.key_gap + m.plus_offset
            &&& q.y == origin.1 + group_height_spec(m) / 2
        }
}

/// Whether the metrics and widths are not negative, and each `+` is
/// anchored within the room between two keys.
pub open spec fn layout_sizes_ok(wss: Seq<Seq<i32>>, m: LayoutMetrics) -> bool {
    &&& m.key_height >= 0 && m.key_gap >= 0 && m.group_gap >= 0
    &&& m.padding >= 0 && m.group_padding >= 0 && m.plus_width >= 0
    &&& 0 <= m.plus_offset <= m.key_gap + m.plus_width
    &&& m.bottom_margin >= 0
    &&& forall|g: int, k: int| 0 <= g < wss.len() && 0 <= k < wss[g].len() ==> #[trigger] wss[g][k] >= 0
}

/// Whether the window's size, and the bottom of a pressed key, fit in
/// `i32`.
pub open spec fn layout_fits(wss: Seq<Seq<i32>>, m: LayoutMetrics, row: bool) -> bool {
    &&& content_width_spec(wss, m, row) + 2 * m.padding <= i32::MAX
    &&& content_height_spec(wss.len() as int, m, row) + 2 * m.padding + m.bottom_margin <= i32::MAX
    &&& content_height_spec(wss.len() as int, m, row) + m.padding + 2 <= i32::MAX
}

/// Advancing over a prefix goes no further than over the whole, and one
/// more value advances by that value and the stride.
proof fn lemma_advance_prefix(s: Seq<int>, stride: int, k: int)
    requires
        0 <= k <= s.len(),
        stride >= 0,
        forall|i: int| 0 <= i < s.len() ==> #[trigger] s[i] >= 0,
    ensures
        0 <= advance(s.take(k), stride) <= advance(s, stride),
        k < s.len() ==> advance(s.take(k + 1), stride) == advance(s.take(k), stride) + s[k] + stride,
        k == s.len() ==> advance(s.take(k), stride) == advance(s, stride),
    decreases s.len() - k,
{
    assert(s.take(s.len() as int) =~= s);
    if k < s.len() {
        assert(s.take(k + 1).drop_last() =~= s.take(k));
        assert(s.take(k + 1).last() == s[k]);
        lemma_advance_prefix(s, stride, k + 1);
        assert forall|i: int| 0 <= i < s.take(k).len() implies #[trigger] s.take(k)[i] >= 0 by {
            assert(s.take(k)[i] == s[i]);
        }
        lemma_advance_nonneg(s.take(k), stride);
    } else {
        lemma_advance_nonneg(s, stride);
    }
}

/// Advancing over non-negative values goes at least one stride per value.
proof fn lemma_advance_nonneg(s: Seq<int>, stride: int)
    requires
        stride >= 0,
        forall|i: int| 0 <= i < s.len() ==> #[trigger] s[i] >= 0,
    ensures
        advance(s, stride) >= s.len() * stride,
        advance(s, stride) >= 0,
    decreases s.len(),
{
    if s.len() > 0 {
        assert forall|i: int| 0 <= i < s.drop_last().len() implies #[trigger] s.drop_last()[i] >= 0 by {
            assert(s.drop_last()[i] == s[i]);
        }
        lemma_advance_nonneg(s.drop_last(), stride);
        assert(s.len() * stride == (s.len() - 1) * stride + stride) by (nonlinear_arith);
    }
}

/// The largest value is at least each value.
proof fn lemma_max_or(s: Seq<int>, dflt: int, i: int)
    requires
        0 <= i < s.len(),
    ensures
        s[i] <= max_or(s, dflt),
    decreases s.len(),
{
    if s.len() > 1 {
        if i < s.len() - 1 {
            lemma_max_or(s.drop_last(), dflt, i);
            assert(s.drop_last()[i] == s[i]);
        }
    }
}

/// The width of a group of keys, given the widths of its keys (see
/// `group_width_spec`).
fn group_width(ws: &Vec<i32>, m: LayoutMetrics) -> (w: i32)
    requires
        m.key_gap >= 0,
        m.plus_width >= 0,
        m.group_padding >= 0,
        forall|k: int| 0 <= k < ws@.len() ==> #[trigger] ws@[k] >= 0,
        group_width_spec(ws@, m) <= i32::MAX,
    ensures
        w == group_width_spec(ws@, m),
{
    let ghost s = widths_of(ws@);
    let ghost step = key_step(m);
    proof {
        assert forall|i: int| 0 <= i < s.len() implies #[trigger] s[i] >= 0 by {
            assert(s[i] == ws@[i]);
        }
    }
    let gp = m.group_padding as i64;
    if ws.len() == 0 {
        return (2 * gp) as i32;
    }
    let step_exec: i64 = 2 * m.key_gap as i64 + m.plus_width as i64;
    let mut acc: i64 = ws[0] as i64;
    proof {
        lemma_advance_prefix(s, step, 0);
        lemma_advance_prefix(s, step, 1);
        assert(s.take(0).len() == 0);
        lemma_advance_prefix(s, step, s.len() as int);
    }
    let mut k: usize = 1;
    while k < ws.len()
        invariant
            1 <= k <= ws@.len(),
            s == widths_of(ws@),
            step == key_step(m),
            step_exec == step,
            step >= 0,
            gp == m.group_padding,
            gp >= 0,
            forall|i: int| 0 <= i < s.len() ==> #[trigger] s[i] >= 0,
            acc == advance(s.take(k as int), step) - step,
            advance(s, step) - step + 2 * gp <= i32::MAX,
        decreases ws@.len() - k,
    {
        proof {
            lemma_advance_prefix(s, step, k as int);
            lemma_advance_prefix(s, step, k + 1);
            assert(s[k as int] == ws@[k as int]);
        }
        acc = acc + step_exec + ws[k] as i64;
        k += 1;
    }
    proof {
        lemma_advance_prefix(s, step, k as int);
    }
    (acc + 2 * gp) as i32
}

/// The pressed flags of a group's keys.
pub open spec fn pressed_of(g: NativeKeyGroup) -> Seq<bool> {
    g.keys@.map_values(|k: NativeKeyItem| k.pressed)
}

/// The widths of the keys of each group.
pub open spec fn key_widths(widths: Seq<Vec<i32>>) -> Seq<Seq<i32>> {
    widths.map_values(|v: Vec<i32>| v@)
}

/// A group's width is at least its padding on both sides; each key, and
/// each `+` that follows one, ends within it.
proof fn lemma_group_width_bounds(ws: Seq<i32>, m: LayoutMetrics, k: int)
    requires
        m.key_gap >= 0,
        m.plus_width >= 0,
        m.group_padding >= 0,
        forall|i: int| 0 <= i < ws.len() ==> #[trigger] ws[i] >= 0,
        0 <= k < ws.len(),
    ensures
        group_width_spec(ws, m) >= 2 * m.group_padding,
        m.group_padding <= key_offset(ws, m, k),
        key_offset(ws, m, k) + ws[k] <= group_width_spec(ws, m),
        k + 1 < ws.len() ==> key_offset(ws, m, k) + ws[k] + 2 * m.key_gap + m.plus_width <= group_width_spec(ws, m),
{
    let s = widths_of(ws);
    let step = key_step(m);
    assert forall|i: int| 0 <= i < s.len() implies #[trigger] s[i] >= 0 by {
        assert(s[i] == ws[i]);
    }
    lemma_advance_prefix(s, step, k);
    lemma_advance_prefix(s, step, k + 1);
    lemma_advance_nonneg(s, step);
    assert(s[k] == ws[k]);
    if k + 1 < ws.len() {
        lemma_advance_prefix(s, step, k + 1);
        lemma_advance_prefix(s, step, k + 2);
        assert(s[k + 1] == ws[k + 1]);
        assert(s.take(k + 2).len() == k + 2);
        lemma_advance_take_monotone(s, step, k + 2);
    }
}

/// Advancing over a longer prefix goes at least as far.
proof fn lemma_advance_take_monotone(s: Seq<int>, stride: int, k: int)
    requires
        0 <= k <= s.len(),
        stride >= 0,
        forall|i: int| 0 <= i < s.len() ==> #[trigger] s[i] >= 0,
    ensures
        advance(s.take(k), stride) <= advance(s, stride),
{
    lemma_advance_prefix(s, stride, k);
}

/// Places one group of keys with its top-left corner at `origin`.
fn place_group(ws: &Vec<i32>, group: &NativeKeyGroup, m: LayoutMetrics, origin: (i32, i32), gw: i32) -> (plan: GroupPlan)
    requires
        ws@.len() == group.keys@.len(),
        m.key_height >= 0 && m.key_gap >= 0 && m.plus_width >= 0 && m.group_padding >= 0,
        0 <= m.plus_offset <= m.key_gap + m.plus_width,
        forall|i: int| 0 <= i < ws@.len() ==> #[trigger] ws@[i] >= 0,
        gw == group_width_spec(ws@, m),
        origin.0 >= 0,
        origin.1 >= 0,
        origin.0 + gw <= i32::MAX,
        origin.1 + group_height_spec(m) + 2 <= i32::MAX,
    ensures
        group_placed(plan, ws@, pressed_of(*group), m, (origin.0 as int, origin.1 as int)),
{
    let ghost s = widths_of(ws@);
    let ghost step = key_step(m);
    let step_exec: i64 = 2 * m.key_gap as i64 + m.plus_width as i64;
    let gh: i64 = m.key_height as i64 + 2 * m.group_padding as i64;
    let x0 = origin.0 as i64;
    let y0 = origin.1 as i64;
    let mut keys: Vec<Rect> = Vec::new();
    let mut plus: Vec<Point> = Vec::new();
    let mut offset: i64 = m.group_padding as i64;
    let n = ws.len();
    proof {
        assert(s.take(0) =~= Seq::<int>::empty());
    }
    let mut k: usize = 0;
    while k < n
        invariant
            n == ws@.len() == group.keys@.len(),
            k <= n,
            s == widths_of(ws@),
            step == key_step(m),
            step_exec == step,
            gh == group_height_spec(m),
            x0 == origin.0,
            y0 == origin.1,
            origin.0 >= 0,
            origin.1 >= 0,
            origin.0 + gw <= i32::MAX,
            origin.1 + group_height_spec(m) + 2 <= i32::MAX,
            gw == group_width_spec(ws@, m),
            m.key_height >= 0 && m.key_gap >= 0 && m.plus_width >= 0 && m.group_padding >= 0,
            0 <= m.plus_offset <= m.key_gap + m.plus_width,
            forall|i: int| 0 <= i < ws@.len() ==> #[trigger] ws@[i] >= 0,
            k < n ==> offset == key_offset(ws@, m, k as int),
            keys@.len() == k,
            plus@.len() == if k < n {
                k as int
            } else if n == 0 {
                0
            } else {
                n - 1
            },
            forall|j: int|
                0 <= j < k ==> {
                    let r = #[trigger] keys@[j];
                    let top = origin.1 + m.group_padding + if pressed_of(*group)[j] { 2int } else { 0int };
                    &&& r.left == origin.0 + key_offset(ws@, m, j)
                    &&& r.top == top
                    &&& r.right == origin.0 + key_offset(ws@, m, j) + ws@[j]
                    &&& r.bottom == top + m.key_height
                },
            forall|j: int|
                0 <= j < plus@.len() ==> {
                    let q = #[trigger] plus@[j];
                    &&& q.x == origin.0 + key_offset(ws@, m, j) + ws@[j] + m.key_gap + m.plus_offset
                    &&& q.y == origin.1 + group_height_spec(m) / 2
                },
        decreases n - k,
    {
        proof {
            lemma_group_width_bounds(ws@, m, k as int);
            assert(pressed_of(*group)[k as int] == group.keys@[k as int].pressed);
        }
        let w = ws[k] as i64;
        let lift: i64 = if group.keys[k].pressed { 2 } else { 0 };
        let left = x0 + offset;
        let top = y0 + m.group_padding as i64 + lift;
        keys.push(
            Rect {
                left: left as i32,
                top: top as i32,
                right: (left + w) as i32,
                bottom: (top + m.key_height as i64) as i32,
            },
        );
        if k + 1 < n {
            plus.push(
                Point {
                    x: (left + w + m.key_gap as i64 + m.plus_offset as i64) as i32,
                    y: (y0 + gh / 2) as i32,
                },
            );
            proof {
                lemma_advance_prefix(s, step, k as int);
                assert(s[k as int] == ws@[k as int]);
            }
            offset = offset + w + step_exec;
        }
        k += 1;
    }
    GroupPlan {
        rect: Rect {
            left: origin.0,
            top: origin.1,
            right: (x0 + gw as i64) as i32,
            bottom: (y0 + gh) as i32,
        },
        keys,
        plus_positions: plus,
    }
}

/// A group is at least as wide as its padding, and no wider than the
/// groups together.
proof fn lemma_group_within_content(wss: Seq<Seq<i32>>, m: LayoutMetrics, row: bool, g: int)
    requires
        layout_sizes_ok(wss, m),
        0 <= g < wss.len(),
    ensures
        0 <= group_widths(wss, m)[g] <= content_width_spec(wss, m, row),
        row ==> group_origin(wss, m, row, g).0 + group_widths(wss, m)[g] <= m.padding
            + content_width_spec(wss, m, row),
        row ==> group_origin(wss, m, row, g).0 >= m.padding,
{
    let gws = group_widths(wss, m);
    assert(gws[g] == group_width_spec(wss[g], m));
    assert forall|i: int| 0 <= i < gws.len() implies #[trigger] gws[i] >= 0 by {
        lemma_group_width_nonneg(wss[i], m);
        assert forall|k: int| 0 <= k < wss[i].len() implies #[trigger] wss[i][k] >= 0 by {
            assert(wss[i][k] >= 0);
        }
    }
    if row {
        lemma_advance_prefix(gws, m.group_gap as int, g);
        lemma_advance_prefix(gws, m.group_gap as int, g + 1);
        lemma_advance_take_monotone(gws, m.group_gap as int, g + 1);
    } else {
        lemma_max_or(gws, 1, g);
    }
}

/// A group's width is at least its padding on both sides.
proof fn lemma_group_width_nonneg(ws: Seq<i32>, m: LayoutMetrics)
    requires
        m.key_gap >= 0,
        m.plus_width >= 0,
        m.group_padding >= 0,
        forall|i: int| 0 <= i < ws.len() ==> #[trigger] ws[i] >= 0,
    ensures
        group_width_spec(ws, m) >= 2 * m.group_padding,
{
    if ws.len() > 0 {
        lemma_group_width_bounds(ws, m, 0);
    }
}

/// A stacked group ends within the groups' height.
proof fn lemma_stacked_group_within(n: int, g: int, gh: int, gg: int)
    requires
        0 <= g < n,
        gh >= 0,
        gg >= 0,
    ensures
        g * (gh + gg) + gh <= n * (gh + gg) - gg,
        g * (gh + gg) >= 0,
{
    assert(g * (gh + gg) + gh <= n * (gh + gg) - gg) by (nonlinear_arith)
        requires
            0 <= g < n,
            gh >= 0,
            gg >= 0,
    ;
    assert(g * (gh + gg) >= 0) by (nonlinear_arith)
        requires
            0 <= g,
            gh >= 0,
            gg >= 0,
    ;
}

/// Groups follow one another without overlapping: in a row, each group
/// starts a group gap after the previous one ends; in a column, a group
/// gap below it.
pub proof fn groups_follow_one_another(wss: Seq<Seq<i32>>, m: LayoutMetrics, g: int)
    requires
        layout_sizes_ok(wss, m),
        0 <= g,
        g + 1 < wss.len(),
    ensures
        group_origin(wss, m, true, g).0 + group_width_spec(wss[g], m) + m.group_gap == group_origin(
            wss,
            m,
            true,
            g + 1,
        ).0,
        group_origin(wss, m, false, g).1 + group_height_spec(m) + m.group_gap == group_origin(
            wss,
            m,
            false,
            g + 1,
        ).1,
{
    let gws = group_widths(wss, m);
    assert forall|i: int| 0 <= i < gws.len() implies #[trigger] gws[i] >= 0 by {
        lemma_group_within_content(wss, m, true, i);
    }
    lemma_advance_prefix(gws, m.group_gap as int, g);
    assert(gws[g] == group_width_spec(wss[g], m));
    let step = group_height_spec(m) + m.group_gap;
    assert((g + 1) * step == g * step + step) by (nonlinear_arith);
}

/// The widths of all groups (see `group_width_spec`).
fn all_group_widths(widths: &Vec<Vec<i32>>, m: LayoutMetrics, row_layout: bool) -> (gws: Vec<i32>)
    requires
        layout_sizes_ok(key_widths(widths@), m),
        layout_fits(key_widths(widths@), m, row_layout),
    ensures
        widths_of(gws@) == group_widths(key_widths(widths@), m),
        forall|j: int| 0 <= j < gws@.len() ==> #[trigger] gws@[j] >= 0,
{
    let ghost wss = key_widths(widths@);
    let ghost gws_spec = group_widths(wss, m);
    let n = widths.len();
    let mut gws: Vec<i32> = Vec::new();
    let mut g: usize = 0;
    while g < n
        invariant
            n == widths@.len() == wss.len() == gws_spec.len(),
            g <= n,
            wss == key_widths(widths@),
            gws_spec == group_widths(wss, m),
            layout_sizes_ok(wss, m),
            layout_fits(wss, m, row_layout),
            widths_of(gws@) == gws_spec.take(g as int),
            forall|j: int| 0 <= j < gws@.len() ==> #[trigger] gws@[j] >= 0,
        decreases n - g,
    {
        proof {
            lemma_group_within_content(wss, m, row_layout, g as int);
            assert(wss[g as int] == widths@[g as int]@);
            assert forall|k: int| 0 <= k < widths@[g as int]@.len() implies #[trigger] widths@[g as int]@[k] >= 0 by {
                assert(wss[g as int][k] >= 0);
            }
        }
        let w = group_width(&widths[g], m);
        let ghost before = gws@;
        gws.push(w);
        proof {
            assert(widths_of(gws@) =~= widths_of(before).push(w as int));
            assert(gws_spec.take(g + 1) =~= gws_spec.take(g as int).push(gws_spec[g as int]));
        }
        g += 1;
    }
    proof {
        assert(gws_spec.take(n as int) =~= gws_spec);
    }
    gws
}

/// The width of groups side by side with `gap` between neighbours.
fn row_width(gws: &Vec<i32>, gap: i32) -> (w: i64)
    requires
        gws@.len() > 0,
        gap >= 0,
        forall|j: int| 0 <= j < gws@.len() ==> #[trigger] gws@[j] >= 0,
        advance(widths_of(gws@), gap as int) - gap <= i32::MAX,
    ensures
        w == advance(widths_of(gws@), gap as int) - gap,
{
    let ghost s = widths_of(gws@);
    let gg = gap as i64;
    let n = gws.len();
    proof {
        assert forall|j: int| 0 <= j < s.len() implies #[trigger] s[j] >= 0 by {
            assert(s[j] == gws@[j]);
        }
        lemma_advance_prefix(s, gg as int, 0);
        lemma_advance_prefix(s, gg as int, 1);
        assert(s[0] == gws@[0]);
    }
    let mut acc: i64 = gws[0] as i64;
    let mut i: usize = 1;
    while i < n
        invariant
            1 <= i <= n == gws@.len() == s.len(),
            s == widths_of(gws@),
            gg == gap,
            gg >= 0,
            forall|j: int| 0 <= j < s.len() ==> #[trigger] s[j] >= 0,
            acc == advance(s.take(i as int), gg as int) - gg,
            advance(s, gg as int) - gg <= i32::MAX,
        decreases n - i,
    {
        proof {
            lemma_advance_prefix(s, gg as int, i as int);
            lemma_advance_prefix(s, gg as int, i + 1);
            lemma_advance_take_monotone(s, gg as int, i + 1);
            assert(s[i as int] == gws@[i as int]);
        }
        acc = acc + gg + gws[i] as i64;
        i += 1;
    }
    proof {
        assert(s.take(n as int) =~= s);
    }
    acc
}

/// The widest of the groups.
fn widest(gws: &Vec<i32>) -> (w: i64)
    requires
        gws@.len() > 0,
    ensures
        w == max_or(widths_of(gws@), 1),
{
    let ghost s = widths_of(gws@);
    let n = gws.len();
    let mut acc: i64 = gws[0] as i64;
    proof {
        assert(s.take(1).len() == 1);
        assert(s[0] == gws@[0]);
    }
    let mut i: usize = 1;
    while i < n
        invariant
            1 <= i <= n == gws@.len() == s.len(),
            s == widths_of(gws@),
            acc == max_or(s.take(i as int), 1),
        decreases n - i,
    {
        proof {
            assert(s.take(i + 1).drop_last() =~= s.take(i as int));
            assert(s[i as int] == gws@[i as int]);
        }
        let v = gws[i] as i64;
        if v > acc {
            acc = v;
        }
        i += 1;
    }
    proof {
        assert(s.take(n as int) =~= s);
    }
    acc
}

/// Lays out the key overlay: the groups' boxes, their keys and the `+`
/// between keys, and the window's size (see `group_placed`,
/// `group_origin`, `layout_width_spec` and `layout_height_spec`).
/// `widths` holds the width of every key, which the application measures
/// from its label; `row_layout` lays the groups out left to right rather
/// than top to bottom.
#[verifier::rlimit(40)]
pub fn build_layout_plan(
    groups: &Vec<NativeKeyGroup>,
    widths: &Vec<Vec<i32>>,
    metrics: LayoutMetrics,
    row_layout: bool,
) -> (plan: KeyLayoutPlan)
    requires
        widths@.len() == groups@.len(),
        forall|g: int| 0 <= g < groups@.len() ==> #[trigger] widths@[g]@.len() == groups@[g].keys@.len(),
        layout_sizes_ok(key_widths(widths@), metrics),
        layout_fits(key_widths(widths@), metrics, row_layout),
    ensures
        plan.width == layout_width_spec(key_widths(widths@), metrics, row_layout),
        plan.height == layout_height_spec(groups@.len() as int, metrics, row_layout),
        plan.groups@.len() == groups@.len(),
        forall|g: int|
            0 <= g < groups@.len() ==> group_placed(
                #[trigger] plan.groups@[g],
                key_widths(widths@)[g],
                pressed_of(groups@[g]),
                metrics,
                group_origin(key_widths(widths@), metrics, row_layout, g),
            ),
{
    let m = metrics;
    let ghost wss = key_widths(widths@);
    let ghost gws_spec = group_widths(wss, m);
    let n = groups.len();
    let gws = all_group_widths(widths, m, row_layout);
    let gg = m.group_gap as i64;
    let pad = m.padding as i64;
    let gh: i64 = m.key_height as i64 + 2 * m.group_padding as i64;
    let content_width: i64 = if n == 0 {
        if row_layout { 0 } else { 1 }
    } else if row_layout {
        row_width(&gws, m.group_gap)
    } else {
        widest(&gws)
    };
    let content_height: i64 = if row_layout {
        gh
    } else if n == 0 {
        0
    } else if gh + gg == 0 {
        proof {
            assert((n as int) * (gh + gg) == 0) by (nonlinear_arith)
                requires
                    gh + gg == 0,
            ;
        }
        0
    } else {
        proof {
            assert(wss.len() == n);
            assert(content_height_spec(n as int, m, row_layout) == (n as int) * (gh + gg) - gg);
            assert((n as int) * (gh + gg) <= 0x1_0000_0000);
            assert(n <= 0x1_0000_0000) by (nonlinear_arith)
                requires
                    (n as int) * (gh + gg) <= 0x1_0000_0000,
                    gh + gg >= 1,
            ;
            assert((n as int) * (gh + gg) >= 0) by (nonlinear_arith)
                requires
                    gh >= 0,
                    gg >= 0,
            ;
        }
        n as i64 * (gh + gg) - gg
    };
    proof {
        assert(wss.len() == n);
        assert(content_height == content_height_spec(n as int, m, row_layout));
        assert(content_width == content_width_spec(wss, m, row_layout));
    }
    let width = if content_width + 2 * pad < 1 { 1 } else { content_width + 2 * pad };
    let bm = m.bottom_margin as i64;
    let height = if content_height + 2 * pad + bm < 1 { 1 } else { content_height + 2 * pad + bm };
    let mut plans: Vec<GroupPlan> = Vec::new();
    let mut x: i64 = pad;
    let mut y: i64 = pad;
    let mut g: usize = 0;
    proof {
        assert(gws_spec.take(0) =~= Seq::<int>::empty());
        assert(0 * (gh + gg) == 0) by (nonlinear_arith);
    }
    while g < n
        invariant
            n == groups@.len() == widths@.len() == wss.len() == gws_spec.len() == gws@.len(),
            g <= n,
            wss == key_widths(widths@),
            gws_spec == group_widths(wss, m),
            widths_of(gws@) == gws_spec,
            forall|j: int| 0 <= j < groups@.len() ==> #[trigger] widths@[j]@.len() == groups@[j].keys@.len(),
            layout_sizes_ok(wss, m),
            layout_fits(wss, m, row_layout),
            gg == m.group_gap,
            pad == m.padding,
            gh == group_height_spec(m),
            row_layout ==> x == m.padding + advance(gws_spec.take(g as int), gg as int) && y == pad,
            !row_layout ==> x == pad && y == m.padding + g * (gh + gg),
            plans@.len() == g,
            forall|j: int|
                0 <= j < g ==> group_placed(
                    #[trigger] plans@[j],
                    wss[j],
                    pressed_of(groups@[j]),
                    m,
                    group_origin(wss, m, row_layout, j),
                ),
        decreases n - g,
    {
        proof {
            lemma_group_within_content(wss, m, row_layout, g as int);
            if !row_layout {
                lemma_stacked_group_within(n as int, g as int, gh as int, gg as int);
            }
            assert(wss[g as int] == widths@[g as int]@);
            assert forall|k: int| 0 <= k < widths@[g as int]@.len() implies #[trigger] widths@[g as int]@[k] >= 0 by {
                assert(wss[g as int][k] >= 0);
            }
            assert(gws_spec[g as int] == widths_of(gws@)[g as int]);
            assert(gws_spec[g as int] == group_width_spec(wss[g as int], m));
            assert(group_origin(wss, m, row_layout, g as int) == (x as int, y as int));
        }
        let gw = gws[g];
        let plan = place_group(&widths[g], &groups[g], m, (x as i32, y as i32), gw);
        plans.push(plan);
        if row_layout {
            proof {
                assert forall|j: int| 0 <= j < gws_spec.len() implies #[trigger] gws_spec[j] >= 0 by {
                    lemma_group_within_content(wss, m, row_layout, j);
                }
                lemma_advance_prefix(gws_spec, gg as int, g as int);
            }
            x = x + gw as i64 + gg;
        } else {
            proof {
                assert((g + 1) * (gh + gg) == g * (gh + gg) + gh + gg) by (nonlinear_arith);
            }
            y = y + gh + gg;
        }
        g += 1;
    }
    KeyLayoutPlan { groups: plans, width: width as i32, height: height as i32 }
}

/// The colors of a key style and its sizes in unscaled pixels; the
/// application scales each size to the monitor (at least 1 pixel).
#[derive(Clone, Copy, PartialEq, Eq, Structural, Debug)]
pub struct Palette {
    pub key: u32,
    pub text: u32,
    pub border: u32,
    pub shadow: u32,
    pub border_units: i32,
    /// The shadow's offset below the key; `None` draws no offset at all.
    pub shadow_units: Option<i32>,
    pub pressed_units: i32,
}

/// The colors of a raised style: the border takes the shadow's color.
pub open spec fn raised_palette(key: int, text: int, shadow: int) -> Palette {
    Palette {
        key: key as u32,
        text: text as u32,
        border: shadow as u32,
        shadow: shadow as u32,
        border_units: 1,
        shadow_units: Some(6),
        pressed_units: 4,
    }
}

/// The palette of a key style by name: `outline`, the raised styles
/// `raised`, `dark`, `retro`, `mint` and `rose`, and the default for any
/// other name.
pub open spec fn palette_spec(style: Seq<char>) -> Palette {
    if style == "outline"@ {
        Palette {
            key: colorref(255, 255, 255) as u32,
            text: colorref(36, 39, 43) as u32,
            border: colorref(48, 52, 58) as u32,
            shadow: crate::native_drawing::TRANSPARENT_KEY,
            border_units: 2,
            shadow_units: None,
            pressed_units: 2,
        }
    } else if style == "raised"@ {
        raised_palette(colorref(247, 249, 251), colorref(36, 39, 43), colorref(207, 213, 220))
    } else if style == "dark"@ {
        raised_palette(colorref(32, 40, 56), colorref(255, 255, 255), colorref(14, 20, 32))
    } else if style == "retro"@ {
        raised_palette(colorref(246, 232, 184), colorref(59, 52, 35), colorref(189, 152, 75))
    } else if style == "mint"@ {
        raised_palette(colorref(237, 255, 249), colorref(16, 63, 55), colorref(75, 200, 168))
    } else if style == "rose"@ {
        raised_palette(colorref(255, 242, 245), colorref(83, 34, 47), colorref(239, 134, 161))
    } else {
        Palette {
            key: colorref(255, 255, 255) as u32,
            text: colorref(32, 33, 36) as u32,
            border: colorref(226, 231, 238) as u32,
            shadow: colorref(224, 226, 230) as u32,
            border_units: 1,
            shadow_units: Some(3),
            pressed_units: 2,
        }
    }
}

/// The colors of a raised style.
fn raised(key: u32, text: u32, shadow: u32) -> (p: Palette)
    ensures
        p == raised_palette(key as int, text as int, shadow as int),
{
    Palette {
        key,
        text,
        border: shadow,
        shadow,
        border_units: 1,
        shadow_units: Some(6),
        pressed_units: 4,
    }
}

/// The palette of a key style by name (see `palette_spec`).
pub fn palette(style: &str) -> (p: Palette)
    ensures
        p == palette_spec(style@),
{
    if crate::text::str_eq(style, "outline") {
        Palette {
            key: rgb(255, 255, 255),
            text: rgb(36, 39, 43),
            border: rgb(48, 52, 58),
            shadow: crate::native_drawing::TRANSPARENT_KEY,
            border_units: 2,
            shadow_units: None,
            pressed_units: 2,
        }
    } else if crate::text::str_eq(style, "raised") {
        raised(rgb(247, 249, 251), rgb(36, 39, 43), rgb(207, 213, 220))
    } else if crate::text::str_eq(style, "dark") {
        raised(rgb(32, 40, 56), rgb(255, 255, 255), rgb(14, 20, 32))
    } else if crate::text::str_eq(style, "retro") {
        raised(rgb(246, 232, 184), rgb(59, 52, 35), rgb(189, 152, 75))
    } else if crate::text::str_eq(style, "mint") {
        raised(rgb(237, 255, 249), rgb(16, 63, 55), rgb(75, 200, 168))
    } else if crate::text::str_eq(style, "rose") {
        raised(rgb(255, 242, 245), rgb(83, 34, 47), rgb(239, 134, 161))
    } else {
        Palette {
            key: rgb(255, 255, 255),
            text: rgb(32, 33, 36),
            border: rgb(226, 231, 238),
            shadow: rgb(224, 226, 230),
            border_units: 1,
            shadow_units: Some(3),
            pressed_units: 2,
        }
    }
}

/// The named key styles.
pub open spec fn named_style(s: Seq<char>) -> bool {
    s == "outline"@ || s == "raised"@ || s == "dark"@ || s == "retro"@ || s == "mint"@ || s == "rose"@
}

/// Each named key style has a palette of its own: no two named styles,
/// and no named style and an unnamed one, share a palette.
pub proof fn each_style_has_its_own_palette(s1: Seq<char>, s2: Seq<char>)
    requires
        named_style(s1) || named_style(s2),
        s1 != s2,
    ensures
        palette_spec(s1) != palette_spec(s2),
{
    reveal_strlit("outline");
    reveal_strlit("raised");
    reveal_strlit("dark");
    reveal_strlit("retro");
    reveal_strlit("mint");
    reveal_strlit("rose");
}

} // verus!
