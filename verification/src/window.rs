use vstd::prelude::*;

use crate::native_drawing::Rect;
use crate::text::str_eq;
use vstd::string::StringExecFns;

verus! {

/// Where the key overlay sits on its monitor.
#[derive(Clone, Copy, PartialEq, Eq, Structural, Debug)]
pub enum OverlayAlignment {
    TopLeft,
    TopCenter,
    TopRight,
    CenterLeft,
    Center,
    CenterRight,
    BottomLeft,
    BottomCenter,
    BottomRight,
}

/// Where a window sits along one axis of its monitor.
#[derive(Clone, Copy, PartialEq, Eq, Structural, Debug)]
pub enum Anchor {
    /// At the margin from the left (or top) edge.
    Start,
    /// Centred.
    Middle,
    /// At the margin from the right (or bottom) edge.
    End,
}

/// The horizontal anchor of an alignment.
pub open spec fn horizontal_anchor_spec(a: OverlayAlignment) -> Anchor {
    match a {
        OverlayAlignment::TopLeft | OverlayAlignment::CenterLeft | OverlayAlignment::BottomLeft => Anchor::Start,
        OverlayAlignment::TopCenter | OverlayAlignment::Center | OverlayAlignment::BottomCenter => Anchor::Middle,
        _ => Anchor::End,
    }
}

/// The vertical anchor of an alignment.
pub open spec fn vertical_anchor_spec(a: OverlayAlignment) -> Anchor {
    match a {
        OverlayAlignment::TopLeft | OverlayAlignment::TopCenter | OverlayAlignment::TopRight => Anchor::Start,
        OverlayAlignment::CenterLeft | OverlayAlignment::Center | OverlayAlignment::CenterRight => Anchor::Middle,
        _ => Anchor::End,
    }
}

/// The horizontal and vertical anchors of an alignment.
pub fn alignment_anchors(a: OverlayAlignment) -> (r: (Anchor, Anchor))
    ensures
        r == (horizontal_anchor_spec(a), vertical_anchor_spec(a)),
{
    match a {
        OverlayAlignment::TopLeft => (Anchor::Start, Anchor::Start),
        OverlayAlignment::TopCenter => (Anchor::Middle, Anchor::Start),
        OverlayAlignment::TopRight => (Anchor::End, Anchor::Start),
        OverlayAlignment::CenterLeft => (Anchor::Start, Anchor::Middle),
        OverlayAlignment::Center => (Anchor::Middle, Anchor::Middle),
        OverlayAlignment::CenterRight => (Anchor::End, Anchor::Middle),
        OverlayAlignment::BottomLeft => (Anchor::Start, Anchor::End),
        OverlayAlignment::BottomCenter => (Anchor::Middle, Anchor::End),
        OverlayAlignment::BottomRight => (Anchor::End, Anchor::End),
    }
}

/// The anchors that the key overlay reads from its alignment text: the
/// three `-left` names anchor at the left and the three `-right` names at
/// the right, anything else is centred; the three `top-` names anchor at
/// the top and `center-left`, `center`, `center-right` in the middle,
/// anything else at the bottom.
pub open spec fn key_anchors_spec(name: Seq<char>) -> (Anchor, Anchor) {
    let h = if name == "top-left"@ || name == "center-left"@ || name == "bottom-left"@ {
        Anchor::Start
    } else if name == "top-right"@ || name == "center-right"@ || name == "bottom-right"@ {
        Anchor::End
    } else {
        Anchor::Middle
    };
    let v = if name == "top-left"@ || name == "top-center"@ || name == "top-right"@ {
        Anchor::Start
    } else if name == "center-left"@ || name == "center"@ || name == "center-right"@ {
        Anchor::Middle
    } else {
        Anchor::End
    };
    (h, v)
}

/// The anchors of the key overlay's alignment text (see `key_anchors_spec`).
pub fn key_anchors(alignment: &str) -> (r: (Anchor, Anchor))
    ensures
        r == key_anchors_spec(alignment@),
{
    let h = if str_eq(alignment, "top-left") || str_eq(alignment, "center-left") || str_eq(
        alignment,
        "bottom-left",
    ) {
        Anchor::Start
    } else if str_eq(alignment, "top-right") || str_eq(alignment, "center-right") || str_eq(
        alignment,
        "bottom-right",
    ) {
        Anchor::End
    } else {
        Anchor::Middle
    };
    let v = if str_eq(alignment, "top-left") || str_eq(alignment, "top-center") || str_eq(
        alignment,
        "top-right",
    ) {
        Anchor::Start
    } else if str_eq(alignment, "center-left") || str_eq(alignment, "center") || str_eq(
        alignment,
        "center-right",
    ) {
        Anchor::Middle
    } else {
        Anchor::End
    };
    (h, v)
}

/// `n / 2` rounded toward zero, as integer division does.
pub open spec fn half_toward_zero(n: int) -> int {
    if n >= 0 { n / 2 } else { -((-n) / 2) }
}

/// The offset of a window of length `size` within a monitor length
/// `extent` with margin `margin`.
pub open spec fn anchor_offset(anchor: Anchor, extent: int, size: int, margin: int) -> int {
    match anchor {
        Anchor::Start => margin,
        Anchor::Middle => half_toward_zero(extent - size),
        Anchor::End => extent - size - margin,
    }
}

/// Whether the offsets of every anchor fit in `i32`.
pub open spec fn offsets_fit(extent: int, size: int, margin: int) -> bool {
    &&& i32::MIN <= extent - size <= i32::MAX
    &&& i32::MIN <= extent - size - margin <= i32::MAX
}

/// The offset of a window along one axis of its monitor.
pub fn anchored_offset(anchor: Anchor, extent: i32, size: i32, margin: i32) -> (off: i32)
    requires
        offsets_fit(extent as int, size as int, margin as int),
    ensures
        off == anchor_offset(anchor, extent as int, size as int, margin as int),
{
    match anchor {
        Anchor::Start => margin,
        Anchor::Middle => (extent - size) / 2,
        Anchor::End => extent - size - margin,
    }
}

/// The screen position of a window placed on a monitor: its offsets along
/// both axes, raised to 0 when negative, from the monitor's origin.
pub open spec fn placed_position(
    anchors: (Anchor, Anchor),
    origin: (int, int),
    extent: (int, int),
    size: (int, int),
    margin: (int, int),
) -> (int, int) {
    let h = anchor_offset(anchors.0, extent.0, size.0, margin.0);
    let v = anchor_offset(anchors.1, extent.1, size.1, margin.1);
    (origin.0 + if h > 0 { h } else { 0 }, origin.1 + if v > 0 { v } else { 0 })
}

/// Places a window of `size` on the monitor at `origin` with `extent`,
/// keeping `margin` from the edges it is anchored to (see
/// `placed_position`).
pub fn place_window(
    anchors: (Anchor, Anchor),
    origin: (i32, i32),
    extent: (i32, i32),
    size: (i32, i32),
    margin: (i32, i32),
) -> (p: (i32, i32))
    requires
        offsets_fit(extent.0 as int, size.0 as int, margin.0 as int),
        offsets_fit(extent.1 as int, size.1 as int, margin.1 as int),
        ({
            let q = placed_position(
                anchors,
                (origin.0 as int, origin.1 as int),
                (extent.0 as int, extent.1 as int),
                (size.0 as int, size.1 as int),
                (margin.0 as int, margin.1 as int),
            );
            i32::MIN <= q.0 <= i32::MAX && i32::MIN <= q.1 <= i32::MAX
        }),
    ensures
        (p.0 as int, p.1 as int) == placed_position(
            anchors,
            (origin.0 as int, origin.1 as int),
            (extent.0 as int, extent.1 as int),
            (size.0 as int, size.1 as int),
            (margin.0 as int, margin.1 as int),
        ),
{
    let h = anchored_offset(anchors.0, extent.0, size.0, margin.0);
    let v = anchored_offset(anchors.1, extent.1, size.1, margin.1);
    let x = origin.0 + if h > 0 { h } else { 0 };
    let y = origin.1 + if v > 0 { v } else { 0 };
    (x, y)
}

/// The offset of a window along one axis, as wide integers.
fn anchored_offset_wide(anchor: Anchor, extent: i32, size: i32, margin: i32) -> (off: i64)
    ensures
        off == anchor_offset(anchor, extent as int, size as int, margin as int),
{
    let free = extent as i64 - size as i64;
    match anchor {
        Anchor::Start => margin as i64,
        Anchor::Middle => free / 2,
        Anchor::End => free - margin as i64,
    }
}

/// Places a window as `place_window` does, or gives `None` when an offset
/// or the position does not fit in `i32`.
pub fn place_window_checked(
    anchors: (Anchor, Anchor),
    origin: (i32, i32),
    extent: (i32, i32),
    size: (i32, i32),
    margin: (i32, i32),
) -> (p: Option<(i32, i32)>)
    ensures
        ({
            let q = placed_position(
                anchors,
                (origin.0 as int, origin.1 as int),
                (extent.0 as int, extent.1 as int),
                (size.0 as int, size.1 as int),
                (margin.0 as int, margin.1 as int),
            );
            let ok = offsets_fit(extent.0 as int, size.0 as int, margin.0 as int) && offsets_fit(
                extent.1 as int,
                size.1 as int,
                margin.1 as int,
            ) && i32::MIN <= q.0 <= i32::MAX && i32::MIN <= q.1 <= i32::MAX;
            &&& p is None <==> !ok
            &&& p matches Some(r) ==> (r.0 as int, r.1 as int) == q
        }),
{
    let fits = |extent: i32, size: i32, margin: i32| -> (ok: bool)
        ensures
            ok == offsets_fit(extent as int, size as int, margin as int),
        {
            let free = extent as i64 - size as i64;
            let last = free - margin as i64;
            i32::MIN as i64 <= free && free <= i32::MAX as i64 && i32::MIN as i64 <= last && last
                <= i32::MAX as i64
        };
    if !fits(extent.0, size.0, margin.0) || !fits(extent.1, size.1, margin.1) {
        return None;
    }
    let h = anchored_offset_wide(anchors.0, extent.0, size.0, margin.0);
    let v = anchored_offset_wide(anchors.1, extent.1, size.1, margin.1);
    let x = origin.0 as i64 + if h > 0 { h } else { 0 };
    let y = origin.1 as i64 + if v > 0 { v } else { 0 };
    if x < i32::MIN as i64 || x > i32::MAX as i64 || y < i32::MIN as i64 || y > i32::MAX as i64 {
        return None;
    }
    Some((x as i32, y as i32))
}

/// A monitor: its origin on the virtual screen and its size.
#[derive(Clone, Copy, PartialEq, Eq, Structural, Debug)]
pub struct MonitorArea {
    pub x: i32,
    pub y: i32,
    pub width: u32,
    pub height: u32,
}

/// The right edge of a monitor (its width read as `i32`, as the windowing
/// code does).
pub open spec fn right_edge(m: MonitorArea) -> int {
    m.x + (m.width as i32)
}

/// The bottom edge of a monitor.
pub open spec fn bottom_edge(m: MonitorArea) -> int {
    m.y + (m.height as i32)
}

/// Whether the right and bottom edges of every monitor fit in `i32`.
pub open spec fn edges_fit(ms: Seq<MonitorArea>) -> bool {
    forall|i: int|
        0 <= i < ms.len() ==> i32::MIN <= right_edge(#[trigger] ms[i]) <= i32::MAX && i32::MIN
            <= bottom_edge(ms[i]) <= i32::MAX
}

/// The smallest of `f` over the monitors, `dflt` when there are none.
pub open spec fn min_over(ms: Seq<MonitorArea>, f: spec_fn(MonitorArea) -> int, dflt: int) -> int
    decreases ms.len(),
{
    if ms.len() == 0 {
        dflt
    } else if ms.len() == 1 {
        f(ms[0])
    } else {
        let rest = min_over(ms.drop_last(), f, dflt);
        if f(ms.last()) < rest { f(ms.last()) } else { rest }
    }
}

/// The largest of `f` over the monitors, `dflt` when there are none.
pub open spec fn max_over(ms: Seq<MonitorArea>, f: spec_fn(MonitorArea) -> int, dflt: int) -> int
    decreases ms.len(),
{
    if ms.len() == 0 {
        dflt
    } else if ms.len() == 1 {
        f(ms[0])
    } else {
        let rest = max_over(ms.drop_last(), f, dflt);
        if f(ms.last()) > rest { f(ms.last()) } else { rest }
    }
}

/// The rectangle that covers all monitors: the smallest left and top
/// edges and the largest right and bottom edges; with no monitor, the
/// rectangle from (0, 0) to (1, 1).
pub open spec fn monitors_union_spec(ms: Seq<MonitorArea>) -> (int, int, int, int) {
    (
        min_over(ms, |m: MonitorArea| m.x as int, 0),
        min_over(ms, |m: MonitorArea| m.y as int, 0),
        max_over(ms, |m: MonitorArea| right_edge(m), 1),
        max_over(ms, |m: MonitorArea| bottom_edge(m), 1),
    )
}

/// The rectangle that covers all monitors (see `monitors_union_spec`).
pub fn monitors_union(monitors: &Vec<MonitorArea>) -> (r: Rect)
    requires
        edges_fit(monitors@),
    ensures
        (r.left as int, r.top as int, r.right as int, r.bottom as int) == monitors_union_spec(monitors@),
{
    let ghost fx = |m: MonitorArea| m.x as int;
    let ghost fy = |m: MonitorArea| m.y as int;
    let ghost fr = |m: MonitorArea| right_edge(m);
    let ghost fb = |m: MonitorArea| bottom_edge(m);
    if monitors.len() == 0 {
        return Rect { left: 0, top: 0, right: 1, bottom: 1 };
    }
    let first = monitors[0];
    let mut left = first.x;
    let mut top = first.y;
    let mut right = first.x + first.width as i32;
    let mut bottom = first.y + first.height as i32;
    let mut i: usize = 1;
    proof {
        assert(monitors@.take(1).len() == 1);
        assert(monitors@.take(1)[0] == first);
    }
    while i < monitors.len()
        invariant
            1 <= i <= monitors@.len(),
            edges_fit(monitors@),
            fx == (|m: MonitorArea| m.x as int),
            fy == (|m: MonitorArea| m.y as int),
            fr == (|m: MonitorArea| right_edge(m)),
            fb == (|m: MonitorArea| bottom_edge(m)),
            left == min_over(monitors@.take(i as int), fx, 0),
            top == min_over(monitors@.take(i as int), fy, 0),
            right == max_over(monitors@.take(i as int), fr, 1),
            bottom == max_over(monitors@.take(i as int), fb, 1),
        decreases monitors@.len() - i,
    {
        let m = monitors[i];
        proof {
            let t = monitors@.take(i + 1);
            assert(t.drop_last() =~= monitors@.take(i as int));
            assert(t.last() == m);
            assert(monitors@[i as int] == m);
        }
        let r = m.x + m.width as i32;
        let b = m.y + m.height as i32;
        if m.x < left {
            left = m.x;
        }
        if m.y < top {
            top = m.y;
        }
        if r > right {
            right = r;
        }
        if b > bottom {
            bottom = b;
        }
        i += 1;
    }
    proof {
        assert(monitors@.take(monitors@.len() as int) =~= monitors@);
    }
    Rect { left, top, right, bottom }
}

/// Width of the drawing toolbar's slot on the primary monitor.
pub const TOOLBAR_SLOT_WIDTH: i32 = 64;

/// Gap between the toolbar and the monitor's edges.
pub const TOOLBAR_EDGE_GAP: i32 = 8;

/// The toolbar's place on the primary monitor: 8 pixels from its right
/// edge (in a slot 64 wide) and from its top; its height is the monitor's
/// height less 16, at most 820.
pub open spec fn toolbar_spot_spec(m: MonitorArea) -> (int, int, int) {
    (
        m.x + (m.width as i32) - TOOLBAR_SLOT_WIDTH - TOOLBAR_EDGE_GAP,
        m.y + TOOLBAR_EDGE_GAP,
        if m.height < 16 {
            0
        } else if m.height - 16 > 820 {
            820
        } else {
            m.height - 16
        },
    )
}

/// The toolbar's place on the primary monitor (see `toolbar_spot_spec`).
pub fn toolbar_spot(primary: MonitorArea) -> (r: (i32, i32, u32))
    requires
        i32::MIN <= right_edge(primary) - TOOLBAR_SLOT_WIDTH - TOOLBAR_EDGE_GAP,
        i32::MIN <= right_edge(primary) <= i32::MAX,
        primary.y + TOOLBAR_EDGE_GAP <= i32::MAX,
    ensures
        (r.0 as int, r.1 as int, r.2 as int) == toolbar_spot_spec(primary),
{
    let height = primary.height.saturating_sub(16);
    let height = if height > 820 { 820 } else { height };
    (
        primary.x + primary.width as i32 - TOOLBAR_SLOT_WIDTH - TOOLBAR_EDGE_GAP,
        primary.y + TOOLBAR_EDGE_GAP,
        height,
    )
}

/// The margin around the toolbar where the drawing overlay lets input
/// through.
pub const TOOLBAR_PASSTHROUGH_PADDING: i32 = 12;

/// The area around the toolbar window where the overlay lets input
/// through: the window's rectangle widened by 12 on every side.
pub fn toolbar_passthrough_area(window: Rect) -> (r: Rect)
    requires
        i32::MIN <= window.left - TOOLBAR_PASSTHROUGH_PADDING,
        i32::MIN <= window.top - TOOLBAR_PASSTHROUGH_PADDING,
        window.right + TOOLBAR_PASSTHROUGH_PADDING <= i32::MAX,
        window.bottom + TOOLBAR_PASSTHROUGH_PADDING <= i32::MAX,
    ensures
        r == (Rect {
            left: (window.left - 12) as i32,
            top: (window.top - 12) as i32,
            right: (window.right + 12) as i32,
            bottom: (window.bottom + 12) as i32,
        }),
{
    Rect {
        left: window.left - TOOLBAR_PASSTHROUGH_PADDING,
        top: window.top - TOOLBAR_PASSTHROUGH_PADDING,
        right: window.right + TOOLBAR_PASSTHROUGH_PADDING,
        bottom: window.bottom + TOOLBAR_PASSTHROUGH_PADDING,
    }
}

/// The character of a decimal digit.
pub open spec fn digit_char(d: int) -> char {
    (48 + d) as char
}

/// The decimal digits of a natural number, most significant first.
pub open spec fn decimal_digits(n: nat) -> Seq<char>
    decreases n,
{
    if n < 10 {
        seq![digit_char(n as int)]
    } else {
        decimal_digits(n / 10).push(digit_char((n % 10) as int))
    }
}

/// An integer written in decimal, with a leading `-` when negative.
pub open spec fn decimal_text(v: int) -> Seq<char> {
    if v < 0 {
        seq!['-'] + decimal_digits((-v) as nat)
    } else {
        decimal_digits(v as nat)
    }
}

/// The text of one decimal digit.
fn digit_text(d: u32) -> (t: &'static str)
    requires
        d < 10,
    ensures
        t@ == seq![digit_char(d as int)],
{
    proof {
        reveal_strlit("0");
        reveal_strlit("1");
        reveal_strlit("2");
        reveal_strlit("3");
        reveal_strlit("4");
        reveal_strlit("5");
        reveal_strlit("6");
        reveal_strlit("7");
        reveal_strlit("8");
        reveal_strlit("9");
    }
    if d == 0 {
        "0"
    } else if d == 1 {
        "1"
    } else if d == 2 {
        "2"
    } else if d == 3 {
        "3"
    } else if d == 4 {
        "4"
    } else if d == 5 {
        "5"
    } else if d == 6 {
        "6"
    } else if d == 7 {
        "7"
    } else if d == 8 {
        "8"
    } else {
        "9"
    }
}

/// Appends the decimal digits of `n`.
fn append_digits(s: &mut String, n: u32)
    ensures
        final(s)@ == old(s)@ + decimal_digits(n as nat),
    decreases n,
{
    if n >= 10 {
        append_digits(s, n / 10);
    }
    s.append(digit_text(n % 10));
    proof {
        assert(s@ =~= old(s)@ + decimal_digits(n as nat));
    }
}

/// Appends an integer in decimal.
fn append_decimal(s: &mut String, v: i32)
    ensures
        final(s)@ == old(s)@ + decimal_text(v as int),
{
    if v < 0 {
        proof {
            reveal_strlit("-");
        }
        s.append("-");
        let magnitude: u32 = (-(v as i64)) as u32;
        append_digits(s, magnitude);
        proof {
            assert(s@ =~= old(s)@ + decimal_text(v as int));
        }
    } else {
        append_digits(s, v as u32);
    }
}

/// How a monitor is recognised between runs: by its name, or by its
/// position as `position:x,y` when it has none.
pub open spec fn monitor_identifier_spec(name: Option<Seq<char>>, x: int, y: int) -> Seq<char> {
    match name {
        Some(n) => n,
        None => "position:"@ + decimal_text(x) + seq![','] + decimal_text(y),
    }
}

/// How a monitor is recognised between runs (see
/// `monitor_identifier_spec`).
pub fn monitor_identifier(name: Option<String>, x: i32, y: i32) -> (id: String)
    ensures
        id@ == monitor_identifier_spec(
            match name {
                Some(n) => Some(n@),
                None => None,
            },
            x as int,
            y as int,
        ),
{
    match name {
        Some(n) => n,
        None => {
            let mut id = String::from_str("position:");
            append_decimal(&mut id, x);
            proof {
                reveal_strlit(",");
            }
            id.append(",");
            append_decimal(&mut id, y);
            proof {
                assert(id@ =~= "position:"@ + decimal_text(x as int) + seq![','] + decimal_text(y as int));
            }
            id
        },
    }
}

/// Which monitor shows the key overlay.
#[derive(Clone, Copy, PartialEq, Eq, Structural, Debug)]
pub enum MonitorChoice {
    /// The monitor at this index of the list.
    Listed(usize),
    /// The primary monitor.
    Primary,
    /// No monitor is available.
    Missing,
}

/// The first monitor whose identifier is the one chosen, if any.
pub open spec fn first_named(ids: Seq<Seq<char>>, selector: Seq<char>) -> Option<int>
    decreases ids.len(),
{
    if ids.len() == 0 {
        None
    } else {
        match first_named(ids.drop_last(), selector) {
            Some(i) => Some(i),
            None => if ids.last() == selector {
                Some(ids.len() - 1)
            } else {
                None
            },
        }
    }
}

/// The monitor for the key overlay: the one with the chosen identifier,
/// else the primary monitor when there is one, else the first listed.
pub open spec fn choose_monitor_spec(ids: Seq<Seq<char>>, selector: Seq<char>, has_primary: bool) -> MonitorChoice {
    match first_named(ids, selector) {
        Some(i) => MonitorChoice::Listed(i as usize),
        None => if has_primary {
            MonitorChoice::Primary
        } else if ids.len() > 0 {
            MonitorChoice::Listed(0)
        } else {
            MonitorChoice::Missing
        },
    }
}

/// A hit in a prefix is the first hit of the whole list.
proof fn lemma_first_named_prefix(ids: Seq<Seq<char>>, selector: Seq<char>, k: int)
    requires
        0 < k <= ids.len(),
        first_named(ids.take(k), selector) is Some,
    ensures
        first_named(ids, selector) == first_named(ids.take(k), selector),
    decreases ids.len() - k,
{
    if k < ids.len() {
        assert(ids.take(k + 1).drop_last() =~= ids.take(k));
        lemma_first_named_prefix(ids, selector, k + 1);
    } else {
        assert(ids.take(k) =~= ids);
    }
}

/// The monitor for the key overlay (see `choose_monitor_spec`).
pub fn choose_monitor(ids: &Vec<String>, selector: &str, has_primary: bool) -> (c: MonitorChoice)
    ensures
        c == choose_monitor_spec(crate::event::names(ids@), selector@, has_primary),
{
    let ghost names = crate::event::names(ids@);
    let mut i: usize = 0;
    while i < ids.len()
        invariant
            i <= ids@.len(),
            names == crate::event::names(ids@),
            first_named(names.take(i as int), selector@) is None,
        decreases ids@.len() - i,
    {
        proof {
            assert(names.take(i + 1).drop_last() =~= names.take(i as int));
            assert(names.take(i + 1).last() == ids@[i as int]@);
        }
        if str_eq(ids[i].as_str(), selector) {
            proof {
                lemma_first_named_prefix(names, selector@, i + 1);
            }
            return MonitorChoice::Listed(i);
        }
        i += 1;
    }
    proof {
        assert(names.take(ids@.len() as int) =~= names);
    }
    if has_primary {
        MonitorChoice::Primary
    } else if ids.len() > 0 {
        MonitorChoice::Listed(0)
    } else {
        MonitorChoice::Missing
    }
}

/// The kebab-case name of an alignment, as the key overlay's settings
/// write it.
pub open spec fn alignment_name(a: OverlayAlignment) -> Seq<char> {
    match a {
        OverlayAlignment::TopLeft => "top-left"@,
        OverlayAlignment::TopCenter => "top-center"@,
        OverlayAlignment::TopRight => "top-right"@,
        OverlayAlignment::CenterLeft => "center-left"@,
        OverlayAlignment::Center => "center"@,
        OverlayAlignment::CenterRight => "center-right"@,
        OverlayAlignment::BottomLeft => "bottom-left"@,
        OverlayAlignment::BottomCenter => "bottom-center"@,
        OverlayAlignment::BottomRight => "bottom-right"@,
    }
}

/// The key overlay reads each of the nine alignment names as the
/// alignment it names: the `-left` names anchor at the left, the `-right`
/// names at the right, the `top-` names at the top, and so on.
pub proof fn alignment_names_read_as_their_alignment(a: OverlayAlignment)
    ensures
        key_anchors_spec(alignment_name(a)) == (horizontal_anchor_spec(a), vertical_anchor_spec(a)),
{
    reveal_strlit("top-left");
    reveal_strlit("top-center");
    reveal_strlit("top-right");
    reveal_strlit("center-left");
    reveal_strlit("center");
    reveal_strlit("center-right");
    reveal_strlit("bottom-left");
    reveal_strlit("bottom-center");
    reveal_strlit("bottom-right");
    let n = alignment_name(a);
    assert(n.len() != 8 ==> n != "top-left"@);
    assert(n.len() != 10 ==> n != "top-center"@);
    assert(n.len() != 9 ==> n != "top-right"@);
    assert(n.len() != 6 ==> n != "center"@);
    assert(n.len() != 13 ==> n != "bottom-center"@);
    assert(n.len() != 11 || n[0] != 'c' ==> n != "center-left"@);
    assert(n.len() != 11 || n[0] != 'b' ==> n != "bottom-left"@);
    assert(n.len() != 12 || n[0] != 'c' ==> n != "center-right"@);
    assert(n.len() != 12 || n[0] != 'b' ==> n != "bottom-right"@);
}

} // verus!
