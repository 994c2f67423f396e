use vstd::prelude::*;

use crate::native_drawing::{
    clamp_int, number_radius, number_radius_spec, NativeTool, ERASER_WIDTH_MULTIPLIER,
};

verus! {

/// A cursor the system provides.
#[derive(Clone, Copy, PartialEq, Eq, Structural, Debug)]
pub enum SystemCursor {
    Arrow,
    IBeam,
    Cross,
}

/// The cursor drawn for a tool, if the tool has one of its own.
#[derive(Clone, Copy, PartialEq, Eq, Structural, Debug)]
pub enum DrawnCursor {
    Pen,
    Eraser,
    Number,
    Stamp,
}

/// The cursor drawn for a tool: the pen, the eraser, the numbering tool
/// and the stamps have their own.
pub open spec fn drawn_cursor_spec(tool: NativeTool) -> Option<DrawnCursor> {
    match tool {
        NativeTool::Pen => Some(DrawnCursor::Pen),
        NativeTool::Eraser => Some(DrawnCursor::Eraser),
        NativeTool::Number => Some(DrawnCursor::Number),
        NativeTool::CheckMark | NativeTool::CrossMark => Some(DrawnCursor::Stamp),
        _ => None,
    }
}

/// The cursor drawn for a tool (see `drawn_cursor_spec`).
pub fn drawn_cursor(tool: NativeTool) -> (c: Option<DrawnCursor>)
    ensures
        c == drawn_cursor_spec(tool),
{
    match tool {
        NativeTool::Pen => Some(DrawnCursor::Pen),
        NativeTool::Eraser => Some(DrawnCursor::Eraser),
        NativeTool::Number => Some(DrawnCursor::Number),
        NativeTool::CheckMark | NativeTool::CrossMark => Some(DrawnCursor::Stamp),
        _ => None,
    }
}

/// The system cursor for a tool when none is drawn (or drawing it
/// failed): the arrow for the pointer and selection tools, the text beam
/// for text, the cross for the rest.
pub fn system_cursor(tool: NativeTool) -> (c: SystemCursor)
    ensures
        c == match tool {
            NativeTool::Pointer | NativeTool::Select => SystemCursor::Arrow,
            NativeTool::Text => SystemCursor::IBeam,
            _ => SystemCursor::Cross,
        },
{
    match tool {
        NativeTool::Pointer | NativeTool::Select => SystemCursor::Arrow,
        NativeTool::Text => SystemCursor::IBeam,
        _ => SystemCursor::Cross,
    }
}

/// The eraser cursor's circle diameter, the cursor's size and its centre:
/// the eraser's width (its pen width, within 1..=15, times 12), kept
/// within 12..=180, with 10 pixels around it.
pub fn eraser_cursor_geometry(width: i32) -> (g: (i32, i32, i32))
    ensures
        g.0 == clamp_int(clamp_int(width as int, 1, 15) * ERASER_WIDTH_MULTIPLIER, 12, 180),
        g.1 == g.0 + 20,
        g.2 == g.1 / 2,
{
    let w = if width < 1 {
        1
    } else if width > 15 {
        15
    } else {
        width
    };
    let scaled = w * ERASER_WIDTH_MULTIPLIER;
    let diameter = if scaled < 12 {
        12
    } else if scaled > 180 {
        180
    } else {
        scaled
    };
    let size = diameter + 20;
    (diameter, size, size / 2)
}

/// The numbered-marker and stamp cursors' radius (that of the marker,
/// kept within 16..=44), the cursor's size and its centre.
pub fn marker_cursor_geometry(width: i32) -> (g: (i32, i32, i32))
    ensures
        g.0 == clamp_int(number_radius_spec(width as int), 16, 44),
        g.1 == g.0 * 2 + 8,
        g.2 == g.1 / 2,
{
    let r = number_radius(width);
    let radius = if r < 16 {
        16
    } else if r > 44 {
        44
    } else {
        r
    };
    let size = radius * 2 + 8;
    (radius, size, size / 2)
}

/// The font height of a marker's number: the radius for three digits or
/// more, else six fifths of it; at least 16.
pub open spec fn marker_font_size_spec(radius: int, digits: int) -> int {
    let size = if digits >= 3 { radius } else { radius * 6 / 5 };
    if size < 16 { 16 } else { size }
}

/// The font height of a marker's number (see `marker_font_size_spec`).
pub fn marker_font_size(radius: i32, digits: usize) -> (size: i32)
    requires
        0 <= radius <= 0x1000_0000,
    ensures
        size == marker_font_size_spec(radius as int, digits as int),
{
    let size = if digits >= 3 { radius } else { radius * 6 / 5 };
    if size < 16 {
        16
    } else {
        size
    }
}

/// The number of decimal digits of `value`.
pub open spec fn digit_count_spec(value: nat) -> nat
    decreases value,
{
    if value < 10 {
        1
    } else {
        1 + digit_count_spec(value / 10)
    }
}

/// The number of decimal digits of `value`.
pub fn digit_count(value: u32) -> (n: usize)
    ensures
        n == digit_count_spec(value as nat),
{
    proof {
        reveal_with_fuel(pow10, 11);
        lemma_digits_bound(value as nat, 10);
    }
    let mut v = value;
    let mut n: usize = 1;
    while v >= 10
        invariant
            n + digit_count_spec(v as nat) == digit_count_spec(value as nat) + 1,
            digit_count_spec(value as nat) <= 10,
        decreases v,
    {
        v = v / 10;
        n += 1;
    }
    n
}

/// `10` to the power `e`.
pub open spec fn pow10(e: nat) -> nat
    decreases e,
{
    if e == 0 { 1 } else { pow10((e - 1) as nat) * 10 }
}

/// A number below `10^k` has at most `k` digits (and always one).
proof fn lemma_digits_bound(x: nat, k: nat)
    requires
        x < pow10(k),
        k >= 1,
    ensures
        digit_count_spec(x) <= k,
    decreases x,
{
    if x >= 10 {
        assert(k >= 2) by {
            if k == 1 {
                assert(pow10(1) == 10) by {
                    reveal_with_fuel(pow10, 2);
                }
            }
        }
        assert(x / 10 < pow10((k - 1) as nat)) by (nonlinear_arith)
            requires
                x < pow10(k),
                pow10(k) == pow10((k - 1) as nat) * 10,
        ;
        lemma_digits_bound(x / 10, (k - 1) as nat);
    }
}

/// The pen width of a stamp cursor's lines: the tool width within 2..=15.
pub fn stamp_pen_width(width: i32) -> (w: i32)
    ensures
        w == clamp_int(width as int, 2, 15),
{
    if width < 2 {
        2
    } else if width > 15 {
        15
    } else {
        width
    }
}

/// The overlay's tool cursor and the cursors it replaced that are still to
/// be destroyed. Cursors are handles; 0 is no cursor.
pub struct CursorSlot {
    pub current: isize,
    pub owned: bool,
    pub retired: Vec<isize>,
}

/// The retired cursors that are destroyed when the list is emptied: all
/// but the null handle and the cursor in use.
pub open spec fn doomed(retired: Seq<isize>, current: isize) -> Seq<isize> {
    retired.filter(|c: isize| c != 0 && c != current)
}

/// The retired list after a new cursor replaced `previous`: a previous
/// cursor that the overlay made, and that is another cursor, waits to be
/// destroyed.
pub open spec fn retire(retired: Seq<isize>, previous: isize, previous_owned: bool, new: isize) -> Seq<isize> {
    if previous_owned && previous != 0 && previous != new {
        retired.push(previous)
    } else {
        retired
    }
}

impl CursorSlot {
    /// No cursor yet.
    pub fn new() -> (s: Self)
        ensures
            s.current == 0,
            !s.owned,
            s.retired@ == Seq::<isize>::empty(),
    {
        CursorSlot { current: 0, owned: false, retired: Vec::new() }
    }

    /// Empties the retired list and gives the cursors to destroy (see
    /// `doomed`).
    pub fn take_retired(&mut self) -> (destroy: Vec<isize>)
        ensures
            destroy@ == doomed(old(self).retired@, old(self).current),
            final(self).retired@ == Seq::<isize>::empty(),
            final(self).current == old(self).current,
            final(self).owned == old(self).owned,
    {
        let mut destroy: Vec<isize> = Vec::new();
        let mut i: usize = 0;
        let ghost r = self.retired@;
        let ghost cur = self.current;
        while i < self.retired.len()
            invariant
                i <= r.len(),
                self.retired@ == r,
                self.current == cur,
                destroy@ == doomed(r.take(i as int), cur),
            decreases r.len() - i,
        {
            let c = self.retired[i];
            proof {
                assert(r.take(i + 1).drop_last() =~= r.take(i as int));
                assert(r.take(i + 1).last() == c);
                reveal(Seq::filter);
            }
            if c != 0 && c != self.current {
                destroy.push(c);
            }
            i += 1;
        }
        proof {
            assert(r.take(r.len() as int) =~= r);
        }
        self.retired = Vec::new();
        destroy
    }

    /// Puts a new tool cursor in place. A null cursor changes nothing. The
    /// replaced one is retired (see `retire`); when the cursor is applied
    /// at once (`apply`), the retired list is emptied and its cursors to
    /// destroy are given.
    pub fn replace(&mut self, cursor: isize, owned: bool, apply: bool) -> (destroy: Vec<isize>)
        ensures
            cursor == 0 ==> *final(self) == *old(self) && destroy@ == Seq::<isize>::empty(),
            cursor != 0 ==> {
                let r = retire(old(self).retired@, old(self).current, old(self).owned, cursor);
                &&& final(self).current == cursor
                &&& final(self).owned == owned
                &&& apply ==> final(self).retired@ == Seq::<isize>::empty() && destroy@ == doomed(r, cursor)
                &&& !apply ==> final(self).retired@ == r && destroy@ == Seq::<isize>::empty()
            },
    {
        if cursor == 0 {
            return Vec::new();
        }
        let previous = self.current;
        let previous_owned = self.owned;
        self.current = cursor;
        self.owned = owned;
        if previous_owned && previous != 0 && previous != cursor {
            self.retired.push(previous);
        }
        if apply {
            self.take_retired()
        } else {
            Vec::new()
        }
    }
}

/// The cursor in use, and the null handle, are never among the cursors to
/// destroy.
pub proof fn doomed_spares_current(retired: Seq<isize>, current: isize)
    ensures
        !doomed(retired, current).contains(current),
        !doomed(retired, current).contains(0),
{
    broadcast use vstd::seq_lib::group_filter_ensures;

    let d = doomed(retired, current);
    if d.contains(current) {
        let k = choose|k: int| 0 <= k < d.len() && d[k] == current;
        assert(d[k] != current);
    }
    if d.contains(0) {
        let k = choose|k: int| 0 <= k < d.len() && d[k] == 0;
        assert(d[k] != 0);
    }
}

} // verus!
