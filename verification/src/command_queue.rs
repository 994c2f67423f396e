use std::collections::VecDeque;

use vstd::prelude::*;

use crate::native_drawing::{rect_contains, NativeTool, Point, Rect};

verus! {

/// A request to the drawing overlay's window thread.
pub enum DrawingCommand {
    Show { monitors: Vec<Rect>, toolbar_passthrough: Option<Rect> },
    Hide,
    SetTool(NativeTool),
    SetColor(String),
    SetWidth(i32),
    Clear,
    Undo,
    ToggleGroup,
    DeleteSelectionOrClear,
    SetClickThrough(bool),
    SetToolbarPassthrough(Option<Rect>),
    Focus,
    Raise,
    PointerDown { x: i32, y: i32 },
    PointerMove { x: i32, y: i32 },
    PointerUp { x: i32, y: i32 },
    Resize { monitors: Vec<Rect> },
}

/// Whether the command is a pointer move.
pub open spec fn is_pointer_move(c: DrawingCommand) -> bool {
    c is PointerMove
}

/// The queue after a command joins it: a pointer move replaces a pointer
/// move waiting at the back, so that only the latest position is handled.
pub open spec fn queued(q: Seq<DrawingCommand>, c: DrawingCommand) -> Seq<DrawingCommand> {
    if is_pointer_move(c) && q.len() > 0 && is_pointer_move(q.last()) {
        q.drop_last().push(c)
    } else {
        q.push(c)
    }
}

/// Adds a command to the queue (see `queued`).
pub fn queue_drawing_command(queue: &mut VecDeque<DrawingCommand>, command: DrawingCommand)
    ensures
        final(queue)@ == queued(old(queue)@, command),
{
    let n = queue.len();
    let is_move = matches!(command, DrawingCommand::PointerMove { .. });
    if is_move && n > 0 && matches!(queue[n - 1], DrawingCommand::PointerMove { .. }) {
        let _ = queue.pop_back();
    }
    queue.push_back(command);
}

/// No two pointer moves wait next to each other.
pub open spec fn moves_apart(q: Seq<DrawingCommand>) -> bool {
    forall|i: int| 0 <= i < q.len() - 1 ==> !(is_pointer_move(#[trigger] q[i]) && is_pointer_move(q[i + 1]))
}

/// Queueing keeps pointer moves apart, and the command just queued is the
/// last one waiting.
pub proof fn queue_keeps_moves_apart(q: Seq<DrawingCommand>, c: DrawingCommand)
    requires
        moves_apart(q),
    ensures
        moves_apart(queued(q, c)),
        queued(q, c).last() == c,
        queued(q, c).len() >= 1,
{
    let r = queued(q, c);
    assert forall|i: int| 0 <= i < r.len() - 1 implies !(is_pointer_move(#[trigger] r[i])
        && is_pointer_move(r[i + 1])) by {
        if is_pointer_move(c) && q.len() > 0 && is_pointer_move(q.last()) {
            assert(r[i] == q[i]);
            if i + 1 < r.len() - 1 {
                assert(r[i + 1] == q[i + 1]);
            } else {
                if i >= 1 {
                    assert(r[i] == q[i]);
                    assert(!(is_pointer_move(q[i - 1]) && is_pointer_move(q[i])));
                }
                if is_pointer_move(r[i]) && i + 1 == r.len() - 1 {
                    assert(q[i] == r[i]);
                    assert(i == q.len() - 2);
                    assert(!(is_pointer_move(q[i]) && is_pointer_move(q[i + 1])));
                }
            }
        } else {
            assert(r[i] == q[i]);
            if i + 1 < q.len() {
                assert(r[i + 1] == q[i + 1]);
            }
        }
    }
}

/// Whether the overlay's surfaces already cover exactly these monitors, in
/// order.
pub fn surface_layout_matches(surfaces: &Vec<Rect>, monitors: &Vec<Rect>) -> (res: bool)
    ensures
        res == (surfaces@ == monitors@),
{
    if surfaces.len() != monitors.len() {
        return false;
    }
    let mut i: usize = 0;
    while i < surfaces.len()
        invariant
            i <= surfaces@.len() == monitors@.len(),
            forall|k: int| 0 <= k < i ==> surfaces@[k] == monitors@[k],
        decreases surfaces@.len() - i,
    {
        let a = surfaces[i];
        let b = monitors[i];
        if a.left != b.left || a.top != b.top || a.right != b.right || a.bottom != b.bottom {
            return false;
        }
        i += 1;
    }
    proof {
        assert(surfaces@ =~= monitors@);
    }
    true
}

/// The first surface that holds the screen point, if any.
pub open spec fn first_surface_at(surfaces: Seq<Rect>, x: int, y: int) -> Option<int>
    decreases surfaces.len(),
{
    if surfaces.len() == 0 {
        None
    } else {
        match first_surface_at(surfaces.drop_last(), x, y) {
            Some(i) => Some(i),
            None => if rect_contains(surfaces.last(), x, y) {
                Some(surfaces.len() - 1)
            } else {
                None
            },
        }
    }
}

/// The surface that takes input at a point of the overlay (whose top-left
/// corner is at `origin` on the screen): the first that holds the point,
/// else the first surface, if there is one.
pub fn surface_for_point(surfaces: &Vec<Rect>, origin: Point, point: Point) -> (index: Option<usize>)
    requires
        i32::MIN <= point.x + origin.x <= i32::MAX,
        i32::MIN <= point.y + origin.y <= i32::MAX,
    ensures
        index == match first_surface_at(surfaces@, point.x + origin.x, point.y + origin.y) {
            Some(i) => Some(i as usize),
            None => if surfaces@.len() > 0 {
                Some(0usize)
            } else {
                None
            },
        },
{
    let gx = point.x + origin.x;
    let gy = point.y + origin.y;
    let mut i: usize = 0;
    while i < surfaces.len()
        invariant
            i <= surfaces@.len(),
            gx == point.x + origin.x,
            gy == point.y + origin.y,
            first_surface_at(surfaces@.take(i as int), gx as int, gy as int) is None,
        decreases surfaces@.len() - i,
    {
        let r = surfaces[i];
        proof {
            assert(surfaces@.take(i + 1).drop_last() =~= surfaces@.take(i as int));
            assert(surfaces@.take(i + 1).last() == r);
        }
        if gx >= r.left && gx < r.right && gy >= r.top && gy < r.bottom {
            proof {
                lemma_first_surface_prefix(surfaces@, i as int + 1, gx as int, gy as int);
            }
            return Some(i);
        }
        i += 1;
    }
    proof {
        assert(surfaces@.take(surfaces@.len() as int) =~= surfaces@);
    }
    if surfaces.len() > 0 {
        Some(0)
    } else {
        None
    }
}

/// A hit found in a prefix is the first hit of the whole list.
proof fn lemma_first_surface_prefix(s: Seq<Rect>, k: int, x: int, y: int)
    requires
        0 < k <= s.len(),
        first_surface_at(s.take(k), x, y) is Some,
    ensures
        first_surface_at(s, x, y) == first_surface_at(s.take(k), x, y),
    decreases s.len() - k,
{
    if k < s.len() {
        assert(s.take(k + 1).drop_last() =~= s.take(k));
        lemma_first_surface_prefix(s, k + 1, x, y);
    } else {
        assert(s.take(k) =~= s);
    }
}

/// The overlay point under a client point of a surface: the client point
/// moved by the surface's offset from the overlay's top-left corner.
pub fn virtual_point_from_client(surface: Rect, overlay: Rect, point: Point) -> (p: Point)
    requires
        i32::MIN <= point.x + surface.left - overlay.left <= i32::MAX,
        i32::MIN <= point.y + surface.top - overlay.top <= i32::MAX,
        i32::MIN <= point.x + surface.left <= i32::MAX,
        i32::MIN <= point.y + surface.top <= i32::MAX,
    ensures
        p.x == point.x + surface.left - overlay.left,
        p.y == point.y + surface.top - overlay.top,
{
    Point { x: point.x + surface.left - overlay.left, y: point.y + surface.top - overlay.top }
}

/// The rectangle of a monitor given as left, top, width and height.
pub open spec fn extent_rect(e: (i32, i32, i32, i32)) -> Rect {
    Rect { left: e.0, top: e.1, right: (e.0 + e.2) as i32, bottom: (e.1 + e.3) as i32 }
}

/// Whether the right and bottom edges of a monitor fit in `i32`.
pub open spec fn extent_fits(e: (i32, i32, i32, i32)) -> bool {
    i32::MIN <= e.0 + e.2 <= i32::MAX && i32::MIN <= e.1 + e.3 <= i32::MAX
}

/// The rectangles of monitors given as left, top, width and height, or
/// `None` when an edge does not fit in `i32`.
pub fn monitor_rects(extents: &Vec<(i32, i32, i32, i32)>) -> (rects: Option<Vec<Rect>>)
    ensures
        rects is None <==> exists|i: int| 0 <= i < extents@.len() && !extent_fits(#[trigger] extents@[i]),
        rects matches Some(r) ==> r@ == extents@.map_values(|e: (i32, i32, i32, i32)| extent_rect(e)),
{
    let mut rects: Vec<Rect> = Vec::new();
    let mut i: usize = 0;
    while i < extents.len()
        invariant
            i <= extents@.len(),
            forall|k: int| 0 <= k < i ==> extent_fits(#[trigger] extents@[k]),
            rects@ == extents@.take(i as int).map_values(|e: (i32, i32, i32, i32)| extent_rect(e)),
        decreases extents@.len() - i,
    {
        let (left, top, width, height) = extents[i];
        let right = left as i64 + width as i64;
        let bottom = top as i64 + height as i64;
        if right < i32::MIN as i64 || right > i32::MAX as i64 || bottom < i32::MIN as i64 || bottom
            > i32::MAX as i64 {
            proof {
                assert(!extent_fits(extents@[i as int]));
            }
            return None;
        }
        rects.push(Rect { left, top, right: right as i32, bottom: bottom as i32 });
        proof {
            assert(extents@.take(i + 1) =~= extents@.take(i as int).push(extents@[i as int]));
            assert(rects@ =~= extents@.take(i + 1).map_values(
                |e: (i32, i32, i32, i32)| extent_rect(e),
            ));
        }
        i += 1;
    }
    proof {
        assert(extents@.take(extents@.len() as int) =~= extents@);
    }
    Some(rects)
}

} // verus!
