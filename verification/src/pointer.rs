use vstd::prelude::*;

use crate::native_drawing::{
    number_radius_spec, rect_contains, stamp_radius, NativeTool, Point, Rect,
    ERASER_WIDTH_MULTIPLIER, TRANSPARENT_KEY,
};
use crate::overlay::{
    after_commit, max_marker, next_marker, undo_result, commit_adds_text, effects_none, item_group, item_views, lemma_item_views_update,
    no_effects, overlay_wf, selection_ok, ActiveDrawing, ActiveView, CursorChange, DrawingItem,
    EditSession, EditView, Effects, ItemView, OverlayState, OverlayView, SelectionAction,
    SelectionSession,
};
use crate::selection::{
    expand_selected_groups, expanded_selection, grouped_indices, grouped_indices_spec,
    hit_test_drawing, last_hit, lemma_last_hit, marquee_hits, marquee_selection, span_rect,
};

verus! {

/// Whether moving the point by `(dx, dy)` stays within `i32`.
pub open spec fn point_moves(p: Point, dx: int, dy: int) -> bool {
    &&& i32::MIN <= p.x + dx <= i32::MAX
    &&& i32::MIN <= p.y + dy <= i32::MAX
}

/// The point moved by `(dx, dy)`.
pub open spec fn moved_point(p: Point, dx: int, dy: int) -> Point {
    Point { x: (p.x + dx) as i32, y: (p.y + dy) as i32 }
}

/// Whether every point stays within `i32` when moved.
pub open spec fn all_points_move(ps: Seq<Point>, dx: int, dy: int) -> bool {
    forall|k: int| 0 <= k < ps.len() ==> point_moves(#[trigger] ps[k], dx, dy)
}

/// Whether every point of the item stays within `i32` when moved.
pub open spec fn item_moves(v: ItemView, dx: int, dy: int) -> bool {
    match v {
        ItemView::Stroke { points, .. } => all_points_move(points, dx, dy),
        ItemView::Shape { start, end, .. } => point_moves(start, dx, dy) && point_moves(end, dx, dy),
        ItemView::Text { start, .. } => point_moves(start, dx, dy),
        ItemView::Number { center, .. } => point_moves(center, dx, dy),
    }
}

/// The item moved by `(dx, dy)`.
pub open spec fn moved_item(v: ItemView, dx: int, dy: int) -> ItemView {
    match v {
        ItemView::Stroke { points, color, width, erase, rotation, group } => ItemView::Stroke {
            points: points.map_values(|p: Point| moved_point(p, dx, dy)),
            color,
            width,
            erase,
            rotation,
            group,
        },
        ItemView::Shape { tool, start, end, color, width, rotation, group } => ItemView::Shape {
            tool,
            start: moved_point(start, dx, dy),
            end: moved_point(end, dx, dy),
            color,
            width,
            rotation,
            group,
        },
        ItemView::Text { start, text, color, width, rotation, group } => ItemView::Text {
            start: moved_point(start, dx, dy),
            text,
            color,
            width,
            rotation,
            group,
        },
        ItemView::Number { center, value, color, width, rotation, group } => ItemView::Number {
            center: moved_point(center, dx, dy),
            value,
            color,
            width,
            rotation,
            group,
        },
    }
}

/// Moves a point.
fn move_point(p: &mut Point, dx: i32, dy: i32)
    requires
        point_moves(*old(p), dx as int, dy as int),
    ensures
        *final(p) == moved_point(*old(p), dx as int, dy as int),
{
    p.x = p.x + dx;
    p.y = p.y + dy;
}

/// Moves a drawing by `(dx, dy)`.
pub fn translate_drawing(drawing: &mut DrawingItem, dx: i32, dy: i32)
    requires
        item_moves(old(drawing)@, dx as int, dy as int),
    ensures
        final(drawing)@ == moved_item(old(drawing)@, dx as int, dy as int),
{
    match drawing {
        DrawingItem::Stroke { points, .. } => {
            let ghost orig = points@;
            let mut i: usize = 0;
            while i < points.len()
                invariant
                    i <= points@.len() == orig.len(),
                    forall|k: int| 0 <= k < orig.len() ==> point_moves(#[trigger] orig[k], dx as int, dy as int),
                    forall|k: int| 0 <= k < i ==> #[trigger] points@[k] == moved_point(orig[k], dx as int, dy as int),
                    forall|k: int| i <= k < orig.len() ==> #[trigger] points@[k] == orig[k],
                decreases orig.len() - i,
            {
                let mut p = points[i];
                move_point(&mut p, dx, dy);
                points.set(i, p);
                i += 1;
            }
            proof {
                assert(points@ =~= orig.map_values(|p: Point| moved_point(p, dx as int, dy as int)));
            }
        },
        DrawingItem::Shape { start, end, .. } => {
            move_point(start, dx, dy);
            move_point(end, dx, dy);
        },
        DrawingItem::Text { start, .. } => {
            move_point(start, dx, dy);
        },
        DrawingItem::Number { center, .. } => {
            move_point(center, dx, dy);
        },
    }
}

/// Whether every point stays within `i32` when moved.
fn points_move(points: &Vec<Point>, dx: i32, dy: i32) -> (ok: bool)
    ensures
        ok == all_points_move(points@, dx as int, dy as int),
{
    let mut i: usize = 0;
    while i < points.len()
        invariant
            i <= points@.len(),
            forall|k: int| 0 <= k < i ==> point_moves(#[trigger] points@[k], dx as int, dy as int),
        decreases points@.len() - i,
    {
        if !point_fits_move(points[i], dx, dy) {
            proof {
                assert(!point_moves(points@[i as int], dx as int, dy as int));
            }
            return false;
        }
        i += 1;
    }
    true
}

/// Whether every point of the item stays within `i32` when moved.
pub fn drawing_moves(drawing: &DrawingItem, dx: i32, dy: i32) -> (ok: bool)
    ensures
        ok == item_moves(drawing@, dx as int, dy as int),
{
    match drawing {
        DrawingItem::Stroke { points, .. } => points_move(points, dx, dy),
        DrawingItem::Shape { start, end, .. } => point_fits_move(*start, dx, dy) && point_fits_move(
            *end,
            dx,
            dy,
        ),
        DrawingItem::Text { start, .. } => point_fits_move(*start, dx, dy),
        DrawingItem::Number { center, .. } => point_fits_move(*center, dx, dy),
    }
}

/// Whether moving the point stays within `i32`.
fn point_fits_move(p: Point, dx: i32, dy: i32) -> (ok: bool)
    ensures
        ok == point_moves(p, dx as int, dy as int),
{
    let x = p.x as i64 + dx as i64;
    let y = p.y as i64 + dy as i64;
    i32::MIN as i64 <= x && x <= i32::MAX as i64 && i32::MIN as i64 <= y && y <= i32::MAX as i64
}

/// The drawings with the selected ones moved by `(dx, dy)`.
pub open spec fn moved_selection(items: Seq<ItemView>, sel: Seq<usize>, dx: int, dy: int) -> Seq<
    ItemView,
> {
    Seq::new(
        items.len(),
        |i: int|
            if sel.contains(i as usize) {
                moved_item(items[i], dx, dy)
            } else {
                items[i]
            },
    )
}

/// Whether the selected drawings can all be moved by `(dx, dy)`.
pub open spec fn selection_moves(items: Seq<ItemView>, sel: Seq<usize>, dx: int, dy: int) -> bool {
    forall|k: int| 0 <= k < sel.len() ==> item_moves(#[trigger] items[sel[k] as int], dx, dy)
}

/// The selection as a drag with the selection tool to `point` leaves it
/// (see `OverlayState::update_drawing_at`).
pub open spec fn selection_dragged(v: OverlayView, point: Point, bounds: Seq<Rect>) -> OverlayView {
    let s = v.selection->0;
    let s2 = SelectionSession { current: point, ..s };
    match s.action {
        SelectionAction::Marquee => OverlayView {
            selected: expanded_selection(v.drawings, marquee_hits(bounds, span_rect(s.start, point))),
            selection: Some(s2),
            ..v
        },
        SelectionAction::Move { last } => {
            let dx = point.x - last.x;
            let dy = point.y - last.y;
            if dx != 0 || dy != 0 {
                OverlayView {
                    drawings: moved_selection(v.drawings, v.selected, dx, dy),
                    selection: Some(SelectionSession { action: SelectionAction::Move { last: point }, ..s2 }),
                    ..v
                }
            } else {
                OverlayView { selection: Some(s2), ..v }
            }
        },
        SelectionAction::Transform => OverlayView { selection: Some(s2), ..v },
    }
}

/// Whether a drag of the selection to `point` stays within `i32`: the
/// distance from the last point, and every moved point of the selection.
pub open spec fn drag_fits(v: OverlayView, point: Point) -> bool {
    match v.selection {
        Some(s) => match s.action {
            SelectionAction::Move { last } => {
                let dx = point.x - last.x;
                let dy = point.y - last.y;
                &&& i32::MIN <= dx <= i32::MAX
                &&& i32::MIN <= dy <= i32::MAX
                &&& selection_moves(v.drawings, v.selected, dx, dy)
            },
            _ => true,
        },
        None => true,
    }
}

/// The state after the selection tool was pressed at `point`: on a handle
/// of the selection frame a resize or rotation begins; on a drawing, the
/// drawing's group becomes the selection (unless the drawing is already
/// selected) and a move begins; elsewhere the selection empties and a
/// rectangle selection begins.
pub open spec fn selection_begun(v: OverlayView, point: Point, on_handle: bool, bounds: Seq<Rect>) -> OverlayView {
    if on_handle && v.selected.len() > 0 {
        OverlayView {
            selection: Some(
                SelectionSession { start: point, current: point, action: SelectionAction::Transform },
            ),
            ..v
        }
    } else {
        match last_hit(bounds, point) {
            Some(i) => OverlayView {
                selected: if v.selected.contains(i) {
                    v.selected
                } else {
                    grouped_indices_spec(v.drawings, i as int)
                },
                selection: Some(
                    SelectionSession {
                        start: point,
                        current: point,
                        action: SelectionAction::Move { last: point },
                    },
                ),
                ..v
            },
            None => OverlayView {
                selected: seq![],
                selection: Some(
                    SelectionSession { start: point, current: point, action: SelectionAction::Marquee },
                ),
                ..v
            },
        }
    }
}

/// Whether the toolbar covers the point (given on the screen when
/// `global`, else relative to the overlay).
pub open spec fn passthrough_at(v: OverlayView, p: Point, global: bool) -> bool {
    let gx = if global { p.x as int } else { p.x + v.bounds.left };
    let gy = if global { p.y as int } else { p.y + v.bounds.top };
    match v.toolbar_passthrough {
        Some(r) => rect_contains(r, gx, gy),
        None => false,
    }
}

/// Whether the overlay reacts to a press at `point`: it is shown, the tool
/// is not the pointer, and the toolbar does not cover the point.
pub open spec fn press_accepted(v: OverlayView, point: Point) -> bool {
    v.visible && v.tool != NativeTool::Pointer && !passthrough_at(v, point, false)
}

/// The width that a new item gets: the current width, at least 1.
pub open spec fn item_width(v: OverlayView) -> i32 {
    if v.width >= 1 { v.width } else { 1 }
}

/// The number after `n`, held at `u32::MAX`.
pub open spec fn number_after(n: u32) -> u32 {
    if n == u32::MAX { u32::MAX } else { (n + 1) as u32 }
}

/// Whether the tool draws a box, an ellipse, a line or an arrow.
pub open spec fn is_shape_tool(t: NativeTool) -> bool {
    t == NativeTool::Line || t == NativeTool::Arrow || t == NativeTool::Rectangle || t == NativeTool::Ellipse
}

/// Whether the tool stamps a check or a cross.
pub open spec fn is_stamp_tool(t: NativeTool) -> bool {
    t == NativeTool::CheckMark || t == NativeTool::CrossMark
}

/// The state after a press at `point`. Text being typed is committed
/// first. The selection tool leaves the rest to `begin_selection_at`; any
/// other tool ends the selection, then: the text tool opens an editor at
/// the point; the numbering tool adds the next numbered marker; the check
/// and cross tools add a stamp centred on the point; the pen and the eraser
/// begin a stroke; the shape tools begin a shape.
pub open spec fn press_result(v: OverlayView, point: Point) -> OverlayView {
    if !press_accepted(v, point) {
        v
    } else {
        let c = after_commit(v);
        let w = item_width(v);
        let c2 = OverlayView { selected: seq![], selection: None, ..c };
        if v.tool == NativeTool::Select {
            c
        } else if v.tool == NativeTool::Text {
            OverlayView {
                edit: Some(EditView { start: point, text: seq![], color: v.color, width: w }),
                ..c2
            }
        } else if v.tool == NativeTool::Number {
            OverlayView {
                drawings: c2.drawings.push(
                    ItemView::Number {
                        center: point,
                        value: v.next_number,
                        color: v.color,
                        width: w,
                        rotation: 0,
                        group: None,
                    },
                ),
                next_number: number_after(v.next_number),
                ..c2
            }
        } else if is_stamp_tool(v.tool) {
            let r = number_radius_spec(v.width as int);
            OverlayView {
                drawings: c2.drawings.push(
                    ItemView::Shape {
                        tool: v.tool,
                        start: Point { x: (point.x - r) as i32, y: (point.y - r) as i32 },
                        end: Point { x: (point.x + r) as i32, y: (point.y + r) as i32 },
                        color: v.color,
                        width: w,
                        rotation: 0,
                        group: None,
                    },
                ),
                ..c2
            }
        } else if v.tool == NativeTool::Pen {
            OverlayView {
                active: Some(ActiveView::Stroke { points: seq![point], color: v.color, width: w, erase: false }),
                ..c2
            }
        } else if v.tool == NativeTool::Eraser {
            OverlayView {
                active: Some(
                    ActiveView::Stroke {
                        points: seq![point],
                        color: TRANSPARENT_KEY,
                        width: (w * ERASER_WIDTH_MULTIPLIER) as i32,
                        erase: true,
                    },
                ),
                ..c2
            }
        } else {
            OverlayView {
                active: Some(
                    ActiveView::Shape { tool: v.tool, start: point, end: point, color: v.color, width: w },
                ),
                ..c2
            }
        }
    }
}

/// What the application does after a press at `point`.
pub open spec fn press_effects(v: OverlayView, point: Point) -> Effects {
    if !press_accepted(v, point) {
        no_effects()
    } else {
        Effects {
            refresh: true,
            history: if commit_adds_text(v) || v.tool == NativeTool::Number || is_stamp_tool(v.tool) {
                Some(true)
            } else {
                None
            },
            cursor: if v.tool == NativeTool::Number {
                CursorChange::Rebuild { apply_now: false }
            } else {
                CursorChange::Keep
            },
            raise_toolbar: v.tool == NativeTool::Number || is_stamp_tool(v.tool),
            capture: v.tool == NativeTool::Select || v.tool == NativeTool::Pen || v.tool
                == NativeTool::Eraser || is_shape_tool(v.tool),
            focus_input: v.tool == NativeTool::Text,
            begin_selection: v.tool == NativeTool::Select,
            ..no_effects()
        }
    }
}

/// Whether the arithmetic of a press at `point` stays within `i32`: the
/// point on the screen, the padded position of typed text, and the corners
/// of a stamp.
pub open spec fn press_fits(v: OverlayView, point: Point) -> bool {
    v.visible && v.tool != NativeTool::Pointer ==> {
        &&& i32::MIN <= point.x + v.bounds.left <= i32::MAX
        &&& i32::MIN <= point.y + v.bounds.top <= i32::MAX
        &&& v.tool == NativeTool::Text ==> point.x + 8 <= i32::MAX && point.y + 8 <= i32::MAX
        &&& is_stamp_tool(v.tool) ==> {
            let r = number_radius_spec(v.width as int);
            &&& i32::MIN <= point.x - r
            &&& i32::MIN <= point.y - r
            &&& point.x + r <= i32::MAX
            &&& point.y + r <= i32::MAX
        }
    }
}

/// The state after the pointer, held down, moved to `point`: a selection
/// drag follows it; a stroke gains the point; a shape ends there.
pub open spec fn drag_result(v: OverlayView, point: Point, bounds: Seq<Rect>) -> OverlayView {
    if !v.visible || v.tool == NativeTool::Pointer {
        v
    } else if v.tool == NativeTool::Select && v.selection is Some {
        selection_dragged(v, point, bounds)
    } else {
        match v.active {
            Some(ActiveView::Stroke { points, color, width, erase }) => OverlayView {
                active: Some(ActiveView::Stroke { points: points.push(point), color, width, erase }),
                ..v
            },
            Some(ActiveView::Shape { tool, start, color, width, .. }) => OverlayView {
                active: Some(ActiveView::Shape { tool, start, end: point, color, width }),
                ..v
            },
            None => v,
        }
    }
}

/// The item that an active drawing becomes when the button is released.
pub open spec fn finished_item(a: ActiveView) -> ItemView {
    match a {
        ActiveView::Stroke { points, color, width, erase } => ItemView::Stroke {
            points,
            color,
            width,
            erase,
            rotation: 0,
            group: None,
        },
        ActiveView::Shape { tool, start, end, color, width } => ItemView::Shape {
            tool,
            start,
            end,
            color,
            width,
            rotation: 0,
            group: None,
        },
    }
}

/// Whether an active drawing is kept when the button is released: a
/// stroke needs two points.
pub open spec fn kept_on_release(a: ActiveView) -> bool {
    match a {
        ActiveView::Stroke { points, .. } => points.len() >= 2,
        ActiveView::Shape { .. } => true,
    }
}

/// The state after the button was released: a selection drag ends; an
/// active drawing becomes an item when kept and is dropped otherwise.
pub open spec fn release_result(v: OverlayView) -> OverlayView {
    if v.tool == NativeTool::Select && v.selection is Some {
        OverlayView { selection: None, ..v }
    } else {
        match v.active {
            Some(a) => if kept_on_release(a) {
                OverlayView { drawings: v.drawings.push(finished_item(a)), active: None, ..v }
            } else {
                OverlayView { active: None, ..v }
            },
            None => v,
        }
    }
}

/// What the application does after the button was released.
pub open spec fn release_effects(v: OverlayView) -> Effects {
    if v.tool == NativeTool::Select && v.selection is Some {
        Effects { refresh: true, selection_changed: true, release_capture: true, ..no_effects() }
    } else {
        match v.active {
            Some(a) => if kept_on_release(a) {
                Effects { refresh: true, history: Some(true), release_capture: true, ..no_effects() }
            } else {
                Effects { release_capture: true, ..no_effects() }
            },
            None => no_effects(),
        }
    }
}

impl OverlayState {
    /// Whether the toolbar covers the point, given on the screen when
    /// `point_is_global` and relative to the overlay otherwise.
    pub fn is_toolbar_passthrough_point(&self, point: Point, point_is_global: bool) -> (covered:
        bool)
        requires
            !point_is_global ==> i32::MIN <= point.x + self@.bounds.left <= i32::MAX && i32::MIN
                <= point.y + self@.bounds.top <= i32::MAX,
        ensures
            covered == passthrough_at(self@, point, point_is_global),
    {
        let (gx, gy) = if point_is_global {
            (point.x, point.y)
        } else {
            (point.x + self.bounds.left, point.y + self.bounds.top)
        };
        match self.toolbar_passthrough {
            Some(r) => gx >= r.left && gx < r.right && gy >= r.top && gy < r.bottom,
            None => false,
        }
    }

    /// The point of the overlay under the screen point `(x, y)`, if the
    /// overlay is shown, takes drawing input there (not the pointer tool,
    /// not under the toolbar) and covers it.
    pub fn global_point_for_drawing(&self, x: i32, y: i32) -> (p: Option<Point>)
        requires
            crate::overlay::bounds_ok(self@.bounds),
        ensures
            p == if !self@.visible || self@.tool == NativeTool::Pointer || passthrough_at(
                self@,
                Point { x, y },
                true,
            ) || !rect_contains(self@.bounds, x as int, y as int) {
                None
            } else {
                Some(Point { x: (x - self@.bounds.left) as i32, y: (y - self@.bounds.top) as i32 })
            },
    {
        if !self.visible || matches!(self.tool, NativeTool::Pointer) {
            return None;
        }
        if self.is_toolbar_passthrough_point(Point { x, y }, true) {
            return None;
        }
        if x < self.bounds.left || x >= self.bounds.right || y < self.bounds.top || y
            >= self.bounds.bottom {
            return None;
        }
        Some(Point { x: x - self.bounds.left, y: y - self.bounds.top })
    }

    /// Whether a mouse message at the screen point lets input through to
    /// what lies below: the overlay lets all input through, or the toolbar
    /// covers the point.
    pub fn passes_input_at(&self, point: Point) -> (passes: bool)
        ensures
            passes == (self@.click_through || passthrough_at(self@, point, true)),
    {
        self.click_through || self.is_toolbar_passthrough_point(point, true)
    }

    /// Whether the input windows are shown and take the mouse: the overlay
    /// is shown and does not let input through.
    pub fn captures_input(&self) -> (captures: bool)
        ensures
            captures == (self@.visible && !self@.click_through),
    {
        self.visible && !self.click_through
    }

    /// Whether a pointer move with the given button state is to be
    /// followed: a drawing or a selection drag is under way and the left
    /// button (bit 0) is down.
    pub fn follows_pointer_move(&self, buttons: usize) -> (follows: bool)
        ensures
            follows == ((self@.active is Some || self@.selection is Some) && buttons % 2 == 1),
    {
        let down = buttons & 1;
        proof {
            assert(down == buttons % 2) by (bit_vector)
                requires
                    down == buttons & 1,
            ;
        }
        (self.active.is_some() || self.selection.is_some()) && down == 1
    }

    /// Begins a press of the selection tool at `point` (see
    /// `selection_begun`); `on_handle` tells whether the point lies on a
    /// resize or rotation handle of the selection frame, and `bounds`
    /// holds the bounds of every drawing.
    pub fn begin_selection_at(&mut self, point: Point, on_handle: bool, bounds: &Vec<Rect>)
        requires
            overlay_wf(old(self)@),
            bounds@.len() == old(self)@.drawings.len(),
        ensures
            final(self)@ == selection_begun(old(self)@, point, on_handle, bounds@),
            overlay_wf(final(self)@),
    {
        if on_handle && self.selected.len() > 0 {
            self.selection = Some(
                SelectionSession { start: point, current: point, action: SelectionAction::Transform },
            );
            return;
        }
        let count = bounds.len();
        proof {
            assert(bounds@.len() == count);
            lemma_last_hit(bounds@, point);
        }
        match hit_test_drawing(bounds, point) {
            Some(index) => {
                if !crate::overlay::index_listed(&self.selected, index) {
                    let sel = grouped_indices(&self.drawings, index);
                    self.selected = sel;
                }
                self.selection = Some(
                    SelectionSession {
                        start: point,
                        current: point,
                        action: SelectionAction::Move { last: point },
                    },
                );
            },
            None => {
                self.selected.clear();
                self.selection = Some(
                    SelectionSession { start: point, current: point, action: SelectionAction::Marquee },
                );
                proof {
                    assert(self.selected@ =~= Seq::<usize>::empty());
                }
            },
        }
    }

    /// Whether a drag of the selection to `point` stays within `i32` (see
    /// `drag_fits`).
    pub fn drag_fits_at(&self, point: Point) -> (ok: bool)
        requires
            overlay_wf(self@),
        ensures
            ok == drag_fits(self@, point),
    {
        match self.selection {
            Some(s) => match s.action {
                SelectionAction::Move { last } => {
                    let dx = point.x as i64 - last.x as i64;
                    let dy = point.y as i64 - last.y as i64;
                    if dx < i32::MIN as i64 || dx > i32::MAX as i64 || dy < i32::MIN as i64 || dy
                        > i32::MAX as i64 {
                        return false;
                    }
                    let dx = dx as i32;
                    let dy = dy as i32;
                    proof {
                        assert(self@.selection == Some(s));
                        assert(dx as int == point.x - last.x);
                        assert(dy as int == point.y - last.y);
                    }
                    self.selection_moves_by(dx, dy)
                },
                _ => true,
            },
            None => true,
        }
    }

    /// Whether the selected drawings can all be moved by `(dx, dy)`.
    fn selection_moves_by(&self, dx: i32, dy: i32) -> (ok: bool)
        requires
            overlay_wf(self@),
        ensures
            ok == selection_moves(self@.drawings, self@.selected, dx as int, dy as int),
    {
        let mut k: usize = 0;
        while k < self.selected.len()
            invariant
                overlay_wf(self@),
                k <= self@.selected.len(),
                forall|q: int|
                    0 <= q < k ==> item_moves(
                        #[trigger] self@.drawings[self@.selected[q] as int],
                        dx as int,
                        dy as int,
                    ),
            decreases self@.selected.len() - k,
        {
            let index = self.selected[k];
            proof {
                assert(self@.drawings[index as int] == self.drawings@[index as int]@);
            }
            if !drawing_moves(&self.drawings[index], dx, dy) {
                proof {
                    assert(!item_moves(self@.drawings[self@.selected[k as int] as int], dx as int, dy as int));
                }
                return false;
            }
            k += 1;
        }
        true
    }

    /// Moves the selected drawings by `(dx, dy)`.
    fn move_selected(&mut self, dx: i32, dy: i32)
        requires
            overlay_wf(old(self)@),
            selection_moves(old(self)@.drawings, old(self)@.selected, dx as int, dy as int),
        ensures
            final(self)@ == (OverlayView {
                drawings: moved_selection(old(self)@.drawings, old(self)@.selected, dx as int, dy as int),
                ..old(self)@
            }),
    {
        let ghost o = self@;
        let n = self.drawings.len();
        let mut k: usize = 0;
        while k < self.selected.len()
            invariant
                overlay_wf(o),
                o.drawings.len() == n,
                k <= o.selected.len(),
                selection_moves(o.drawings, o.selected, dx as int, dy as int),
                self@ == (OverlayView { drawings: self@.drawings, ..o }),
                self@.drawings.len() == o.drawings.len(),
                forall|i: int|
                    0 <= i < o.drawings.len() ==> #[trigger] self@.drawings[i] == if o.selected.take(
                        k as int,
                    ).contains(i as usize) {
                        moved_item(o.drawings[i], dx as int, dy as int)
                    } else {
                        o.drawings[i]
                    },
            decreases o.selected.len() - k,
        {
            let index = self.selected[k];
            let ghost before = self.drawings@;
            let ghost bv = self@.drawings;
            proof {
                assert(o.selected[k as int] == index);
                assert(!o.selected.take(k as int).contains(index)) by {
                    if o.selected.take(k as int).contains(index) {
                        let q = choose|q: int| 0 <= q < k && o.selected.take(k as int)[q] == index;
                        assert(o.selected[q] < o.selected[k as int]);
                    }
                }
                assert(self@.drawings[index as int] == o.drawings[index as int]);
                assert(item_moves(o.drawings[o.selected[k as int] as int], dx as int, dy as int));
                assert(self.drawings@[index as int]@ == self@.drawings[index as int]);
            }
            translate_drawing(&mut self.drawings[index], dx, dy);
            proof {
                lemma_item_views_update(before, index as int, self.drawings@[index as int]);
                assert(self.drawings@ == before.update(index as int, self.drawings@[index as int]));
                assert forall|i: int| 0 <= i < o.drawings.len() implies #[trigger] self@.drawings[i]
                    == if o.selected.take(k + 1).contains(i as usize) {
                    moved_item(o.drawings[i], dx as int, dy as int)
                } else {
                    o.drawings[i]
                } by {
                    assert(o.selected.take(k + 1) =~= o.selected.take(k as int).push(index));
                    if i == index as int {
                        assert(o.selected.take(k + 1)[k as int] == index);
                        assert(o.selected.take(k + 1).contains(i as usize));
                        assert(self@.drawings[i] == moved_item(bv[i], dx as int, dy as int));
                    } else {
                        assert((i as usize) != index);
                        assert(self@.drawings[i] == bv[i]);
                        if o.selected.take(k + 1).contains(i as usize) {
                            let q = choose|q: int|
                                0 <= q < k + 1 && #[trigger] o.selected.take(k + 1)[q] == i as usize;
                            assert(q < k);
                            assert(o.selected.take(k as int)[q] == i as usize);
                        }
                        if o.selected.take(k as int).contains(i as usize) {
                            let q = choose|q: int|
                                0 <= q < k && #[trigger] o.selected.take(k as int)[q] == i as usize;
                            assert(o.selected.take(k + 1)[q] == i as usize);
                        }
                    }
                }
            }
            k += 1;
        }
        proof {
            assert(o.selected.take(o.selected.len() as int) =~= o.selected);
            assert(self@.drawings =~= moved_selection(o.drawings, o.selected, dx as int, dy as int));
        }
    }

    /// Follows a drag of the selection to `point` (see `selection_dragged`).
    fn update_selection_at(&mut self, point: Point, bounds: &Vec<Rect>)
        requires
            overlay_wf(old(self)@),
            old(self)@.selection is Some,
            bounds@.len() == old(self)@.drawings.len(),
            drag_fits(old(self)@, point),
        ensures
            final(self)@ == selection_dragged(old(self)@, point, bounds@),
            overlay_wf(final(self)@),
    {
        let s = match self.selection {
            Some(s) => s,
            None => {
                return;
            },
        };
        let current = SelectionSession { current: point, ..s };
        match s.action {
            SelectionAction::Marquee => {
                let mut sel = marquee_selection(bounds, s.start, point);
                expand_selected_groups(&self.drawings, &mut sel);
                self.selected = sel;
                self.selection = Some(current);
            },
            SelectionAction::Move { last } => {
                let dx = point.x - last.x;
                let dy = point.y - last.y;
                if dx != 0 || dy != 0 {
                    self.move_selected(dx, dy);
                    self.selection = Some(
                        SelectionSession { action: SelectionAction::Move { last: point }, ..current },
                    );
                } else {
                    self.selection = Some(current);
                }
            },
            SelectionAction::Transform => {
                self.selection = Some(current);
            },
        }
    }

    /// A press of the left button at `point`, relative to the overlay (see
    /// `press_result` and `press_effects`). With the selection tool the
    /// application then hit-tests the drawings and calls
    /// `begin_selection_at`.
    pub fn begin_drawing_at(&mut self, point: Point) -> (fx: Effects)
        requires
            overlay_wf(old(self)@),
            press_fits(old(self)@, point),
        ensures
            final(self)@ == press_result(old(self)@, point),
            fx == press_effects(old(self)@, point),
            overlay_wf(final(self)@),
    {
        let mut fx = effects_none();
        if !self.visible || matches!(self.tool, NativeTool::Pointer) {
            return fx;
        }
        if self.is_toolbar_passthrough_point(point, false) {
            return fx;
        }
        let added = self.commit_text_editor();
        if added {
            fx.history = Some(true);
        }
        fx.refresh = true;
        if matches!(self.tool, NativeTool::Select) {
            fx.begin_selection = true;
            fx.capture = true;
            return fx;
        }
        self.selected.clear();
        self.selection = None;
        proof {
            assert(self.selected@ =~= Seq::<usize>::empty());
        }
        let width: i32 = if self.width >= 1 { self.width } else { 1 };
        let tool = self.tool;
        match tool {
            NativeTool::Text => {
                self.edit = Some(EditSession { start: point, text: Vec::new(), color: self.color, width });
                fx.focus_input = true;
                proof {
                    assert(self.edit.unwrap()@.text =~= Seq::<char>::empty());
                }
            },
            NativeTool::Number => {
                let value = self.next_number;
                self.next_number = if value == u32::MAX { u32::MAX } else { value + 1 };
                let ghost before = self.drawings@;
                self.drawings.push(
                    DrawingItem::Number { center: point, value, color: self.color, width, rotation: 0, group: None },
                );
                proof {
                    assert(item_views(self.drawings@) =~= item_views(before).push(self.drawings@.last()@));
                }
                fx.cursor = CursorChange::Rebuild { apply_now: false };
                fx.history = Some(true);
                fx.raise_toolbar = true;
            },
            NativeTool::CheckMark | NativeTool::CrossMark => {
                let radius = stamp_radius(self.width);
                let ghost before = self.drawings@;
                self.drawings.push(
                    DrawingItem::Shape {
                        tool,
                        start: Point { x: point.x - radius, y: point.y - radius },
                        end: Point { x: point.x + radius, y: point.y + radius },
                        color: self.color,
                        width,
                        rotation: 0,
                        group: None,
                    },
                );
                proof {
                    assert(item_views(self.drawings@) =~= item_views(before).push(self.drawings@.last()@));
                }
                fx.history = Some(true);
                fx.raise_toolbar = true;
            },
            NativeTool::Pen => {
                let points = vec![point];
                proof {
                    assert(points@ =~= seq![point]);
                }
                self.active = Some(ActiveDrawing::Stroke { points, color: self.color, width, erase: false });
                fx.capture = true;
            },
            NativeTool::Eraser => {
                let points = vec![point];
                proof {
                    assert(points@ =~= seq![point]);
                }
                self.active = Some(
                    ActiveDrawing::Stroke {
                        points,
                        color: TRANSPARENT_KEY,
                        width: width * ERASER_WIDTH_MULTIPLIER,
                        erase: true,
                    },
                );
                fx.capture = true;
            },
            _ => {
                self.active = Some(
                    ActiveDrawing::Shape { tool, start: point, end: point, color: self.color, width },
                );
                fx.capture = true;
            },
        }
        fx
    }

    /// The pointer moved to `point` with the button held (see
    /// `drag_result`); `bounds` holds the bounds of every drawing.
    pub fn update_drawing_at(&mut self, point: Point, bounds: &Vec<Rect>) -> (fx: Effects)
        requires
            overlay_wf(old(self)@),
            bounds@.len() == old(self)@.drawings.len(),
            old(self)@.visible && old(self)@.tool == NativeTool::Select ==> drag_fits(old(self)@, point),
        ensures
            final(self)@ == drag_result(old(self)@, point, bounds@),
            fx == if !old(self)@.visible || old(self)@.tool == NativeTool::Pointer {
                no_effects()
            } else {
                Effects { refresh: true, ..no_effects() }
            },
            overlay_wf(final(self)@),
    {
        let mut fx = effects_none();
        if !self.visible || matches!(self.tool, NativeTool::Pointer) {
            return fx;
        }
        fx.refresh = true;
        if matches!(self.tool, NativeTool::Select) && self.selection.is_some() {
            self.update_selection_at(point, bounds);
            return fx;
        }
        let active = self.active.take();
        self.active = match active {
            Some(ActiveDrawing::Stroke { mut points, color, width, erase }) => {
                points.push(point);
                Some(ActiveDrawing::Stroke { points, color, width, erase })
            },
            Some(ActiveDrawing::Shape { tool, start, color, width, .. }) => Some(
                ActiveDrawing::Shape { tool, start, end: point, color, width },
            ),
            None => None,
        };
        fx
    }

    /// The left button was released (see `release_result` and
    /// `release_effects`).
    pub fn finish_drawing_at(&mut self, _point: Point) -> (fx: Effects)
        requires
            overlay_wf(old(self)@),
        ensures
            final(self)@ == release_result(old(self)@),
            fx == release_effects(old(self)@),
            overlay_wf(final(self)@),
    {
        let mut fx = effects_none();
        if matches!(self.tool, NativeTool::Select) && self.selection.is_some() {
            self.selection = None;
            fx.selection_changed = true;
            fx.release_capture = true;
            fx.refresh = true;
            return fx;
        }
        let active = self.active.take();
        let ghost before = self.drawings@;
        match active {
            None => {},
            Some(ActiveDrawing::Stroke { points, color, width, erase }) => {
                fx.release_capture = true;
                if points.len() < 2 {
                    return fx;
                }
                self.drawings.push(DrawingItem::Stroke { points, color, width, erase, rotation: 0, group: None });
                proof {
                    assert(item_views(self.drawings@) =~= item_views(before).push(self.drawings@.last()@));
                }
                fx.history = Some(true);
                fx.refresh = true;
            },
            Some(ActiveDrawing::Shape { tool, start, end, color, width }) => {
                self.drawings.push(DrawingItem::Shape { tool, start, end, color, width, rotation: 0, group: None });
                proof {
                    assert(item_views(self.drawings@) =~= item_views(before).push(self.drawings@.last()@));
                }
                fx.release_capture = true;
                fx.history = Some(true);
                fx.refresh = true;
            },
        }
        fx
    }
}

/// The width one wheel notch in the direction of `delta` gives: one more
/// or one less than the current width, kept within 1..=15.
pub open spec fn stepped_width(v: OverlayView, delta: int) -> i32 {
    crate::native_drawing::clamp_int(v.width + (if delta > 0 { 1int } else { -1int }), 1, 15) as i32
}

/// Whether the wheel changes the width with the current tool: while text
/// is typed, or with a tool that draws with a width.
pub open spec fn wheel_sizes(v: OverlayView) -> bool {
    ||| v.tool == NativeTool::Text && v.edit is Some
    ||| v.tool == NativeTool::Eraser || v.tool == NativeTool::Number || is_stamp_tool(v.tool)
    ||| v.tool == NativeTool::Pen || is_shape_tool(v.tool)
}

/// The state after a wheel notch: the width steps, and so does the width
/// of the text being typed or of the drawing in progress.
pub open spec fn wheel_result(v: OverlayView, delta: int) -> OverlayView {
    if !v.visible || delta == 0 || !wheel_sizes(v) {
        v
    } else {
        let w = stepped_width(v, delta);
        if v.tool == NativeTool::Text {
            OverlayView { width: w, edit: Some(EditView { width: w, ..v.edit->0 }), ..v }
        } else if v.tool == NativeTool::Pen || is_shape_tool(v.tool) {
            OverlayView {
                width: w,
                active: match v.active {
                    Some(ActiveView::Stroke { points, color, erase, .. }) => Some(
                        ActiveView::Stroke { points, color, width: w, erase },
                    ),
                    Some(ActiveView::Shape { tool, start, end, color, .. }) => Some(
                        ActiveView::Shape { tool, start, end, color, width: w },
                    ),
                    None => None,
                },
                ..v
            }
        } else {
            OverlayView { width: w, ..v }
        }
    }
}

/// What the application does after a wheel notch: report the width,
/// redraw, and rebuild the cursor of the tools that show the width.
pub open spec fn wheel_effects(v: OverlayView, delta: int) -> Effects {
    if !v.visible || delta == 0 || !wheel_sizes(v) {
        no_effects()
    } else {
        Effects {
            refresh: true,
            width_changed: Some(stepped_width(v, delta)),
            cursor: if v.tool == NativeTool::Eraser || v.tool == NativeTool::Number || is_stamp_tool(
                v.tool,
            ) {
                CursorChange::Rebuild { apply_now: true }
            } else {
                CursorChange::Keep
            },
            ..no_effects()
        }
    }
}

/// Virtual-key code of Enter.
pub const VK_RETURN: u32 = 0x0d;

/// Virtual-key code of Backspace.
pub const VK_BACK: u32 = 0x08;

/// Virtual-key code of Escape.
pub const VK_ESCAPE: u32 = 0x1b;

/// The state after a key press while the overlay has the focus: with text
/// being typed, Enter commits it, Backspace removes its last character and
/// Escape drops it; other keys and keys without an editor change nothing.
pub open spec fn key_result(v: OverlayView, code: u32) -> OverlayView {
    match v.edit {
        None => v,
        Some(e) => if code == VK_RETURN {
            after_commit(v)
        } else if code == VK_BACK {
            OverlayView {
                edit: Some(
                    EditView { text: if e.text.len() > 0 { e.text.drop_last() } else { e.text }, ..e },
                ),
                ..v
            }
        } else if code == VK_ESCAPE {
            OverlayView { edit: None, ..v }
        } else {
            v
        },
    }
}

/// What the application does after a key press.
pub open spec fn key_effects(v: OverlayView, code: u32) -> Effects {
    if v.edit is Some && (code == VK_RETURN || code == VK_BACK || code == VK_ESCAPE) {
        Effects {
            refresh: true,
            history: if code == VK_RETURN && commit_adds_text(v) {
                Some(true)
            } else {
                None
            },
            ..no_effects()
        }
    } else {
        no_effects()
    }
}

/// Whether a code is a Unicode scalar value.
pub open spec fn is_scalar(code: u32) -> bool {
    code <= 0x10ffff && !(0xd800 <= code <= 0xdfff)
}

/// Whether a typed character code is added to the text being typed: there
/// is an editor, the code is not Backspace, Enter or Escape (which arrive
/// as key presses), it is a character and not a control character.
pub open spec fn char_accepted(v: OverlayView, code: u32) -> bool {
    &&& v.edit is Some
    &&& code != 8 && code != 13 && code != 27
    &&& is_scalar(code)
    &&& !crate::overlay::is_control_char(code as char)
}

/// `char::from_u32`: the character with the given code, if the code is a
/// Unicode scalar value; its documentation gives no other case.
#[verifier::external_body]
fn char_from_code(code: u32) -> (c: Option<char>)
    ensures
        c is Some <==> is_scalar(code),
        c matches Some(ch) ==> ch as u32 == code && ch == code as char,
{
    char::from_u32(code)
}

impl OverlayState {
    /// A wheel notch over the overlay; `delta` is the signed rotation that
    /// the message carries (see `wheel_result` and `wheel_effects`).
    pub fn wheel(&mut self, delta: i32) -> (fx: Effects)
        requires
            overlay_wf(old(self)@),
        ensures
            final(self)@ == wheel_result(old(self)@, delta as int),
            fx == wheel_effects(old(self)@, delta as int),
            overlay_wf(final(self)@),
    {
        let mut fx = effects_none();
        if !self.visible || delta == 0 {
            return fx;
        }
        let step: i32 = if delta > 0 { 1 } else { -1 };
        let sum = self.width + step;
        let width: i32 = if sum < 1 { 1 } else if sum > 15 { 15 } else { sum };
        if matches!(self.tool, NativeTool::Text) && self.edit.is_some() {
            self.width = width;
            let edit = self.edit.take();
            self.edit = match edit {
                Some(e) => Some(EditSession { width, ..e }),
                None => None,
            };
            fx.width_changed = Some(width);
            fx.refresh = true;
            return fx;
        }
        if matches!(
            self.tool,
            NativeTool::Eraser | NativeTool::Number | NativeTool::CheckMark | NativeTool::CrossMark
        ) {
            self.width = width;
            fx.cursor = CursorChange::Rebuild { apply_now: true };
            fx.width_changed = Some(width);
            fx.refresh = true;
            return fx;
        }
        if matches!(
            self.tool,
            NativeTool::Pen | NativeTool::Line | NativeTool::Arrow | NativeTool::Rectangle
                | NativeTool::Ellipse
        ) {
            self.width = width;
            let active = self.active.take();
            self.active = match active {
                Some(ActiveDrawing::Stroke { points, color, erase, .. }) => Some(
                    ActiveDrawing::Stroke { points, color, width, erase },
                ),
                Some(ActiveDrawing::Shape { tool, start, end, color, .. }) => Some(
                    ActiveDrawing::Shape { tool, start, end, color, width },
                ),
                None => None,
            };
            fx.width_changed = Some(width);
            fx.refresh = true;
            return fx;
        }
        fx
    }

    /// A key press while the overlay has the keyboard focus (see
    /// `key_result` and `key_effects`).
    pub fn key_down(&mut self, code: u32) -> (fx: Effects)
        requires
            overlay_wf(old(self)@),
        ensures
            final(self)@ == key_result(old(self)@, code),
            fx == key_effects(old(self)@, code),
            overlay_wf(final(self)@),
    {
        let mut fx = effects_none();
        if self.edit.is_none() {
            return fx;
        }
        if code == VK_RETURN {
            let added = self.commit_text_editor();
            if added {
                fx.history = Some(true);
            }
            fx.refresh = true;
        } else if code == VK_BACK {
            let edit = self.edit.take();
            self.edit = match edit {
                Some(mut e) => {
                    let ghost t = e.text@;
                    let _ = e.text.pop();
                    proof {
                        if t.len() > 0 {
                            assert(e.text@ =~= t.drop_last());
                        }
                    }
                    Some(e)
                },
                None => None,
            };
            fx.refresh = true;
        } else if code == VK_ESCAPE {
            self.cancel_text_editor();
            fx.refresh = true;
        }
        fx
    }

    /// A character typed while the overlay has the keyboard focus: it is
    /// added to the text being typed when `char_accepted` holds.
    pub fn type_char(&mut self, code: u32) -> (fx: Effects)
        requires
            overlay_wf(old(self)@),
        ensures
            final(self)@ == if char_accepted(old(self)@, code) {
                OverlayView {
                    edit: Some(
                        EditView { text: old(self)@.edit->0.text.push(code as char), ..old(self)@.edit->0 },
                    ),
                    ..old(self)@
                }
            } else {
                old(self)@
            },
            fx == if char_accepted(old(self)@, code) {
                Effects { refresh: true, ..no_effects() }
            } else {
                no_effects()
            },
            overlay_wf(final(self)@),
    {
        let mut fx = effects_none();
        if self.edit.is_none() || code == 8 || code == 13 || code == 27 {
            return fx;
        }
        if let Some(ch) = char_from_code(code) {
            if !crate::overlay::is_control_character(ch) {
                let edit = self.edit.take();
                self.edit = match edit {
                    Some(mut e) => {
                        e.text.push(ch);
                        Some(e)
                    },
                    None => None,
                };
                fx.refresh = true;
            }
        }
        fx
    }

    /// The editor's commit message: typed text is committed (see
    /// `after_commit`) and the canvas redrawn.
    pub fn commit_text(&mut self) -> (fx: Effects)
        requires
            overlay_wf(old(self)@),
        ensures
            final(self)@ == after_commit(old(self)@),
            fx == (Effects {
                refresh: true,
                history: if commit_adds_text(old(self)@) { Some(true) } else { None },
                ..no_effects()
            }),
            overlay_wf(final(self)@),
    {
        let added = self.commit_text_editor();
        let mut fx = effects_none();
        if added {
            fx.history = Some(true);
        }
        fx.refresh = true;
        fx
    }

    /// The editor's cancel message: typed text is dropped and the canvas
    /// redrawn.
    pub fn cancel_text(&mut self) -> (fx: Effects)
        ensures
            final(self)@ == (OverlayView { edit: None, ..old(self)@ }),
            fx == (Effects { refresh: true, ..no_effects() }),
    {
        self.cancel_text_editor();
        let mut fx = effects_none();
        fx.refresh = true;
        fx
    }
}

/// Undo takes back a drawing just finished: releasing the button over a
/// kept stroke or shape, then undoing, leaves the drawings as they were.
pub proof fn undo_takes_back_a_finished_drawing(v: OverlayView)
    requires
        v.edit is None,
        !(v.tool == NativeTool::Select && v.selection is Some),
        v.active matches Some(a) && kept_on_release(a),
    ensures
        undo_result(release_result(v)).drawings == v.drawings,
        undo_result(release_result(v)).active is None,
{
    let r = release_result(v);
    assert(r.drawings == v.drawings.push(finished_item(v.active->0)));
    assert(r.drawings.drop_last() =~= v.drawings);
}

/// Undo takes back a numbered marker just placed, and the numbering
/// returns to where it was, when it followed the markers before.
pub proof fn undo_takes_back_a_marker(v: OverlayView, point: Point)
    requires
        press_accepted(v, point),
        v.tool == NativeTool::Number,
        v.edit is None,
        v.next_number == next_marker(v.drawings),
    ensures
        undo_result(press_result(v, point)).drawings == v.drawings,
        undo_result(press_result(v, point)).next_number == v.next_number,
{
    let r = press_result(v, point);
    assert(after_commit(v) == v);
    assert(r.drawings.drop_last() =~= v.drawings);
}

/// A drag that neither selects nor moves changes no drawing: a rectangle
/// selection and a resize or rotation (whose geometry the application
/// applies) leave every drawing as it was, and so does a move of zero.
pub proof fn dragging_a_selection_moves_only_the_selection(v: OverlayView, point: Point, bounds: Seq<Rect>, i: int)
    requires
        v.selection is Some,
        0 <= i < v.drawings.len(),
        !v.selected.contains(i as usize),
    ensures
        selection_dragged(v, point, bounds).drawings[i] == v.drawings[i],
        selection_dragged(v, point, bounds).drawings.len() == v.drawings.len(),
{
}

/// Adding an item that is not a marker leaves the largest marker number
/// as it was; adding a marker raises it to that marker's number if larger.
proof fn lemma_max_marker_push(s: Seq<ItemView>, x: ItemView)
    ensures
        max_marker(s.push(x)) == match x {
            ItemView::Number { value, .. } => if value > max_marker(s) { value as int } else { max_marker(s) },
            _ => max_marker(s),
        },
{
    assert(s.push(x).drop_last() =~= s);
}

/// Whether the next marker number is one past the largest marker shown.
pub open spec fn numbering_follows_markers(v: OverlayView) -> bool {
    v.next_number == next_marker(v.drawings)
}

/// The numbering keeps following the markers through presses, releases
/// and undo: after a marker is placed the next one shows the number after
/// it, and other drawings do not change it.
pub proof fn numbering_follows_markers_through_edits(v: OverlayView, point: Point)
    requires
        numbering_follows_markers(v),
    ensures
        numbering_follows_markers(press_result(v, point)),
        numbering_follows_markers(release_result(v)),
        numbering_follows_markers(undo_result(v)),
{
    if let Some(e) = v.edit {
        if crate::overlay::trim_ws(e.text).len() > 0 {
            lemma_max_marker_push(v.drawings, crate::overlay::committed_text(e));
        }
    }
    let c = after_commit(v);
    assert(numbering_follows_markers(c));
    if press_accepted(v, point) {
        if v.tool == NativeTool::Number {
            let marker = ItemView::Number {
                center: point,
                value: v.next_number,
                color: v.color,
                width: item_width(v),
                rotation: 0,
                group: None,
            };
            lemma_max_marker_push(c.drawings, marker);
            crate::overlay::lemma_max_marker_le(c.drawings);
        } else if is_stamp_tool(v.tool) {
            let r = number_radius_spec(v.width as int);
            lemma_max_marker_push(
                c.drawings,
                ItemView::Shape {
                    tool: v.tool,
                    start: Point { x: (point.x - r) as i32, y: (point.y - r) as i32 },
                    end: Point { x: (point.x + r) as i32, y: (point.y + r) as i32 },
                    color: v.color,
                    width: item_width(v),
                    rotation: 0,
                    group: None,
                },
            );
        }
    }
    if let Some(a) = v.active {
        lemma_max_marker_push(v.drawings, finished_item(a));
    }
}

/// A shape is drawn from where the button went down to where it was
/// dragged: a press at `p` with the line, arrow, rectangle or ellipse tool,
/// a drag to `q` and the release add one shape of that tool, from `p` to
/// `q`, after the drawings as the press left them.
pub proof fn dragged_shape_spans_the_drag(v: OverlayView, p: Point, q: Point, bounds: Seq<Rect>)
    requires
        press_accepted(v, p),
        is_shape_tool(v.tool),
    ensures
        ({
            let pressed = press_result(v, p);
            let released = release_result(drag_result(pressed, q, bounds));
            &&& released.active is None
            &&& released.drawings.len() == pressed.drawings.len() + 1
            &&& released.drawings.drop_last() == pressed.drawings
            &&& released.drawings.last() matches ItemView::Shape { tool, start, end, color, .. }
                && tool == v.tool && start == p && end == q && color == v.color
        }),
{
    let pressed = press_result(v, p);
    let dragged = drag_result(pressed, q, bounds);
    let released = release_result(dragged);
    assert(released.drawings.drop_last() =~= pressed.drawings);
}

/// Dragging moves only the far end of a shape being drawn: its tool,
/// start, color and width stay, and its end is where the pointer is.
pub proof fn dragging_moves_the_shape_end(v: OverlayView, q: Point, bounds: Seq<Rect>)
    requires
        v.visible,
        v.tool != NativeTool::Pointer,
        v.tool != NativeTool::Select || v.selection is None,
        v.active is Some,
        v.active->0 is Shape,
    ensures
        ({
            let before = v.active->0;
            let after = drag_result(v, q, bounds).active;
            &&& after is Some
            &&& after->0 matches ActiveView::Shape { tool, start, end, color, width }
                && before matches ActiveView::Shape { tool: t0, start: s0, color: c0, width: w0, .. }
                && tool == t0 && start == s0 && color == c0 && width == w0 && end == q
            &&& drag_result(v, q, bounds).drawings == v.drawings
        }),
{
}

/// A press of the selection tool on a drawing that is not selected (and
/// not on a handle of the selection frame) selects exactly the drawings
/// of its group, in increasing order: the drawing alone when it has no
/// group. The move that follows then carries the whole group.
pub proof fn pressing_a_drawing_selects_its_group(
    v: OverlayView,
    point: Point,
    on_handle: bool,
    bounds: Seq<Rect>,
    i: usize,
)
    requires
        v.drawings.len() <= usize::MAX,
        bounds.len() == v.drawings.len(),
        !(on_handle && v.selected.len() > 0),
        last_hit(bounds, point) == Some(i),
        !v.selected.contains(i),
    ensures
        ({
            let s = selection_begun(v, point, on_handle, bounds).selected;
            &&& forall|a: int, b: int| 0 <= a < b < s.len() ==> s[a] < s[b]
            &&& forall|a: int| 0 <= a < s.len() ==> #[trigger] s[a] < v.drawings.len()
            &&& s.contains(i)
            &&& forall|k: int|
                0 <= k < v.drawings.len() ==> (#[trigger] s.contains(k as usize) <==> (k == i || (
                item_group(v.drawings[k]) is Some && item_group(v.drawings[k]) == item_group(
                v.drawings[i as int]))))
        }),
{
    lemma_last_hit(bounds, point);
    crate::selection::click_selects_whole_group(v.drawings, i as int);
}

/// A press of the selection tool (not on a handle of the selection frame)
/// on a drawing already selected keeps the selection, so a move carries
/// all of it; a press that hits no drawing empties the selection. Either
/// way a drag begins at the press.
pub proof fn pressing_keeps_or_clears_the_selection(
    v: OverlayView,
    point: Point,
    on_handle: bool,
    bounds: Seq<Rect>,
)
    requires
        !(on_handle && v.selected.len() > 0),
    ensures
        ({
            let after = selection_begun(v, point, on_handle, bounds);
            &&& after.drawings == v.drawings
            &&& after.selection matches Some(s) && s.start == point && s.current == point
            &&& (last_hit(bounds, point) is Some && v.selected.contains(last_hit(bounds, point)->0))
                ==> after.selected == v.selected
            &&& last_hit(bounds, point) is None ==> after.selected.len() == 0
        }),
{
}

/// Dragging a pen or eraser stroke appends the pointer's position to its
/// points and keeps everything else about it.
pub proof fn dragging_extends_a_stroke(v: OverlayView, q: Point, bounds: Seq<Rect>)
    requires
        v.visible,
        v.tool != NativeTool::Pointer,
        v.tool != NativeTool::Select || v.selection is None,
        v.active is Some,
        v.active->0 is Stroke,
    ensures
        ({
            let after = drag_result(v, q, bounds).active;
            &&& after is Some
            &&& after->0 matches ActiveView::Stroke { points, color, width, erase }
                && v.active->0 matches ActiveView::Stroke { points: p0, color: c0, width: w0, erase: e0 }
                && points.len() == p0.len() + 1 && points.drop_last() == p0 && points.last() == q
                && color == c0 && width == w0 && erase == e0
        }),
{
    let a = v.active->0;
    if let ActiveView::Stroke { points, .. } = a {
        assert(points.push(q).drop_last() =~= points);
    }
}

} // verus!
