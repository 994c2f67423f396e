use vstd::prelude::*;
use vstd::string::StringSliceAdditionalSpecFns;

use crate::native_drawing::{
    drawing_color_spec, parse_color, NativeTool, Point, Rect, DRAWING_FALLBACK_RGB,
    TRANSPARENT_KEY,
};

verus! {

/// A finished drawing. `rotation` holds the bits of the IEEE-754 double
/// that gives the item's angle in radians; items are created unrotated
/// (zero) and only the application's geometry turns them.
#[derive(Clone, Debug)]
pub enum DrawingItem {
    Stroke {
        points: Vec<Point>,
        color: u32,
        width: i32,
        erase: bool,
        rotation: u64,
        group: Option<u64>,
    },
    Shape {
        tool: NativeTool,
        start: Point,
        end: Point,
        color: u32,
        width: i32,
        rotation: u64,
        group: Option<u64>,
    },
    Text {
        start: Point,
        text: Vec<char>,
        color: u32,
        width: i32,
        rotation: u64,
        group: Option<u64>,
    },
    Number {
        center: Point,
        value: u32,
        color: u32,
        width: i32,
        rotation: u64,
        group: Option<u64>,
    },
}

/// The mathematical value of a `DrawingItem`.
pub enum ItemView {
    Stroke {
        points: Seq<Point>,
        color: u32,
        width: i32,
        erase: bool,
        rotation: u64,
        group: Option<u64>,
    },
    Shape {
        tool: NativeTool,
        start: Point,
        end: Point,
        color: u32,
        width: i32,
        rotation: u64,
        group: Option<u64>,
    },
    Text {
        start: Point,
        text: Seq<char>,
        color: u32,
        width: i32,
        rotation: u64,
        group: Option<u64>,
    },
    Number {
        center: Point,
        value: u32,
        color: u32,
        width: i32,
        rotation: u64,
        group: Option<u64>,
    },
}

impl View for DrawingItem {
    type V = ItemView;

    open spec fn view(&self) -> ItemView {
        match self {
            DrawingItem::Stroke { points, color, width, erase, rotation, group } => ItemView::Stroke {
                points: points@,
                color: *color,
                width: *width,
                erase: *erase,
                rotation: *rotation,
                group: *group,
            },
            DrawingItem::Shape { tool, start, end, color, width, rotation, group } =>
                ItemView::Shape {
                tool: *tool,
                start: *start,
                end: *end,
                color: *color,
                width: *width,
                rotation: *rotation,
                group: *group,
            },
            DrawingItem::Text { start, text, color, width, rotation, group } => ItemView::Text {
                start: *start,
                text: text@,
                color: *color,
                width: *width,
                rotation: *rotation,
                group: *group,
            },
            DrawingItem::Number { center, value, color, width, rotation, group } =>
                ItemView::Number {
                center: *center,
                value: *value,
                color: *color,
                width: *width,
                rotation: *rotation,
                group: *group,
            },
        }
    }
}

/// The group of an item, if it belongs to one.
pub open spec fn item_group(v: ItemView) -> Option<u64> {
    match v {
        ItemView::Stroke { group, .. } => group,
        ItemView::Shape { group, .. } => group,
        ItemView::Text { group, .. } => group,
        ItemView::Number { group, .. } => group,
    }
}

/// The item with its group replaced.
pub open spec fn with_group(v: ItemView, g: Option<u64>) -> ItemView {
    match v {
        ItemView::Stroke { points, color, width, erase, rotation, .. } => ItemView::Stroke {
            points,
            color,
            width,
            erase,
            rotation,
            group: g,
        },
        ItemView::Shape { tool, start, end, color, width, rotation, .. } => ItemView::Shape {
            tool,
            start,
            end,
            color,
            width,
            rotation,
            group: g,
        },
        ItemView::Text { start, text, color, width, rotation, .. } => ItemView::Text {
            start,
            text,
            color,
            width,
            rotation,
            group: g,
        },
        ItemView::Number { center, value, color, width, rotation, .. } => ItemView::Number {
            center,
            value,
            color,
            width,
            rotation,
            group: g,
        },
    }
}

/// The drawing in progress while the button is held.
pub enum ActiveDrawing {
    Stroke { points: Vec<Point>, color: u32, width: i32, erase: bool },
    Shape { tool: NativeTool, start: Point, end: Point, color: u32, width: i32 },
}

/// The mathematical value of an `ActiveDrawing`.
pub enum ActiveView {
    Stroke { points: Seq<Point>, color: u32, width: i32, erase: bool },
    Shape { tool: NativeTool, start: Point, end: Point, color: u32, width: i32 },
}

impl View for ActiveDrawing {
    type V = ActiveView;

    open spec fn view(&self) -> ActiveView {
        match self {
            ActiveDrawing::Stroke { points, color, width, erase } => ActiveView::Stroke {
                points: points@,
                color: *color,
                width: *width,
                erase: *erase,
            },
            ActiveDrawing::Shape { tool, start, end, color, width } => ActiveView::Shape {
                tool: *tool,
                start: *start,
                end: *end,
                color: *color,
                width: *width,
            },
        }
    }
}

/// Text being typed on the canvas.
pub struct EditSession {
    pub start: Point,
    pub text: Vec<char>,
    pub color: u32,
    pub width: i32,
}

/// The mathematical value of an `EditSession`.
pub struct EditView {
    pub start: Point,
    pub text: Seq<char>,
    pub color: u32,
    pub width: i32,
}

impl View for EditSession {
    type V = EditView;

    open spec fn view(&self) -> EditView {
        EditView { start: self.start, text: self.text@, color: self.color, width: self.width }
    }
}

/// What a drag with the selection tool does.
#[derive(Clone, Copy, PartialEq, Eq, Structural, Debug)]
pub enum SelectionAction {
    /// Selects what a rectangle touches.
    Marquee,
    /// Moves the selection; `last` is where the pointer was last seen.
    Move { last: Point },
    /// Resizes or rotates the selection from one of its handles; the
    /// geometry of the transform is held by the application.
    Transform,
}

/// A drag with the selection tool.
#[derive(Clone, Copy, PartialEq, Eq, Structural, Debug)]
pub struct SelectionSession {
    pub start: Point,
    pub current: Point,
    pub action: SelectionAction,
}

/// The drawing overlay's document and tool state.
pub struct OverlayState {
    pub tool: NativeTool,
    pub color: u32,
    pub width: i32,
    pub drawings: Vec<DrawingItem>,
    pub active: Option<ActiveDrawing>,
    pub click_through: bool,
    pub visible: bool,
    pub bounds: Rect,
    pub toolbar_passthrough: Option<Rect>,
    pub edit: Option<EditSession>,
    pub selected: Vec<usize>,
    pub selection: Option<SelectionSession>,
    pub next_group_id: u64,
    pub next_number: u32,
}

/// The mathematical value of an `OverlayState`.
pub struct OverlayView {
    pub tool: NativeTool,
    pub color: u32,
    pub width: i32,
    pub drawings: Seq<ItemView>,
    pub active: Option<ActiveView>,
    pub click_through: bool,
    pub visible: bool,
    pub bounds: Rect,
    pub toolbar_passthrough: Option<Rect>,
    pub edit: Option<EditView>,
    pub selected: Seq<usize>,
    pub selection: Option<SelectionSession>,
    pub next_group_id: u64,
    pub next_number: u32,
}

/// The views of a list of items.
pub open spec fn item_views(v: Seq<DrawingItem>) -> Seq<ItemView> {
    v.map_values(|d: DrawingItem| d@)
}

impl View for OverlayState {
    type V = OverlayView;

    open spec fn view(&self) -> OverlayView {
        OverlayView {
            tool: self.tool,
            color: self.color,
            width: self.width,
            drawings: item_views(self.drawings@),
            active: match self.active {
                Some(a) => Some(a@),
                None => None,
            },
            click_through: self.click_through,
            visible: self.visible,
            bounds: self.bounds,
            toolbar_passthrough: self.toolbar_passthrough,
            edit: match self.edit {
                Some(e) => Some(e@),
                None => None,
            },
            selected: self.selected@,
            selection: self.selection,
            next_group_id: self.next_group_id,
            next_number: self.next_number,
        }
    }
}

/// Whether a rectangle can hold the overlay: not inverted, and its width
/// and height fit in `i32`.
pub open spec fn bounds_ok(b: Rect) -> bool {
    &&& b.left <= b.right
    &&& b.top <= b.bottom
    &&& b.right - b.left <= i32::MAX
    &&& b.bottom - b.top <= i32::MAX
}

/// The selected indices are increasing and name drawings.
pub open spec fn selection_ok(selected: Seq<usize>, n: int) -> bool {
    &&& forall|i: int| 0 <= i < selected.len() ==> #[trigger] selected[i] < n
    &&& forall|i: int, j: int| 0 <= i < j < selected.len() ==> selected[i] < selected[j]
}

/// The overlay state's invariant.
pub open spec fn overlay_wf(v: OverlayView) -> bool {
    &&& 1 <= v.width <= 15
    &&& v.next_number >= 1
    &&& v.next_group_id >= 1
    &&& bounds_ok(v.bounds)
    &&& selection_ok(v.selected, v.drawings.len() as int)
    &&& match v.edit {
        Some(e) => e.start.x + 8 <= i32::MAX && e.start.y + 8 <= i32::MAX,
        None => true,
    }
}

/// How the tool cursor changes after an event.
#[derive(Clone, Copy, PartialEq, Eq, Structural, Debug)]
pub enum CursorChange {
    Keep,
    /// The cursor is rebuilt for the current tool, width, color and next
    /// number; `apply_now` shows it even while the overlay is hidden.
    Rebuild { apply_now: bool },
}

/// What the application has to do after an event changed the overlay.
#[derive(Clone, Copy, PartialEq, Eq, Structural, Debug)]
pub struct Effects {
    /// Redraw the layered canvases.
    pub refresh: bool,
    /// Report whether undo is possible.
    pub history: Option<bool>,
    /// Report the selection (its size and whether it is one group).
    pub selection_changed: bool,
    /// Change of the tool cursor.
    pub cursor: CursorChange,
    /// Put the toolbar above the canvas.
    pub raise_toolbar: bool,
    /// Report a new width.
    pub width_changed: Option<i32>,
    /// Show or hide the input windows as the overlay takes input or not.
    pub sync_input: bool,
    /// Capture the mouse on the input window.
    pub capture: bool,
    /// Release the mouse capture.
    pub release_capture: bool,
    /// Give the keyboard focus to the input window.
    pub focus_input: bool,
    /// Hit-test the drawings at the pointer and begin the selection there.
    pub begin_selection: bool,
}

/// No effect at all.
pub open spec fn no_effects() -> Effects {
    Effects {
        refresh: false,
        history: None,
        selection_changed: false,
        cursor: CursorChange::Keep,
        raise_toolbar: false,
        width_changed: None,
        sync_input: false,
        capture: false,
        release_capture: false,
        focus_input: false,
        begin_selection: false,
    }
}

/// No effect at all.
pub fn effects_none() -> (fx: Effects)
    ensures
        fx == no_effects(),
{
    Effects {
        refresh: false,
        history: None,
        selection_changed: false,
        cursor: CursorChange::Keep,
        raise_toolbar: false,
        width_changed: None,
        sync_input: false,
        capture: false,
        release_capture: false,
        focus_input: false,
        begin_selection: false,
    }
}

/// Whether the tool's cursor shows the width.
pub open spec fn cursor_shows_width(tool: NativeTool) -> bool {
    tool == NativeTool::Eraser || tool == NativeTool::Number || tool == NativeTool::CheckMark
        || tool == NativeTool::CrossMark
}

/// Whether the tool's cursor shows the color.
pub open spec fn cursor_shows_color(tool: NativeTool) -> bool {
    tool == NativeTool::Number || tool == NativeTool::CheckMark || tool == NativeTool::CrossMark
}

/// Whether `c` is white space in the sense of Unicode (`char::is_whitespace`).
pub open spec fn is_white_space(c: char) -> bool {
    ||| c == ' '
    ||| '\t' <= c <= '\r'
    ||| c == '\u{85}'
    ||| c == '\u{a0}'
    ||| c == '\u{1680}'
    ||| '\u{2000}' <= c <= '\u{200a}'
    ||| c == '\u{2028}'
    ||| c == '\u{2029}'
    ||| c == '\u{202f}'
    ||| c == '\u{205f}'
    ||| c == '\u{3000}'
}

/// Whether `c` is a control character (`char::is_control`).
pub open spec fn is_control_char(c: char) -> bool {
    c <= '\u{1f}' || ('\u{7f}' <= c <= '\u{9f}')
}

/// `s` without leading white space.
pub open spec fn trim_start_ws(s: Seq<char>) -> Seq<char>
    decreases s.len(),
{
    if s.len() > 0 && is_white_space(s[0]) {
        trim_start_ws(s.drop_first())
    } else {
        s
    }
}

/// `s` without trailing white space.
pub open spec fn trim_end_ws(s: Seq<char>) -> Seq<char>
    decreases s.len(),
{
    if s.len() > 0 && is_white_space(s.last()) {
        trim_end_ws(s.drop_last())
    } else {
        s
    }
}

/// `s` without white space at either end (`str::trim`).
pub open spec fn trim_ws(s: Seq<char>) -> Seq<char> {
    trim_end_ws(trim_start_ws(s))
}

/// The text item that committing an edit adds, whatever its content.
pub open spec fn committed_text(e: EditView) -> ItemView {
    ItemView::Text {
        start: Point { x: (e.start.x + 8) as i32, y: (e.start.y + 8) as i32 },
        text: trim_ws(e.text),
        color: e.color,
        width: e.width,
        rotation: 0,
        group: None,
    }
}

/// Whether committing the edit adds a text item: there is an edit and its
/// text is not only white space.
pub open spec fn commit_adds_text(v: OverlayView) -> bool {
    match v.edit {
        Some(e) => trim_ws(e.text).len() > 0,
        None => false,
    }
}

/// The state after the text being typed is committed: the trimmed text
/// becomes a text item (when not empty) and the editor closes.
pub open spec fn after_commit(v: OverlayView) -> OverlayView {
    match v.edit {
        Some(e) => if trim_ws(e.text).len() > 0 {
            OverlayView { drawings: v.drawings.push(committed_text(e)), edit: None, ..v }
        } else {
            OverlayView { edit: None, ..v }
        },
        None => v,
    }
}

/// The largest number shown by a numbered marker, 0 when there is none.
pub open spec fn max_marker(items: Seq<ItemView>) -> int
    decreases items.len(),
{
    if items.len() == 0 {
        0
    } else {
        let rest = max_marker(items.drop_last());
        match items.last() {
            ItemView::Number { value, .. } => if value > rest { value as int } else { rest },
            _ => rest,
        }
    }
}

/// The number the next marker shows: one more than the largest shown
/// (held at `u32::MAX`), at least 1.
pub open spec fn next_marker(items: Seq<ItemView>) -> u32 {
    if max_marker(items) >= u32::MAX {
        u32::MAX
    } else {
        (max_marker(items) + 1) as u32
    }
}

/// The items whose index is not listed in `sel`, in their order.
pub open spec fn without_indices<A>(items: Seq<A>, sel: Seq<usize>) -> Seq<A>
    decreases items.len(),
{
    if items.len() == 0 {
        items
    } else {
        let rest = without_indices(items.drop_last(), sel);
        if sel.contains((items.len() - 1) as usize) {
            rest
        } else {
            rest.push(items.last())
        }
    }
}

/// The group that all selected items share, if the selection is not empty
/// and they do.
pub open spec fn common_group(v: OverlayView) -> Option<u64> {
    if v.selected.len() > 0 {
        match item_group(v.drawings[v.selected[0] as int]) {
            Some(g) => if forall|i: int|
                0 <= i < v.selected.len() ==> item_group(#[trigger] v.drawings[v.selected[i] as int])
                    == Some(g) {
                Some(g)
            } else {
                None
            },
            None => None,
        }
    } else {
        None
    }
}

/// The group number that follows `g` (wrapping past the largest, never 0).
pub open spec fn next_group(g: u64) -> u64 {
    if g == u64::MAX {
        1
    } else {
        (g + 1) as u64
    }
}

/// The state after the group button: a selection that is one group is
/// ungrouped (every item of that group, selected or not); otherwise a
/// selection of two or more items becomes a new group; otherwise nothing
/// changes.
pub open spec fn after_toggle_group(v: OverlayView) -> OverlayView {
    if v.selected.len() == 0 {
        v
    } else {
        match common_group(v) {
            Some(g) => OverlayView {
                drawings: Seq::new(
                    v.drawings.len(),
                    |i: int|
                        if item_group(v.drawings[i]) == Some(g) {
                            with_group(v.drawings[i], None)
                        } else {
                            v.drawings[i]
                        },
                ),
                ..v
            },
            None => if v.selected.len() >= 2 {
                OverlayView {
                    drawings: Seq::new(
                        v.drawings.len(),
                        |i: int|
                            if v.selected.contains(i as usize) {
                                with_group(v.drawings[i], Some(v.next_group_id))
                            } else {
                                v.drawings[i]
                            },
                    ),
                    next_group_id: next_group(v.next_group_id),
                    ..v
                }
            } else {
                v
            },
        }
    }
}

/// The state after undo: unless text is being typed, the selection ends,
/// the last drawing goes and the numbering follows the markers left.
pub open spec fn undo_result(v: OverlayView) -> OverlayView {
    if v.edit is Some {
        v
    } else {
        let rest = if v.drawings.len() > 0 { v.drawings.drop_last() } else { v.drawings };
        OverlayView { drawings: rest, selected: seq![], selection: None, next_number: next_marker(rest), ..v }
    }
}

/// The state with the document emptied: no drawings, nothing in progress
/// or selected, numbering restarted.
pub open spec fn emptied(v: OverlayView) -> OverlayView {
    OverlayView {
        drawings: seq![],
        active: None,
        selected: seq![],
        selection: None,
        next_number: 1,
        ..v
    }
}

impl OverlayState {
    /// An empty, hidden overlay with the pen, red and width 5.
    pub fn new() -> (s: Self)
        ensures
            s@ == (OverlayView {
                tool: NativeTool::Pen,
                color: 0x002d_2bef,
                width: 5,
                drawings: seq![],
                active: None,
                click_through: false,
                visible: false,
                bounds: Rect { left: 0, top: 0, right: 0, bottom: 0 },
                toolbar_passthrough: None,
                edit: None,
                selected: seq![],
                selection: None,
                next_group_id: 1,
                next_number: 1,
            }),
            overlay_wf(s@),
    {
        let s = OverlayState {
            tool: NativeTool::Pen,
            color: 0x002d_2bef,
            width: 5,
            drawings: Vec::new(),
            active: None,
            click_through: false,
            visible: false,
            bounds: Rect { left: 0, top: 0, right: 0, bottom: 0 },
            toolbar_passthrough: None,
            edit: None,
            selected: Vec::new(),
            selection: None,
            next_group_id: 1,
            next_number: 1,
        };
        proof {
            assert(item_views(s.drawings@) =~= Seq::<ItemView>::empty());
            assert(s.selected@ =~= Seq::<usize>::empty());
        }
        s
    }

    /// Sets the drawing color from a `#rrggbb` text; the cursor of the
    /// tools that show the color is rebuilt.
    pub fn set_color(&mut self, color: &str) -> (fx: Effects)
        ensures
            final(self)@ == (OverlayView {
                color: drawing_color_spec(color.spec_bytes()) as u32,
                ..old(self)@
            }),
            fx == (Effects {
                cursor: if cursor_shows_color(old(self)@.tool) {
                    CursorChange::Rebuild { apply_now: false }
                } else {
                    CursorChange::Keep
                },
                ..no_effects()
            }),
    {
        self.color = parse_color(color);
        let mut fx = effects_none();
        if matches!(self.tool, NativeTool::Number | NativeTool::CheckMark | NativeTool::CrossMark) {
            fx.cursor = CursorChange::Rebuild { apply_now: false };
        }
        fx
    }

    /// Sets the width, limited to 1..=15; the cursor of the tools that show
    /// the width is rebuilt.
    pub fn set_width(&mut self, width: i32) -> (fx: Effects)
        ensures
            final(self)@ == (OverlayView {
                width: crate::native_drawing::clamp_int(width as int, 1, 15) as i32,
                ..old(self)@
            }),
            fx == (Effects {
                cursor: if cursor_shows_width(old(self)@.tool) {
                    CursorChange::Rebuild { apply_now: false }
                } else {
                    CursorChange::Keep
                },
                ..no_effects()
            }),
    {
        self.width = if width < 1 {
            1
        } else if width > 15 {
            15
        } else {
            width
        };
        let mut fx = effects_none();
        if matches!(
            self.tool,
            NativeTool::Eraser | NativeTool::Number | NativeTool::CheckMark | NativeTool::CrossMark
        ) {
            fx.cursor = CursorChange::Rebuild { apply_now: false };
        }
        fx
    }
}


/// Whether `c` is white space (`char::is_whitespace`).
pub fn is_white_space_char(c: char) -> (res: bool)
    ensures
        res == is_white_space(c),
{
    c == ' ' || ('\t' <= c && c <= '\r') || c == '\u{85}' || c == '\u{a0}' || c == '\u{1680}'
        || ('\u{2000}' <= c && c <= '\u{200a}') || c == '\u{2028}' || c == '\u{2029}' || c
        == '\u{202f}' || c == '\u{205f}' || c == '\u{3000}'
}

/// Whether `c` is a control character (`char::is_control`).
pub fn is_control_character(c: char) -> (res: bool)
    ensures
        res == is_control_char(c),
{
    c <= '\u{1f}' || ('\u{7f}' <= c && c <= '\u{9f}')
}

/// The text without white space at either end.
pub fn trim_text(text: &Vec<char>) -> (res: Vec<char>)
    ensures
        res@ == trim_ws(text@),
{
    let n = text.len();
    let mut a: usize = 0;
    proof {
        assert(text@.subrange(0, n as int) =~= text@);
    }
    while a < n && is_white_space_char(text[a])
        invariant
            a <= n == text@.len(),
            trim_start_ws(text@) == trim_start_ws(text@.subrange(a as int, n as int)),
        decreases n - a,
    {
        proof {
            let rest = text@.subrange(a as int, n as int);
            assert(rest.drop_first() =~= text@.subrange(a + 1, n as int));
        }
        a += 1;
    }
    let ghost t = text@.subrange(a as int, n as int);
    proof {
        assert(trim_start_ws(t) == t);
        assert(t.take(t.len() as int) =~= t);
    }
    let mut b: usize = n;
    while b > a && is_white_space_char(text[b - 1])
        invariant
            a <= b <= n == text@.len(),
            t == text@.subrange(a as int, n as int),
            trim_end_ws(t) == trim_end_ws(t.take(b - a)),
        decreases b - a,
    {
        proof {
            let front = t.take(b - a);
            assert(front.drop_last() =~= t.take(b - 1 - a));
            assert(front.last() == text@[b - 1]);
        }
        b -= 1;
    }
    let mut res: Vec<char> = Vec::new();
    let mut i = a;
    while i < b
        invariant
            a <= i <= b <= n == text@.len(),
            t == text@.subrange(a as int, n as int),
            res@ == text@.subrange(a as int, i as int),
        decreases b - i,
    {
        res.push(text[i]);
        proof {
            assert(res@ =~= text@.subrange(a as int, i + 1));
        }
        i += 1;
    }
    proof {
        assert(res@ =~= t.take(b - a));
        let f = t.take(b - a);
        assert(f.len() == 0 || !is_white_space(f.last()));
    }
    res
}

/// Whether the index `i` is listed.
pub fn index_listed(list: &Vec<usize>, i: usize) -> (res: bool)
    ensures
        res == list@.contains(i),
{
    let mut k: usize = 0;
    while k < list.len()
        invariant
            k <= list@.len(),
            forall|j: int| 0 <= j < k ==> list@[j] != i,
        decreases list@.len() - k,
    {
        if list[k] == i {
            proof {
                assert(list@[k as int] == i);
            }
            return true;
        }
        k += 1;
    }
    false
}

/// Changes the group of an item.
pub fn set_drawing_group(drawing: &mut DrawingItem, value: Option<u64>)
    ensures
        final(drawing)@ == with_group(old(drawing)@, value),
{
    match drawing {
        DrawingItem::Stroke { group, .. } => *group = value,
        DrawingItem::Shape { group, .. } => *group = value,
        DrawingItem::Text { group, .. } => *group = value,
        DrawingItem::Number { group, .. } => *group = value,
    }
}

/// The group of an item, if it belongs to one.
pub fn drawing_group(drawing: &DrawingItem) -> (g: Option<u64>)
    ensures
        g == item_group(drawing@),
{
    match drawing {
        DrawingItem::Stroke { group, .. } => *group,
        DrawingItem::Shape { group, .. } => *group,
        DrawingItem::Text { group, .. } => *group,
        DrawingItem::Number { group, .. } => *group,
    }
}

/// Replacing one item replaces its view.
pub proof fn lemma_item_views_update(v: Seq<DrawingItem>, i: int, x: DrawingItem)
    requires
        0 <= i < v.len(),
    ensures
        item_views(v.update(i, x)) == item_views(v).update(i, x@),
{
    assert(item_views(v.update(i, x)) =~= item_views(v).update(i, x@));
}

impl OverlayState {
    /// Closes the text editor, committing its trimmed text as a text item
    /// when it is not empty. Gives whether an item was added.
    pub fn commit_text_editor(&mut self) -> (added: bool)
        requires
            overlay_wf(old(self)@),
        ensures
            added == commit_adds_text(old(self)@),
            final(self)@ == after_commit(old(self)@),
            overlay_wf(final(self)@),
    {
        let ghost o = self@;
        let edit = self.edit.take();
        match edit {
            None => {
                proof {
                    assert(self@ == o);
                }
                false
            },
            Some(e) => {
                let text = trim_text(&e.text);
                if text.len() > 0 {
                    let item = DrawingItem::Text {
                        start: Point { x: e.start.x + 8, y: e.start.y + 8 },
                        text,
                        color: e.color,
                        width: e.width,
                        rotation: 0,
                        group: None,
                    };
                    self.drawings.push(item);
                    proof {
                        assert(item_views(self.drawings@) =~= o.drawings.push(committed_text(e@)));
                        assert(self@ == after_commit(o));
                    }
                    true
                } else {
                    proof {
                        assert(self@ == after_commit(o));
                    }
                    false
                }
            },
        }
    }

    /// Closes the text editor without keeping its text.
    pub fn cancel_text_editor(&mut self)
        ensures
            final(self)@ == (OverlayView { edit: None, ..old(self)@ }),
    {
        self.edit = None;
    }

    /// Empties the document and restarts the numbering.
    fn empty_document(&mut self)
        ensures
            final(self)@ == emptied(old(self)@),
    {
        self.drawings.clear();
        self.active = None;
        self.selected.clear();
        self.selection = None;
        self.next_number = 1;
        proof {
            assert(item_views(self.drawings@) =~= Seq::<ItemView>::empty());
            assert(self.selected@ =~= Seq::<usize>::empty());
        }
    }

    /// Sets the next marker number from the markers left in the document.
    pub fn sync_next_number(&mut self)
        ensures
            final(self)@ == (OverlayView { next_number: next_marker(old(self)@.drawings), ..old(self)@ }),
            final(self)@.next_number >= 1,
    {
        let ghost items = self@.drawings;
        let mut best: u32 = 0;
        let mut i: usize = 0;
        while i < self.drawings.len()
            invariant
                i <= self.drawings@.len(),
                items == item_views(self.drawings@),
                best as int == max_marker(items.take(i as int)),
            decreases self.drawings@.len() - i,
        {
            proof {
                assert(items.take(i + 1).drop_last() =~= items.take(i as int));
                assert(items.take(i + 1).last() == self.drawings@[i as int]@);
            }
            match &self.drawings[i] {
                DrawingItem::Number { value, .. } => {
                    if *value > best {
                        best = *value;
                    }
                },
                _ => {},
            }
            i += 1;
        }
        proof {
            assert(items.take(self.drawings@.len() as int) =~= items);
        }
        self.next_number = if best == u32::MAX { u32::MAX } else { best + 1 };
    }

    /// Removes the selected drawings (if any are selected) and ends the
    /// selection.
    pub fn delete_selected(&mut self)
        requires
            overlay_wf(old(self)@),
        ensures
            old(self)@.selected.len() == 0 ==> final(self)@ == old(self)@,
            old(self)@.selected.len() > 0 ==> final(self)@ == (OverlayView {
                drawings: without_indices(old(self)@.drawings, old(self)@.selected),
                selected: seq![],
                selection: None,
                ..old(self)@
            }),
            overlay_wf(final(self)@),
    {
        if self.selected.len() == 0 {
            return;
        }
        let ghost o = self@;
        let mut rest: Vec<DrawingItem> = Vec::new();
        std::mem::swap(&mut rest, &mut self.drawings);
        let mut kept: Vec<DrawingItem> = Vec::new();
        let mut i: usize = 0;
        let total_len = rest.len();
        let ghost total = total_len as int;
        while rest.len() > 0
            invariant
                total <= usize::MAX,
                i + rest@.len() == total == o.drawings.len(),
                item_views(rest@) == o.drawings.skip(i as int),
                item_views(kept@) == without_indices(o.drawings.take(i as int), o.selected),
                self.selected@ == o.selected,
            decreases rest@.len(),
        {
            let ghost before = rest@;
            let item = rest.remove(0);
            proof {
                assert(item_views(before)[0] == before[0]@);
                assert forall|k: int| 0 <= k < rest@.len() implies #[trigger] item_views(rest@)[k]
                    == o.drawings.skip(i + 1)[k] by {
                    assert(item_views(before)[k + 1] == before[k + 1]@);
                    assert(o.drawings.skip(i as int)[k + 1] == o.drawings.skip(i + 1)[k]);
                }
                assert(item_views(rest@) =~= o.drawings.skip(i + 1));
                assert(item@ == o.drawings[i as int]);
                assert(o.drawings.take(i + 1).drop_last() =~= o.drawings.take(i as int));
            }
            if !index_listed(&self.selected, i) {
                let ghost k = kept@;
                kept.push(item);
                proof {
                    assert(item_views(kept@) =~= item_views(k).push(item@));
                }
            }
            i += 1;
        }
        proof {
            assert(o.drawings.take(total as int) =~= o.drawings);
        }
        self.drawings = kept;
        self.selected.clear();
        self.selection = None;
        proof {
            assert(self.selected@ =~= Seq::<usize>::empty());
        }
    }

    /// The group that all selected items share, if there is one.
    pub fn selected_common_group(&self) -> (g: Option<u64>)
        requires
            overlay_wf(self@),
        ensures
            g == common_group(self@),
    {
        if self.selected.len() == 0 {
            return None;
        }
        let first = drawing_group(&self.drawings[self.selected[0]]);
        proof {
            let idx = self@.selected[0] as int;
            assert(self@.drawings[idx] == self.drawings@[idx]@);
        }
        match first {
            None => None,
            Some(group) => {
                let mut i: usize = 0;
                while i < self.selected.len()
                    invariant
                        overlay_wf(self@),
                        i <= self.selected@.len(),
                        self@.selected.len() > 0,
                        item_group(self@.drawings[self@.selected[0] as int]) == Some(group),
                        forall|k: int|
                            0 <= k < i ==> item_group(#[trigger] self@.drawings[self@.selected[k] as int])
                                == Some(group),
                    decreases self.selected@.len() - i,
                {
                    if drawing_group(&self.drawings[self.selected[i]]) != Some(group) {
                        proof {
                            let idx = self@.selected[i as int] as int;
                            assert(self@.drawings[idx] == self.drawings@[idx]@);
                            let v = self@;
                            assert(item_group(v.drawings[v.selected[i as int] as int]) != Some(group));
                            assert(!(forall|k: int|
                                0 <= k < v.selected.len() ==> item_group(#[trigger] v.drawings[v.selected[k] as int])
                                    == Some(group)));
                            assert(item_group(v.drawings[v.selected[0] as int]) == Some(group));
                            assert(common_group(v) is None);
                        }
                        return None;
                    }
                    proof {
                        let idx = self@.selected[i as int] as int;
                        assert(self@.drawings[idx] == self.drawings@[idx]@);
                    }
                    i += 1;
                }
                Some(group)
            },
        }
    }

    /// Groups or ungroups the selection (see `after_toggle_group`).
    pub fn toggle_selected_group(&mut self)
        requires
            overlay_wf(old(self)@),
        ensures
            final(self)@ == after_toggle_group(old(self)@),
            overlay_wf(final(self)@),
    {
        let ghost o = self@;
        if self.selected.len() == 0 {
            return;
        }
        match self.selected_common_group() {
            Some(g) => {
                let mut i: usize = 0;
                while i < self.drawings.len()
                    invariant
                        i <= self.drawings@.len() == o.drawings.len(),
                        self@ == (OverlayView { drawings: self@.drawings, ..o }),
                        forall|k: int|
                            0 <= k < i ==> #[trigger] self@.drawings[k] == if item_group(o.drawings[k])
                                == Some(g) {
                                with_group(o.drawings[k], None)
                            } else {
                                o.drawings[k]
                            },
                        forall|k: int| i <= k < o.drawings.len() ==> #[trigger] self@.drawings[k] == o.drawings[k],
                    decreases o.drawings.len() - i,
                {
                    proof {
                        assert(self@.drawings[i as int] == self.drawings@[i as int]@);
                    }
                    if drawing_group(&self.drawings[i]) == Some(g) {
                        let ghost before = self.drawings@;
                        set_drawing_group(&mut self.drawings[i], None);
                        proof {
                            lemma_item_views_update(before, i as int, self.drawings@[i as int]);
                            assert(self.drawings@ == before.update(i as int, self.drawings@[i as int]));
                        }
                    }
                    i += 1;
                }
                proof {
                    assert(self@.drawings =~= after_toggle_group(o).drawings);
                }
            },
            None => {
                if self.selected.len() >= 2 {
                    let group = self.next_group_id;
                    let mut i: usize = 0;
                    while i < self.drawings.len()
                        invariant
                            i <= self.drawings@.len() == o.drawings.len(),
                            self@ == (OverlayView { drawings: self@.drawings, ..o }),
                            group == o.next_group_id,
                            forall|k: int|
                                0 <= k < i ==> #[trigger] self@.drawings[k] == if o.selected.contains(
                                    k as usize,
                                ) {
                                    with_group(o.drawings[k], Some(group))
                                } else {
                                    o.drawings[k]
                                },
                            forall|k: int| i <= k < o.drawings.len() ==> #[trigger] self@.drawings[k] == o.drawings[k],
                        decreases o.drawings.len() - i,
                    {
                        proof {
                            assert(self@.drawings[i as int] == self.drawings@[i as int]@);
                        }
                        let listed = index_listed(&self.selected, i);
                        if listed {
                            let ghost before = self.drawings@;
                            set_drawing_group(&mut self.drawings[i], Some(group));
                            proof {
                                lemma_item_views_update(before, i as int, self.drawings@[i as int]);
                                assert(self.drawings@ == before.update(i as int, self.drawings@[i as int]));
                            }
                        }
                        proof {
                            assert(listed == o.selected.contains((i as int) as usize));
                        }
                        i += 1;
                    }
                    self.next_group_id = if group == u64::MAX { 1 } else { group + 1 };
                    proof {
                        assert(self@.drawings =~= after_toggle_group(o).drawings);
                    }
                }
            },
        }
    }
}


impl OverlayState {
    /// Hides the overlay: the editor is dropped (the canvas is redrawn
    /// without it), the document emptied and the numbering restarted; undo
    /// is reported unavailable and the selection as empty.
    pub fn hide_canvas(&mut self) -> (fx: Effects)
        requires
            overlay_wf(old(self)@),
        ensures
            final(self)@ == (OverlayView { visible: false, edit: None, ..emptied(old(self)@) }),
            fx == (Effects {
                refresh: true,
                history: Some(false),
                selection_changed: true,
                ..no_effects()
            }),
            overlay_wf(final(self)@),
    {
        self.cancel_text_editor();
        self.empty_document();
        self.visible = false;
        let mut fx = effects_none();
        fx.refresh = true;
        fx.history = Some(false);
        fx.selection_changed = true;
        fx
    }

    /// Clears the canvas: the editor is dropped and the document emptied.
    pub fn clear(&mut self) -> (fx: Effects)
        requires
            overlay_wf(old(self)@),
        ensures
            final(self)@ == (OverlayView { edit: None, ..emptied(old(self)@) }),
            fx == (Effects {
                refresh: true,
                history: Some(false),
                selection_changed: true,
                cursor: if old(self)@.tool == NativeTool::Number {
                    CursorChange::Rebuild { apply_now: false }
                } else {
                    CursorChange::Keep
                },
                ..no_effects()
            }),
            overlay_wf(final(self)@),
    {
        self.cancel_text_editor();
        self.empty_document();
        let mut fx = effects_none();
        if matches!(self.tool, NativeTool::Number) {
            fx.cursor = CursorChange::Rebuild { apply_now: false };
        }
        fx.history = Some(false);
        fx.selection_changed = true;
        fx.refresh = true;
        fx
    }

    /// Undoes the last drawing, unless text is being typed: the selection
    /// ends, the last item goes and the numbering follows the markers left.
    pub fn undo(&mut self) -> (fx: Effects)
        requires
            overlay_wf(old(self)@),
        ensures
            final(self)@ == undo_result(old(self)@),
            ({
                let o = old(self)@;
                if o.edit is Some {
                    fx == no_effects()
                } else {
                    let rest = undo_result(o).drawings;
                    fx == (Effects {
                        refresh: true,
                        history: Some(rest.len() > 0),
                        selection_changed: true,
                        cursor: if o.tool == NativeTool::Number {
                            CursorChange::Rebuild { apply_now: false }
                        } else {
                            CursorChange::Keep
                        },
                        ..no_effects()
                    })
                }
            }),
            overlay_wf(final(self)@),
    {
        let mut fx = effects_none();
        if self.edit.is_some() {
            return fx;
        }
        let ghost o = self@;
        self.selected.clear();
        self.selection = None;
        let _ = self.drawings.pop();
        proof {
            assert(self.selected@ =~= Seq::<usize>::empty());
            if o.drawings.len() > 0 {
                assert(item_views(self.drawings@) =~= o.drawings.drop_last());
            }
        }
        self.sync_next_number();
        if matches!(self.tool, NativeTool::Number) {
            fx.cursor = CursorChange::Rebuild { apply_now: false };
        }
        fx.history = Some(self.drawings.len() > 0);
        fx.selection_changed = true;
        fx.refresh = true;
        fx
    }

    /// The delete shortcut: with the selection tool the selected items go
    /// (and the numbering follows the markers left); with any other tool
    /// the document is emptied.
    pub fn delete_selection_or_clear(&mut self) -> (fx: Effects)
        requires
            overlay_wf(old(self)@),
        ensures
            ({
                let o = old(self)@;
                let after = if o.tool == NativeTool::Select {
                    let deleted = if o.selected.len() > 0 {
                        OverlayView {
                            drawings: without_indices(o.drawings, o.selected),
                            selected: seq![],
                            selection: None,
                            ..o
                        }
                    } else {
                        o
                    };
                    OverlayView { next_number: next_marker(deleted.drawings), ..deleted }
                } else {
                    emptied(o)
                };
                &&& final(self)@ == after
                &&& fx == (Effects {
                    refresh: true,
                    history: Some(after.drawings.len() > 0),
                    selection_changed: true,
                    cursor: if o.tool == NativeTool::Number {
                        CursorChange::Rebuild { apply_now: false }
                    } else {
                        CursorChange::Keep
                    },
                    ..no_effects()
                })
            }),
            overlay_wf(final(self)@),
    {
        let mut fx = effects_none();
        if matches!(self.tool, NativeTool::Select) {
            self.delete_selected();
            self.sync_next_number();
        } else {
            self.empty_document();
            if matches!(self.tool, NativeTool::Number) {
                fx.cursor = CursorChange::Rebuild { apply_now: false };
            }
        }
        fx.history = Some(self.drawings.len() > 0);
        fx.selection_changed = true;
        fx.refresh = true;
        fx
    }

    /// The group button (see `after_toggle_group`).
    pub fn toggle_group(&mut self) -> (fx: Effects)
        requires
            overlay_wf(old(self)@),
        ensures
            final(self)@ == after_toggle_group(old(self)@),
            fx == (Effects { refresh: true, selection_changed: true, ..no_effects() }),
            overlay_wf(final(self)@),
    {
        self.toggle_selected_group();
        let mut fx = effects_none();
        fx.selection_changed = true;
        fx.refresh = true;
        fx
    }

    /// Chooses a tool: typed text is committed, the selection ends, the
    /// overlay lets input through exactly for the pointer tool, and the
    /// cursor is rebuilt.
    pub fn set_tool(&mut self, tool: NativeTool) -> (fx: Effects)
        requires
            overlay_wf(old(self)@),
        ensures
            final(self)@ == (OverlayView {
                tool,
                selected: seq![],
                selection: None,
                click_through: tool == NativeTool::Pointer,
                ..after_commit(old(self)@)
            }),
            fx == (Effects {
                refresh: true,
                history: if commit_adds_text(old(self)@) { Some(true) } else { None },
                selection_changed: true,
                cursor: CursorChange::Rebuild { apply_now: false },
                raise_toolbar: old(self)@.visible,
                sync_input: true,
                ..no_effects()
            }),
            overlay_wf(final(self)@),
    {
        let added = self.commit_text_editor();
        let mut fx = effects_none();
        if added {
            fx.history = Some(true);
        }
        self.tool = tool;
        self.selected.clear();
        self.selection = None;
        self.click_through = matches!(tool, NativeTool::Pointer);
        proof {
            assert(self.selected@ =~= Seq::<usize>::empty());
        }
        fx.sync_input = true;
        fx.cursor = CursorChange::Rebuild { apply_now: false };
        fx.raise_toolbar = self.visible;
        fx.refresh = true;
        fx.selection_changed = true;
        fx
    }

    /// Lets pointer input through the overlay or not.
    pub fn set_click_through(&mut self, enabled: bool) -> (fx: Effects)
        ensures
            final(self)@ == (OverlayView { click_through: enabled, ..old(self)@ }),
            fx == (Effects {
                refresh: true,
                raise_toolbar: old(self)@.visible,
                sync_input: true,
                ..no_effects()
            }),
    {
        self.click_through = enabled;
        let mut fx = effects_none();
        fx.sync_input = true;
        fx.raise_toolbar = self.visible;
        fx.refresh = true;
        fx
    }

    /// Sets the screen rectangle of the toolbar, where the overlay neither
    /// draws nor takes input.
    pub fn set_toolbar_passthrough(&mut self, bounds: Option<Rect>) -> (fx: Effects)
        ensures
            final(self)@ == (OverlayView { toolbar_passthrough: bounds, ..old(self)@ }),
            fx == (Effects { refresh: true, ..no_effects() }),
    {
        self.toolbar_passthrough = bounds;
        let mut fx = effects_none();
        fx.refresh = true;
        fx
    }

    /// The overlay's windows are in place: it becomes visible, reports
    /// whether undo is possible and, for the numbering tool, shows a fresh
    /// cursor at once.
    pub fn mark_shown(&mut self) -> (fx: Effects)
        ensures
            final(self)@ == (OverlayView { visible: true, ..old(self)@ }),
            fx == (Effects {
                refresh: true,
                history: Some(old(self)@.drawings.len() > 0),
                cursor: if old(self)@.tool == NativeTool::Number {
                    CursorChange::Rebuild { apply_now: true }
                } else {
                    CursorChange::Keep
                },
                sync_input: true,
                ..no_effects()
            }),
    {
        self.visible = true;
        let mut fx = effects_none();
        fx.sync_input = true;
        if matches!(self.tool, NativeTool::Number) {
            fx.cursor = CursorChange::Rebuild { apply_now: true };
        }
        fx.history = Some(self.drawings.len() > 0);
        fx.refresh = true;
        fx
    }

    /// Whether the canvas takes the keyboard focus when asked: while text
    /// is typed, or while it takes pointer input.
    pub fn focus_wanted(&self) -> (wanted: bool)
        ensures
            wanted == (self@.edit is Some || !self@.click_through),
    {
        self.edit.is_some() || !self.click_through
    }

    /// Moves the overlay onto new screen bounds.
    pub fn set_bounds(&mut self, bounds: Rect)
        requires
            bounds_ok(bounds),
        ensures
            final(self)@ == (OverlayView { bounds, ..old(self)@ }),
    {
        self.bounds = bounds;
    }
}

/// The largest marker number is at least every marker's number.
proof fn lemma_max_marker_bounds(items: Seq<ItemView>, i: int)
    requires
        0 <= i < items.len(),
    ensures
        max_marker(items) >= 0,
        items[i] matches ItemView::Number { value, .. } ==> value <= max_marker(items),
    decreases items.len(),
{
    if i < items.len() - 1 {
        lemma_max_marker_bounds(items.drop_last(), i);
        assert(items.drop_last()[i] == items[i]);
    } else if items.len() > 1 {
        lemma_max_marker_bounds(items.drop_last(), 0);
    } else {
        assert(max_marker(items.drop_last()) == 0);
    }
}

/// The next numbered marker shows a number larger than every marker in the
/// document, unless the numbers have reached `u32::MAX`.
pub proof fn next_marker_exceeds_markers(items: Seq<ItemView>, i: int)
    requires
        0 <= i < items.len(),
    ensures
        items[i] matches ItemView::Number { value, .. } ==> value < next_marker(items) || next_marker(
            items,
        ) == u32::MAX,
        next_marker(items) >= 1,
{
    lemma_max_marker_bounds(items, i);
}

/// Setting an item's group to the one it has changes nothing, and a second
/// change of group overrides the first.
proof fn lemma_with_group(v: ItemView, a: Option<u64>, b: Option<u64>)
    ensures
        with_group(v, item_group(v)) == v,
        with_group(with_group(v, a), b) == with_group(v, b),
        item_group(with_group(v, a)) == a,
{
}

/// Grouping a selection of ungrouped drawings and then pressing the group
/// button again gives back the drawings as they were, when no drawing
/// already belongs to the group number that grouping takes.
pub proof fn grouping_twice_restores(v: OverlayView)
    requires
        overlay_wf(v),
        v.drawings.len() <= usize::MAX,
        v.selected.len() >= 2,
        forall|k: int| 0 <= k < v.selected.len() ==> item_group(#[trigger] v.drawings[v.selected[k] as int]) is None,
        forall|i: int| 0 <= i < v.drawings.len() ==> item_group(#[trigger] v.drawings[i]) != Some(v.next_group_id),
    ensures
        after_toggle_group(after_toggle_group(v)).drawings == v.drawings,
        after_toggle_group(v).next_group_id == next_group(v.next_group_id),
{
    let g = v.next_group_id;
    assert(item_group(v.drawings[v.selected[0] as int]) is None);
    assert(common_group(v) is None);
    let w = after_toggle_group(v);
    assert(w.selected == v.selected);
    assert forall|i: int| 0 <= i < w.drawings.len() implies #[trigger] item_group(w.drawings[i]) == (if v.selected.contains(
        i as usize,
    ) {
        Some(g)
    } else {
        item_group(v.drawings[i])
    }) by {
        lemma_with_group(v.drawings[i], Some(g), None);
    }
    assert forall|k: int| 0 <= k < w.selected.len() implies item_group(
        #[trigger] w.drawings[w.selected[k] as int],
    ) == Some(g) by {
        assert(v.selected.contains(v.selected[k]));
        assert(v.selected[k] < v.drawings.len());
        assert((v.selected[k] as int) as usize == v.selected[k]);
    }
    assert(item_group(w.drawings[w.selected[0] as int]) == Some(g));
    assert(common_group(w) == Some(g));
    let x = after_toggle_group(w);
    assert forall|i: int| 0 <= i < v.drawings.len() implies #[trigger] x.drawings[i] == v.drawings[i] by {
        if v.selected.contains(i as usize) {
            let k = choose|k: int| 0 <= k < v.selected.len() && v.selected[k] == i as usize;
            assert(v.selected[k] as int == i);
            assert(item_group(v.drawings[i]) is None);
            lemma_with_group(v.drawings[i], Some(g), None);
            lemma_with_group(v.drawings[i], None, None);
        } else {
            assert(w.drawings[i] == v.drawings[i]);
        }
    }
    assert(x.drawings =~= v.drawings);
}

/// The largest marker number is a `u32`.
pub proof fn lemma_max_marker_le(items: Seq<ItemView>)
    ensures
        0 <= max_marker(items) <= u32::MAX,
    decreases items.len(),
{
    if items.len() > 0 {
        lemma_max_marker_le(items.drop_last());
    }
}

} // verus!
