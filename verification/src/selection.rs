use vstd::prelude::*;

use crate::native_drawing::{NativeTool, Point, Rect};
use crate::overlay::{drawing_group, item_group, selection_ok, DrawingItem, ItemView, item_views};

verus! {

/// The indices below `n` for which `f` holds, in increasing order.
pub open spec fn indices_where(n: nat, f: spec_fn(int) -> bool) -> Seq<usize>
    decreases n,
{
    if n == 0 {
        seq![]
    } else {
        let rest = indices_where((n - 1) as nat, f);
        if f(n - 1) {
            rest.push((n - 1) as usize)
        } else {
            rest
        }
    }
}

/// `indices_where` lists, in increasing order, exactly the indices for
/// which the condition holds.
pub proof fn lemma_indices_where(n: nat, f: spec_fn(int) -> bool)
    requires
        n <= usize::MAX,
    ensures
        selection_ok(indices_where(n, f), n as int),
        forall|i: int| 0 <= i < n ==> (#[trigger] indices_where(n, f).contains(i as usize) <==> f(i)),
    decreases n,
{
    if n > 0 {
        let m = (n - 1) as nat;
        lemma_indices_where(m, f);
        let rest = indices_where(m, f);
        if f(m as int) {
            let s = rest.push(m as usize);
            assert(s == indices_where(n, f));
            assert forall|i: int| 0 <= i < n implies (#[trigger] s.contains(i as usize) <==> f(i)) by {
                if i < m {
                    if s.contains(i as usize) {
                        let k = choose|k: int| 0 <= k < s.len() && s[k] == i as usize;
                        if k < rest.len() {
                            assert(rest[k] == s[k]);
                            assert(rest.contains(i as usize));
                        }
                    }
                    if rest.contains(i as usize) {
                        let k = choose|k: int| 0 <= k < rest.len() && rest[k] == i as usize;
                        assert(s[k] == rest[k]);
                    }
                } else {
                    assert(s[s.len() - 1] == m as usize);
                }
            }
        } else {
            assert(rest == indices_where(n, f));
            assert forall|i: int| 0 <= i < n implies (#[trigger] rest.contains(i as usize) <==> f(i)) by {
                if i == m && rest.contains(i as usize) {
                    let k = choose|k: int| 0 <= k < rest.len() && rest[k] == i as usize;
                    assert(rest[k] < m);
                }
            }
        }
    }
}

/// The smallest of a non-empty sequence.
pub open spec fn seq_min(s: Seq<int>) -> int
    decreases s.len(),
{
    if s.len() <= 1 {
        s[0]
    } else {
        let rest = seq_min(s.drop_last());
        if s.last() < rest { s.last() } else { rest }
    }
}

/// The largest of a non-empty sequence.
pub open spec fn seq_max(s: Seq<int>) -> int
    decreases s.len(),
{
    if s.len() <= 1 {
        s[0]
    } else {
        let rest = seq_max(s.drop_last());
        if s.last() > rest { s.last() } else { rest }
    }
}

/// The x coordinates of the points.
pub open spec fn xs(ps: Seq<Point>) -> Seq<int> {
    ps.map_values(|p: Point| p.x as int)
}

/// The y coordinates of the points.
pub open spec fn ys(ps: Seq<Point>) -> Seq<int> {
    ps.map_values(|p: Point| p.y as int)
}

/// The box around the points, widened by `padding` on every side; around
/// `fallback` when there are no points.
pub open spec fn padded_box(ps: Seq<Point>, fallback: Point, padding: int) -> (int, int, int, int) {
    if ps.len() == 0 {
        (
            fallback.x - padding,
            fallback.y - padding,
            fallback.x + padding,
            fallback.y + padding,
        )
    } else {
        (
            seq_min(xs(ps)) - padding,
            seq_min(ys(ps)) - padding,
            seq_max(xs(ps)) + padding,
            seq_max(ys(ps)) + padding,
        )
    }
}

/// Whether a shape tool's item is framed by its (possibly rotated) corners
/// rather than by its two end points.
pub open spec fn framed_by_corners(tool: NativeTool) -> bool {
    tool == NativeTool::Rectangle || tool == NativeTool::Ellipse || tool == NativeTool::CheckMark
        || tool == NativeTool::CrossMark
}

/// The points whose box bounds an item, given the corners of its rotated
/// frame (used for boxes, ellipses, stamps, text and markers).
pub open spec fn bounding_points(v: ItemView, corners: Seq<Point>) -> Seq<Point> {
    match v {
        ItemView::Stroke { points, .. } => points,
        ItemView::Shape { tool, start, end, .. } => if framed_by_corners(tool) {
            corners
        } else {
            seq![start, end]
        },
        _ => corners,
    }
}

/// The padding around an item's points in its bounds.
pub open spec fn bounds_padding(v: ItemView) -> int {
    match v {
        ItemView::Stroke { width, .. } => (if width >= 1 { width as int } else { 1 }) + 5,
        ItemView::Shape { width, .. } => (if width >= 1 { width as int } else { 1 }) + 5,
        _ => 5,
    }
}

/// Where an item's box falls back to when it has no points.
pub open spec fn bounds_fallback(v: ItemView) -> Point {
    match v {
        ItemView::Text { start, .. } => start,
        ItemView::Number { center, .. } => center,
        _ => Point { x: 0, y: 0 },
    }
}

/// The bounds of an item as four integers (left, top, right, bottom).
pub open spec fn item_box(v: ItemView, corners: Seq<Point>) -> (int, int, int, int) {
    padded_box(bounding_points(v, corners), bounds_fallback(v), bounds_padding(v))
}

/// Whether an item's bounds fit in `i32`.
pub open spec fn item_box_fits(v: ItemView, corners: Seq<Point>) -> bool {
    let b = item_box(v, corners);
    &&& i32::MIN <= b.0
    &&& i32::MIN <= b.1
    &&& b.2 <= i32::MAX
    &&& b.3 <= i32::MAX
}

/// The smallest and largest x and y of the points (the first point when
/// there is only one), or `None` when there are none.
fn point_extent(ps: &Vec<Point>) -> (e: Option<(i32, i32, i32, i32)>)
    ensures
        ps@.len() == 0 ==> e is None,
        ps@.len() > 0 ==> (e matches Some(t) && t.0 == seq_min(xs(ps@)) && t.1 == seq_min(ys(ps@))
            && t.2 == seq_max(xs(ps@)) && t.3 == seq_max(ys(ps@))),
{
    if ps.len() == 0 {
        return None;
    }
    let mut lo_x = ps[0].x;
    let mut lo_y = ps[0].y;
    let mut hi_x = ps[0].x;
    let mut hi_y = ps[0].y;
    let mut i: usize = 1;
    proof {
        assert(xs(ps@.take(1)) =~= seq![ps@[0].x as int]);
        assert(ys(ps@.take(1)) =~= seq![ps@[0].y as int]);
    }
    while i < ps.len()
        invariant
            1 <= i <= ps@.len(),
            lo_x == seq_min(xs(ps@.take(i as int))),
            lo_y == seq_min(ys(ps@.take(i as int))),
            hi_x == seq_max(xs(ps@.take(i as int))),
            hi_y == seq_max(ys(ps@.take(i as int))),
        decreases ps@.len() - i,
    {
        let p = ps[i];
        proof {
            let t = ps@.take(i + 1);
            assert(xs(t).drop_last() =~= xs(ps@.take(i as int)));
            assert(ys(t).drop_last() =~= ys(ps@.take(i as int)));
            assert(xs(t).last() == p.x);
            assert(ys(t).last() == p.y);
        }
        if p.x < lo_x {
            lo_x = p.x;
        }
        if p.y < lo_y {
            lo_y = p.y;
        }
        if p.x > hi_x {
            hi_x = p.x;
        }
        if p.y > hi_y {
            hi_y = p.y;
        }
        i += 1;
    }
    proof {
        assert(ps@.take(ps@.len() as int) =~= ps@);
    }
    Some((lo_x, lo_y, hi_x, hi_y))
}

/// The points whose box bounds a drawing (see `bounding_points`), their
/// extent taken at once.
fn bounding_extent(drawing: &DrawingItem, corners: &Vec<Point>) -> (e: Option<(i32, i32, i32, i32)>)
    ensures
        bounding_points(drawing@, corners@).len() == 0 ==> e is None,
        bounding_points(drawing@, corners@).len() > 0 ==> (e matches Some(t) && t.0 == seq_min(
            xs(bounding_points(drawing@, corners@)),
        ) && t.1 == seq_min(ys(bounding_points(drawing@, corners@))) && t.2 == seq_max(
            xs(bounding_points(drawing@, corners@)),
        ) && t.3 == seq_max(ys(bounding_points(drawing@, corners@)))),
{
    match drawing {
        DrawingItem::Stroke { points, .. } => point_extent(points),
        DrawingItem::Shape { tool, start, end, .. } => {
            let framed = matches!(
                tool,
                NativeTool::Rectangle | NativeTool::Ellipse | NativeTool::CheckMark
                    | NativeTool::CrossMark
            );
            if framed {
                point_extent(corners)
            } else {
                let pair = vec![*start, *end];
                proof {
                    assert(pair@ =~= seq![*start, *end]);
                }
                point_extent(&pair)
            }
        },
        DrawingItem::Text { .. } => point_extent(corners),
        DrawingItem::Number { .. } => point_extent(corners),
    }
}

/// The padding and fallback point of a drawing's bounds.
fn padding_and_fallback(drawing: &DrawingItem) -> (r: (i64, Point))
    ensures
        r.0 == bounds_padding(drawing@),
        r.1 == bounds_fallback(drawing@),
{
    match drawing {
        DrawingItem::Stroke { width, .. } => {
            let w: i32 = if *width >= 1 { *width } else { 1 };
            (w as i64 + 5, Point { x: 0, y: 0 })
        },
        DrawingItem::Shape { width, .. } => {
            let w: i32 = if *width >= 1 { *width } else { 1 };
            (w as i64 + 5, Point { x: 0, y: 0 })
        },
        DrawingItem::Text { start, .. } => (5i64, *start),
        DrawingItem::Number { center, .. } => (5i64, *center),
    }
}

/// The bounds of a drawing as wide integers (see `item_box`).
fn item_box_wide(drawing: &DrawingItem, corners: &Vec<Point>) -> (b: (i64, i64, i64, i64))
    ensures
        (b.0 as int, b.1 as int, b.2 as int, b.3 as int) == item_box(drawing@, corners@),
{
    let extent = bounding_extent(drawing, corners);
    let (padding, fallback) = padding_and_fallback(drawing);
    let (lo_x, lo_y, hi_x, hi_y) = match extent {
        Some(e) => e,
        None => (fallback.x, fallback.y, fallback.x, fallback.y),
    };
    (lo_x as i64 - padding, lo_y as i64 - padding, hi_x as i64 + padding, hi_y as i64 + padding)
}

/// The screen bounds of a drawing: the box around its points, widened by
/// its width plus 5 for strokes and shapes and by 5 for text and markers.
/// `corners` are the corners of the item's rotated frame, which the
/// application computes; they stand for the points of boxes, ellipses,
/// stamps, text and markers, and are not read for strokes, lines and arrows.
pub fn drawing_bounds(drawing: &DrawingItem, corners: &Vec<Point>) -> (r: Rect)
    requires
        item_box_fits(drawing@, corners@),
    ensures
        (r.left as int, r.top as int, r.right as int, r.bottom as int) == item_box(drawing@, corners@),
{
    let (left, top, right, bottom) = item_box_wide(drawing, corners);
    Rect { left: left as i32, top: top as i32, right: right as i32, bottom: bottom as i32 }
}

/// The bounds of a drawing (see `drawing_bounds`), or `None` when they do
/// not fit in `i32`.
pub fn drawing_bounds_checked(drawing: &DrawingItem, corners: &Vec<Point>) -> (r: Option<Rect>)
    ensures
        r is None <==> !item_box_fits(drawing@, corners@),
        r matches Some(b) ==> (b.left as int, b.top as int, b.right as int, b.bottom as int)
            == item_box(drawing@, corners@),
{
    let (left, top, right, bottom) = item_box_wide(drawing, corners);
    if left < i32::MIN as i64 || top < i32::MIN as i64 || right > i32::MAX as i64 || bottom
        > i32::MAX as i64 {
        return None;
    }
    Some(Rect { left: left as i32, top: top as i32, right: right as i32, bottom: bottom as i32 })
}

/// Whether a point touches a drawing with the given bounds: it lies within
/// 4 pixels of them, edges included.
pub open spec fn hits(b: Rect, p: Point) -> bool {
    &&& b.left - 4 <= p.x <= b.right + 4
    &&& b.top - 4 <= p.y <= b.bottom + 4
}

/// Whether a point touches a drawing with the given bounds.
pub fn drawing_hit_test(bounds: Rect, point: Point) -> (hit: bool)
    ensures
        hit == hits(bounds, point),
{
    point.x as i64 >= bounds.left as i64 - 4 && point.x as i64 <= bounds.right as i64 + 4
        && point.y as i64 >= bounds.top as i64 - 4 && point.y as i64 <= bounds.bottom as i64 + 4
}

/// The last (topmost) drawing that the point touches, given the bounds of
/// every drawing.
pub open spec fn last_hit(bounds: Seq<Rect>, p: Point) -> Option<usize>
    decreases bounds.len(),
{
    if bounds.len() == 0 {
        None
    } else if hits(bounds.last(), p) {
        Some((bounds.len() - 1) as usize)
    } else {
        last_hit(bounds.drop_last(), p)
    }
}

/// A hit names a drawing that the point touches.
pub proof fn lemma_last_hit(bounds: Seq<Rect>, p: Point)
    requires
        bounds.len() <= usize::MAX,
    ensures
        last_hit(bounds, p) matches Some(i) ==> i < bounds.len() && hits(bounds[i as int], p),
    decreases bounds.len(),
{
    if bounds.len() > 0 && !hits(bounds.last(), p) {
        lemma_last_hit(bounds.drop_last(), p);
        if let Some(i) = last_hit(bounds.drop_last(), p) {
            assert(bounds.drop_last()[i as int] == bounds[i as int]);
        }
    }
}

/// The topmost drawing under the point, given the bounds of every drawing.
pub fn hit_test_drawing(bounds: &Vec<Rect>, point: Point) -> (hit: Option<usize>)
    ensures
        hit == last_hit(bounds@, point),
{
    let mut i = bounds.len();
    proof {
        assert(bounds@.take(i as int) =~= bounds@);
    }
    while i > 0
        invariant
            i <= bounds@.len(),
            last_hit(bounds@, point) == last_hit(bounds@.take(i as int), point),
        decreases i,
    {
        proof {
            assert(bounds@.take(i as int).drop_last() =~= bounds@.take(i - 1));
            assert(bounds@.take(i as int).last() == bounds@[i - 1]);
        }
        if drawing_hit_test(bounds[i - 1], point) {
            return Some(i - 1);
        }
        i -= 1;
    }
    None
}

/// The drawings that a click on drawing `index` selects: its whole group,
/// or the drawing alone when it belongs to none.
pub open spec fn grouped_indices_spec(items: Seq<ItemView>, index: int) -> Seq<usize> {
    match item_group(items[index]) {
        Some(g) => indices_where(items.len(), |i: int| item_group(items[i]) == Some(g)),
        None => seq![index as usize],
    }
}

/// The drawings that a click on drawing `index` selects.
pub fn grouped_indices(drawings: &Vec<DrawingItem>, index: usize) -> (sel: Vec<usize>)
    requires
        index < drawings@.len(),
    ensures
        sel@ == grouped_indices_spec(item_views(drawings@), index as int),
        selection_ok(sel@, drawings@.len() as int),
{
    let ghost items = item_views(drawings@);
    match drawing_group(&drawings[index]) {
        None => {
            let v = vec![index];
            proof {
                assert(v@ =~= seq![index]);
                assert(items[index as int] == drawings@[index as int]@);
            }
            v
        },
        Some(g) => {
            let ghost f = |i: int| item_group(items[i]) == Some(g);
            proof {
                assert(items[index as int] == drawings@[index as int]@);
            }
            let mut sel: Vec<usize> = Vec::new();
            let mut i: usize = 0;
            while i < drawings.len()
                invariant
                    i <= drawings@.len(),
                    items == item_views(drawings@),
                    f == (|i: int| item_group(items[i]) == Some(g)),
                    sel@ == indices_where(i as nat, f),
                decreases drawings@.len() - i,
            {
                proof {
                    assert(items[i as int] == drawings@[i as int]@);
                }
                if drawing_group(&drawings[i]) == Some(g) {
                    sel.push(i);
                }
                i += 1;
            }
            proof {
                lemma_indices_where(drawings@.len() as nat, f);
            }
            sel
        },
    }
}

/// Whether drawing `i` belongs to a group that a selected drawing belongs
/// to.
pub open spec fn shares_selected_group(items: Seq<ItemView>, sel: Seq<usize>, i: int) -> bool {
    match item_group(items[i]) {
        Some(g) => exists|k: int|
            0 <= k < sel.len() && #[trigger] item_group(items[sel[k] as int]) == Some(g),
        None => false,
    }
}

/// The selection completed with every drawing that shares a group with a
/// selected one, in increasing order without repeats.
pub open spec fn expanded_selection(items: Seq<ItemView>, sel: Seq<usize>) -> Seq<usize> {
    indices_where(
        items.len(),
        |i: int| sel.contains(i as usize) || shares_selected_group(items, sel, i),
    )
}

/// Whether one of the first `k` selected drawings belongs to group `g`.
pub open spec fn group_seen(items: Seq<ItemView>, sel: Seq<usize>, k: int, g: u64) -> bool {
    exists|q: int| 0 <= q < k && #[trigger] item_group(items[sel[q] as int]) == Some(g)
}

/// Whether the group, if there is one, is listed.
pub open spec fn group_noted(groups: Seq<u64>, g: Option<u64>) -> bool {
    match g {
        Some(h) => groups.contains(h),
        None => true,
    }
}

/// Whether the value is listed.
fn group_listed(groups: &Vec<u64>, g: u64) -> (res: bool)
    ensures
        res == groups@.contains(g),
{
    let mut k: usize = 0;
    while k < groups.len()
        invariant
            k <= groups@.len(),
            forall|j: int| 0 <= j < k ==> groups@[j] != g,
        decreases groups@.len() - k,
    {
        if groups[k] == g {
            proof {
                assert(groups@[k as int] == g);
            }
            return true;
        }
        k += 1;
    }
    false
}

/// Adds to the selection every drawing that shares a group with a selected
/// one, and orders it.
pub fn expand_selected_groups(drawings: &Vec<DrawingItem>, selected: &mut Vec<usize>)
    requires
        forall|k: int| 0 <= k < old(selected)@.len() ==> #[trigger] old(selected)@[k] < drawings@.len(),
    ensures
        final(selected)@ == expanded_selection(item_views(drawings@), old(selected)@),
        selection_ok(final(selected)@, drawings@.len() as int),
{
    let ghost items = item_views(drawings@);
    let ghost sel = selected@;
    let mut groups: Vec<u64> = Vec::new();
    let mut k: usize = 0;
    while k < selected.len()
        invariant
            k <= sel.len(),
            selected@ == sel,
            items == item_views(drawings@),
            forall|k: int| 0 <= k < sel.len() ==> #[trigger] sel[k] < drawings@.len(),
            forall|j: int| 0 <= j < groups@.len() ==> group_seen(items, sel, k as int, #[trigger] groups@[j]),
            forall|q: int|
                0 <= q < k ==> group_noted(groups@, #[trigger] item_group(items[sel[q] as int])),
        decreases sel.len() - k,
    {
        let index = selected[k];
        proof {
            assert(items[index as int] == drawings@[index as int]@);
        }
        match drawing_group(&drawings[index]) {
            Some(g) => {
                let ghost before = groups@;
                groups.push(g);
                proof {
                    assert(groups@ == before.push(g));
                    assert(groups@[groups@.len() - 1] == g);
                    assert forall|j: int| 0 <= j < groups@.len() implies group_seen(
                        items,
                        sel,
                        k + 1,
                        #[trigger] groups@[j],
                    ) by {
                        if j == groups@.len() - 1 {
                            assert(item_group(items[sel[k as int] as int]) == Some(groups@[j]));
                        } else {
                            let q = choose|q: int|
                                0 <= q < k && #[trigger] item_group(items[sel[q] as int]) == Some(groups@[j]);
                            assert(item_group(items[sel[q] as int]) == Some(groups@[j]));
                        }
                    }
                    assert forall|q: int|
                        0 <= q < k + 1 implies group_noted(groups@, #[trigger] item_group(items[sel[q] as int])) by {
                        if q == k {
                            assert(groups@[groups@.len() - 1] == g);
                        } else {
                            if let Some(h) = item_group(items[sel[q] as int]) {
                                assert(before.contains(h));
                                let j = choose|j: int| 0 <= j < before.len() && before[j] == h;
                                assert(groups@[j] == h);
                            }
                        }
                    }
                }
            },
            None => {},
        }
        k += 1;
    }
    let ghost f = |i: int| sel.contains(i as usize) || shares_selected_group(items, sel, i);
    let mut result: Vec<usize> = Vec::new();
    let mut i: usize = 0;
    while i < drawings.len()
        invariant
            i <= drawings@.len(),
            selected@ == sel,
            items == item_views(drawings@),
            f == (|i: int| sel.contains(i as usize) || shares_selected_group(items, sel, i)),
            result@ == indices_where(i as nat, f),
            forall|j: int| 0 <= j < groups@.len() ==> group_seen(items, sel, sel.len() as int, #[trigger] groups@[j]),
            forall|q: int|
                0 <= q < sel.len() ==> group_noted(groups@, #[trigger] item_group(items[sel[q] as int])),
        decreases drawings@.len() - i,
    {
        proof {
            assert(items[i as int] == drawings@[i as int]@);
        }
        let listed = crate::overlay::index_listed(selected, i);
        let shared = match drawing_group(&drawings[i]) {
            Some(g) => group_listed(&groups, g),
            None => false,
        };
        proof {
            if let Some(g) = item_group(items[i as int]) {
                if shared {
                    let j = choose|j: int| 0 <= j < groups@.len() && groups@[j] == g;
                    assert(group_seen(items, sel, sel.len() as int, groups@[j]));
                }
                if shares_selected_group(items, sel, i as int) {
                    let q = choose|q: int|
                        0 <= q < sel.len() && #[trigger] item_group(items[sel[q] as int]) == Some(g);
                    assert(item_group(items[sel[q] as int]) == Some(g));
                }
            }
            assert(f(i as int) == (listed || shared));
        }
        if listed || shared {
            result.push(i);
        }
        i += 1;
    }
    proof {
        lemma_indices_where(drawings@.len() as nat, f);
    }
    *selected = result;
}

/// The rectangle spanned by two corner points.
pub open spec fn span_rect(a: Point, b: Point) -> Rect {
    Rect {
        left: if a.x <= b.x { a.x } else { b.x },
        top: if a.y <= b.y { a.y } else { b.y },
        right: if a.x >= b.x { a.x } else { b.x },
        bottom: if a.y >= b.y { a.y } else { b.y },
    }
}

/// The drawings whose bounds meet the rectangle, in increasing order.
pub open spec fn marquee_hits(bounds: Seq<Rect>, m: Rect) -> Seq<usize> {
    indices_where(bounds.len(), |i: int| crate::native_drawing::rects_intersect_spec(m, bounds[i]))
}

/// The drawings whose bounds meet the rectangle spanned by the two points.
pub fn marquee_selection(bounds: &Vec<Rect>, start: Point, end: Point) -> (sel: Vec<usize>)
    ensures
        sel@ == marquee_hits(bounds@, span_rect(start, end)),
        selection_ok(sel@, bounds@.len() as int),
{
    let m = crate::native_drawing::rect_from_points(start, end);
    let ghost f = |i: int| crate::native_drawing::rects_intersect_spec(m, bounds@[i]);
    let mut sel: Vec<usize> = Vec::new();
    let mut i: usize = 0;
    while i < bounds.len()
        invariant
            i <= bounds@.len(),
            f == (|i: int| crate::native_drawing::rects_intersect_spec(m, bounds@[i])),
            sel@ == indices_where(i as nat, f),
        decreases bounds@.len() - i,
    {
        if crate::native_drawing::rects_intersect(m, bounds[i]) {
            sel.push(i);
        }
        i += 1;
    }
    proof {
        assert(m == span_rect(start, end));
        lemma_indices_where(bounds@.len() as nat, f);
    }
    sel
}

/// A click on a drawing selects it together with exactly the drawings of
/// its group, in increasing order.
pub proof fn click_selects_whole_group(items: Seq<ItemView>, index: int)
    requires
        0 <= index < items.len() <= usize::MAX,
    ensures
        selection_ok(grouped_indices_spec(items, index), items.len() as int),
        grouped_indices_spec(items, index).contains(index as usize),
        forall|i: int|
            0 <= i < items.len() ==> (#[trigger] grouped_indices_spec(items, index).contains(i as usize)
                <==> (i == index || (item_group(items[i]) is Some && item_group(items[i])
                == item_group(items[index])))),
{
    match item_group(items[index]) {
        Some(g) => {
            lemma_indices_where(items.len(), |i: int| item_group(items[i]) == Some(g));
        },
        None => {
            let s = grouped_indices_spec(items, index);
            assert(s[0] == index as usize);
            assert forall|i: int| 0 <= i < items.len() implies (#[trigger] s.contains(i as usize) <==> (i
                == index || (item_group(items[i]) is Some && item_group(items[i]) == item_group(
                items[index])))) by {
                if s.contains(i as usize) {
                    let k = choose|k: int| 0 <= k < s.len() && s[k] == i as usize;
                    assert(k == 0);
                }
            }
        },
    }
}

/// A selection completed with its groups holds the selection, and holds
/// whole groups: with any drawing, every drawing of its group.
pub proof fn expanded_selection_holds_whole_groups(items: Seq<ItemView>, sel: Seq<usize>)
    requires
        items.len() <= usize::MAX,
        forall|k: int| 0 <= k < sel.len() ==> #[trigger] sel[k] < items.len(),
    ensures
        forall|k: int| 0 <= k < sel.len() ==> expanded_selection(items, sel).contains(#[trigger] sel[k]),
        forall|i: int, j: int|
            0 <= i < items.len() && 0 <= j < items.len() && expanded_selection(items, sel).contains(
                i as usize,
            ) && item_group(#[trigger] items[i]) is Some && item_group(items[i]) == item_group(
                #[trigger] items[j],
            ) ==> expanded_selection(items, sel).contains(j as usize),
{
    let f = |i: int| sel.contains(i as usize) || shares_selected_group(items, sel, i);
    lemma_indices_where(items.len(), f);
    let e = expanded_selection(items, sel);
    assert forall|k: int| 0 <= k < sel.len() implies e.contains(#[trigger] sel[k]) by {
        let i = sel[k] as int;
        assert(sel.contains(i as usize));
        assert(f(i));
    }
    assert forall|i: int, j: int|
        0 <= i < items.len() && 0 <= j < items.len() && e.contains(i as usize) && item_group(
            #[trigger] items[i],
        ) is Some && item_group(items[i]) == item_group(#[trigger] items[j]) implies e.contains(
        j as usize,
    ) by {
        let g = item_group(items[i])->0;
        assert(f(i));
        if sel.contains(i as usize) {
            let k = choose|k: int| 0 <= k < sel.len() && sel[k] == i as usize;
            assert(item_group(items[sel[k] as int]) == Some(g));
            assert(shares_selected_group(items, sel, j));
        } else {
            let q = choose|q: int| 0 <= q < sel.len() && #[trigger] item_group(items[sel[q] as int]) == Some(g);
            assert(item_group(items[sel[q] as int]) == Some(g));
            assert(shares_selected_group(items, sel, j));
        }
        assert(f(j));
    }
}

/// The width of an item.
pub open spec fn item_width(v: ItemView) -> i32 {
    match v {
        ItemView::Stroke { width, .. } => width,
        ItemView::Shape { width, .. } => width,
        ItemView::Text { width, .. } => width,
        ItemView::Number { width, .. } => width,
    }
}

/// The item with its width replaced.
pub open spec fn with_width(v: ItemView, w: i32) -> ItemView {
    match v {
        ItemView::Stroke { points, color, erase, rotation, group, .. } => ItemView::Stroke {
            points,
            color,
            width: w,
            erase,
            rotation,
            group,
        },
        ItemView::Shape { tool, start, end, color, rotation, group, .. } => ItemView::Shape {
            tool,
            start,
            end,
            color,
            width: w,
            rotation,
            group,
        },
        ItemView::Text { start, text, color, rotation, group, .. } => ItemView::Text {
            start,
            text,
            color,
            width: w,
            rotation,
            group,
        },
        ItemView::Number { center, value, color, rotation, group, .. } => ItemView::Number {
            center,
            value,
            color,
            width: w,
            rotation,
            group,
        },
    }
}

/// The width of a drawing.
pub fn drawing_width(drawing: &DrawingItem) -> (w: i32)
    ensures
        w == item_width(drawing@),
{
    match drawing {
        DrawingItem::Stroke { width, .. } => *width,
        DrawingItem::Shape { width, .. } => *width,
        DrawingItem::Text { width, .. } => *width,
        DrawingItem::Number { width, .. } => *width,
    }
}

/// Changes the width of a drawing, kept within 1..=100.
pub fn set_drawing_width(drawing: &mut DrawingItem, value: i32)
    ensures
        final(drawing)@ == with_width(
            old(drawing)@,
            crate::native_drawing::clamp_int(value as int, 1, 100) as i32,
        ),
{
    let value = if value < 1 {
        1
    } else if value > 100 {
        100
    } else {
        value
    };
    match drawing {
        DrawingItem::Stroke { width, .. } => *width = value,
        DrawingItem::Shape { width, .. } => *width = value,
        DrawingItem::Text { width, .. } => *width = value,
        DrawingItem::Number { width, .. } => *width = value,
    }
}

/// The box around the bounds of the listed drawings, `None` when none is
/// listed.
pub open spec fn union_of_bounds(bounds: Seq<Rect>, sel: Seq<usize>) -> Option<Rect>
    decreases sel.len(),
{
    if sel.len() == 0 {
        None
    } else {
        let b = bounds[sel.last() as int];
        match union_of_bounds(bounds, sel.drop_last()) {
            None => Some(b),
            Some(u) => Some(
                Rect {
                    left: if b.left < u.left { b.left } else { u.left },
                    top: if b.top < u.top { b.top } else { u.top },
                    right: if b.right > u.right { b.right } else { u.right },
                    bottom: if b.bottom > u.bottom { b.bottom } else { u.bottom },
                },
            ),
        }
    }
}

/// The box around the bounds of the selected drawings.
pub fn selection_bounds(bounds: &Vec<Rect>, selected: &Vec<usize>) -> (r: Option<Rect>)
    requires
        forall|k: int| 0 <= k < selected@.len() ==> #[trigger] selected@[k] < bounds@.len(),
    ensures
        r == union_of_bounds(bounds@, selected@),
{
    let mut acc: Option<Rect> = None;
    let mut i: usize = 0;
    proof {
        assert(selected@.take(0).len() == 0);
    }
    while i < selected.len()
        invariant
            i <= selected@.len(),
            forall|k: int| 0 <= k < selected@.len() ==> #[trigger] selected@[k] < bounds@.len(),
            acc == union_of_bounds(bounds@, selected@.take(i as int)),
        decreases selected@.len() - i,
    {
        proof {
            assert(selected@.take(i + 1).drop_last() =~= selected@.take(i as int));
            assert(selected@.take(i + 1).last() == selected@[i as int]);
        }
        let b = bounds[selected[i]];
        acc = match acc {
            None => Some(b),
            Some(u) => Some(
                Rect {
                    left: if b.left < u.left { b.left } else { u.left },
                    top: if b.top < u.top { b.top } else { u.top },
                    right: if b.right > u.right { b.right } else { u.right },
                    bottom: if b.bottom > u.bottom { b.bottom } else { u.bottom },
                },
            ),
        };
        i += 1;
    }
    proof {
        assert(selected@.take(selected@.len() as int) =~= selected@);
    }
    acc
}

/// The corner opposite to the first corner handle of the selection frame
/// within the handle's reach (its half size plus 3) of the point; the
/// frame's corners go round, so the opposite of corner `i` is corner
/// `(i + 2) % 4`.
pub open spec fn resize_anchor_spec(corners: [Point; 4], p: Point) -> Option<Point> {
    let reach = crate::native_drawing::SELECTION_HANDLE_SIZE + 3;
    let near = |c: Point|
        crate::native_drawing::abs_int(p.x - c.x) <= reach && crate::native_drawing::abs_int(
            p.y - c.y,
        ) <= reach;
    if near(corners[0]) {
        Some(corners[2])
    } else if near(corners[1]) {
        Some(corners[3])
    } else if near(corners[2]) {
        Some(corners[0])
    } else if near(corners[3]) {
        Some(corners[1])
    } else {
        None
    }
}

/// The anchor of a resize begun at `point` on the selection frame with the
/// given corners (see `resize_anchor_spec`).
pub fn selection_resize_anchor(corners: [Point; 4], point: Point) -> (anchor: Option<Point>)
    ensures
        anchor == resize_anchor_spec(corners, point),
{
    let reach = crate::native_drawing::SELECTION_HANDLE_SIZE + 3;
    if crate::native_drawing::point_near(point, corners[0], reach) {
        Some(corners[2])
    } else if crate::native_drawing::point_near(point, corners[1], reach) {
        Some(corners[3])
    } else if crate::native_drawing::point_near(point, corners[2], reach) {
        Some(corners[0])
    } else if crate::native_drawing::point_near(point, corners[3], reach) {
        Some(corners[1])
    } else {
        None
    }
}

} // verus!
