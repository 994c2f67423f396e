use keyviz::native_drawing::{
    lparam_point, number_radius, parse_tool, point_near, rect_from_points, rects_intersect,
    stamp_radius, text_font_size, translate_point_pair, wheel_delta, NativeTool, Point, Rect,
    TRANSPARENT_KEY,
};
use keyviz::overlay::{CursorChange, DrawingItem, OverlayState};
use keyviz::pointer::{VK_BACK, VK_ESCAPE, VK_RETURN};
use keyviz::selection::{
    drawing_bounds, drawing_hit_test, expand_selected_groups, grouped_indices, hit_test_drawing,
    marquee_selection,
};

fn p(x: i32, y: i32) -> Point {
    Point { x, y }
}

fn shown() -> OverlayState {
    let mut s = OverlayState::new();
    s.set_bounds(Rect { left: 0, top: 0, right: 1920, bottom: 1080 });
    s.mark_shown();
    s
}

fn bounds_of(s: &OverlayState) -> Vec<Rect> {
    s.drawings
        .iter()
        .map(|d| {
            let corners = match d {
                DrawingItem::Number { center, .. } => vec![
                    p(center.x - 10, center.y - 10),
                    p(center.x + 10, center.y + 10),
                ],
                DrawingItem::Text { start, .. } => vec![*start, p(start.x + 40, start.y + 20)],
                DrawingItem::Shape { start, end, .. } => vec![*start, *end],
                DrawingItem::Stroke { .. } => vec![],
            };
            drawing_bounds(d, &corners)
        })
        .collect()
}

fn draw_stroke(s: &mut OverlayState, from: Point, to: Point) {
    s.begin_drawing_at(from);
    let b = bounds_of(s);
    s.update_drawing_at(to, &b);
    s.finish_drawing_at(to);
}

#[test]
fn tools_are_named_as_the_toolbar_names_them() {
    assert_eq!(parse_tool("pen"), Some(NativeTool::Pen));
    assert_eq!(parse_tool("check-mark"), Some(NativeTool::CheckMark));
    assert_eq!(parse_tool("cross-mark"), Some(NativeTool::CrossMark));
    assert_eq!(parse_tool("Pen"), None);
    assert_eq!(parse_tool(""), None);
}

#[test]
fn geometry_helpers() {
    assert!(point_near(p(10, 10), p(13, 7), 3));
    assert!(!point_near(p(10, 10), p(14, 10), 3));
    assert_eq!(number_radius(5), 24);
    assert_eq!(number_radius(-3), 16);
    assert_eq!(number_radius(500), 214);
    assert_eq!(stamp_radius(1), 16);
    assert_eq!(text_font_size(3), 18);
    assert_eq!(text_font_size(10), 40);
    assert_eq!(rect_from_points(p(5, 1), p(2, 9)), Rect { left: 2, top: 1, right: 5, bottom: 9 });
    let a = Rect { left: 0, top: 0, right: 10, bottom: 10 };
    assert!(rects_intersect(a, Rect { left: 10, top: 10, right: 20, bottom: 20 }));
    assert!(!rects_intersect(a, Rect { left: 11, top: 0, right: 20, bottom: 5 }));
    let mut s0 = p(1, 2);
    let mut e0 = p(3, 4);
    translate_point_pair(&mut s0, &mut e0, 10, -1);
    assert_eq!((s0, e0), (p(11, 1), p(13, 3)));
    assert_eq!(lparam_point(0x0002_0001), p(1, 2));
    assert_eq!(lparam_point(0xffff_fffe_u32 as isize), p(-2, -1));
    assert_eq!(wheel_delta(120 << 16), 120);
    assert_eq!(wheel_delta(0xff88 << 16), -120);
}

#[test]
fn pen_stroke_becomes_a_drawing_when_released() {
    let mut s = shown();
    let fx = s.begin_drawing_at(p(10, 10));
    assert!(fx.capture && fx.refresh);
    let b = bounds_of(&s);
    s.update_drawing_at(p(20, 15), &b);
    let fx = s.finish_drawing_at(p(20, 15));
    assert_eq!(fx.history, Some(true));
    assert!(fx.release_capture);
    assert_eq!(s.drawings.len(), 1);
    match &s.drawings[0] {
        DrawingItem::Stroke { points, color, width, erase, rotation, group } => {
            assert_eq!(points, &vec![p(10, 10), p(20, 15)]);
            assert_eq!(*color, 0x002d2bef);
            assert_eq!(*width, 5);
            assert!(!erase);
            assert_eq!(*rotation, 0);
            assert_eq!(*group, None);
        }
        _ => panic!("expected a stroke"),
    }
}

#[test]
fn a_click_with_the_pen_draws_nothing() {
    let mut s = shown();
    s.begin_drawing_at(p(10, 10));
    let fx = s.finish_drawing_at(p(10, 10));
    assert!(fx.release_capture);
    assert_eq!(fx.history, None);
    assert!(s.drawings.is_empty());
    assert!(s.active.is_none());
}

#[test]
fn eraser_is_twelve_times_wider() {
    let mut s = shown();
    s.set_tool(NativeTool::Eraser);
    s.set_width(2);
    s.begin_drawing_at(p(1, 1));
    match &s.active {
        Some(keyviz::overlay::ActiveDrawing::Stroke { color, width, erase, .. }) => {
            assert_eq!(*color, TRANSPARENT_KEY);
            assert_eq!(*width, 24);
            assert!(*erase);
        }
        _ => panic!("expected an eraser stroke"),
    }
}

#[test]
fn numbered_markers_count_up_and_follow_undo() {
    let mut s = shown();
    s.set_tool(NativeTool::Number);
    let fx = s.begin_drawing_at(p(100, 100));
    assert_eq!(fx.history, Some(true));
    assert_eq!(fx.cursor, CursorChange::Rebuild { apply_now: false });
    assert!(fx.raise_toolbar);
    s.begin_drawing_at(p(200, 100));
    s.begin_drawing_at(p(300, 100));
    assert_eq!(s.next_number, 4);
    let fx = s.undo();
    assert_eq!(fx.history, Some(true));
    assert_eq!(s.next_number, 3);
    s.undo();
    s.undo();
    assert_eq!(s.next_number, 1);
    let fx = s.undo();
    assert_eq!(fx.history, Some(false));
}

#[test]
fn stamps_are_centred_on_the_click() {
    let mut s = shown();
    s.set_tool(NativeTool::CheckMark);
    s.set_width(1);
    s.begin_drawing_at(p(100, 100));
    match &s.drawings[0] {
        DrawingItem::Shape { tool, start, end, .. } => {
            assert_eq!(*tool, NativeTool::CheckMark);
            assert_eq!(*start, p(84, 84));
            assert_eq!(*end, p(116, 116));
        }
        _ => panic!("expected a stamp"),
    }
}

#[test]
fn text_is_typed_committed_and_trimmed() {
    let mut s = shown();
    s.set_tool(NativeTool::Text);
    let fx = s.begin_drawing_at(p(50, 60));
    assert!(fx.focus_input);
    for c in "  hi!".chars() {
        s.type_char(c as u32);
    }
    s.type_char(0x07);
    s.type_char(0xd800);
    s.type_char(13);
    s.type_char(b'x' as u32);
    s.key_down(VK_BACK);
    assert_eq!(s.edit.as_ref().unwrap().text, vec![' ', ' ', 'h', 'i', '!']);
    let fx = s.key_down(VK_RETURN);
    assert_eq!(fx.history, Some(true));
    assert!(s.edit.is_none());
    match &s.drawings[0] {
        DrawingItem::Text { start, text, .. } => {
            assert_eq!(*start, p(58, 68));
            assert_eq!(text, &vec!['h', 'i', '!']);
        }
        _ => panic!("expected text"),
    }
}

#[test]
fn blank_text_and_escape_add_nothing() {
    let mut s = shown();
    s.set_tool(NativeTool::Text);
    s.begin_drawing_at(p(5, 5));
    s.type_char(' ' as u32);
    let fx = s.key_down(VK_RETURN);
    assert_eq!(fx.history, None);
    assert!(s.drawings.is_empty());
    s.begin_drawing_at(p(5, 5));
    s.type_char('a' as u32);
    s.key_down(VK_ESCAPE);
    assert!(s.edit.is_none());
    assert!(s.drawings.is_empty());
    let fx = s.key_down(VK_RETURN);
    assert!(!fx.refresh);
}

#[test]
fn hidden_or_pointer_overlay_ignores_presses() {
    let mut s = OverlayState::new();
    let fx = s.begin_drawing_at(p(1, 1));
    assert!(!fx.refresh);
    assert!(s.active.is_none());
    let mut s = shown();
    s.set_tool(NativeTool::Pointer);
    assert!(s.click_through);
    s.begin_drawing_at(p(1, 1));
    assert!(s.active.is_none());
}

#[test]
fn presses_under_the_toolbar_pass_through() {
    let mut s = shown();
    s.set_toolbar_passthrough(Some(Rect { left: 0, top: 0, right: 50, bottom: 50 }));
    let fx = s.begin_drawing_at(p(10, 10));
    assert!(!fx.refresh);
    assert!(s.active.is_none());
    assert!(s.is_toolbar_passthrough_point(p(49, 49), true));
    assert!(!s.is_toolbar_passthrough_point(p(50, 49), true));
    assert_eq!(s.global_point_for_drawing(10, 10), None);
    assert_eq!(s.global_point_for_drawing(100, 200), Some(p(100, 200)));
    assert_eq!(s.global_point_for_drawing(1920, 5), None);
    assert!(s.passes_input_at(p(1, 1)));
    assert!(s.captures_input());
}

#[test]
fn wheel_steps_the_width_within_bounds() {
    let mut s = shown();
    let fx = s.wheel(120);
    assert_eq!(fx.width_changed, Some(6));
    assert_eq!(s.width, 6);
    s.set_width(15);
    s.wheel(120);
    assert_eq!(s.width, 15);
    s.set_tool(NativeTool::Eraser);
    let fx = s.wheel(-120);
    assert_eq!(fx.cursor, CursorChange::Rebuild { apply_now: true });
    assert_eq!(s.width, 14);
    s.set_tool(NativeTool::Select);
    let fx = s.wheel(-120);
    assert_eq!(fx.width_changed, None);
    assert_eq!(s.width, 14);
    let fx = s.wheel(0);
    assert!(!fx.refresh);
}

#[test]
fn selection_moves_groups_and_deletes() {
    let mut s = shown();
    draw_stroke(&mut s, p(10, 10), p(20, 20));
    draw_stroke(&mut s, p(100, 100), p(120, 120));
    draw_stroke(&mut s, p(300, 300), p(310, 310));
    s.set_tool(NativeTool::Select);
    let fx = s.begin_drawing_at(p(200, 200));
    assert!(fx.begin_selection && fx.capture);
    let b = bounds_of(&s);
    s.begin_selection_at(p(200, 200), false, &b);
    assert!(s.selected.is_empty());
    s.update_drawing_at(p(0, 0), &b);
    assert_eq!(s.selected, vec![0, 1]);
    let fx = s.finish_drawing_at(p(0, 0));
    assert!(fx.selection_changed);
    s.toggle_group();
    assert_eq!(s.selected_common_group(), Some(1));
    assert_eq!(s.next_group_id, 2);

    s.begin_drawing_at(p(15, 15));
    let b = bounds_of(&s);
    s.begin_selection_at(p(15, 15), false, &b);
    assert!(s.drag_fits_at(p(25, 35)));
    s.update_drawing_at(p(25, 35), &b);
    s.finish_drawing_at(p(25, 35));
    match &s.drawings[1] {
        DrawingItem::Stroke { points, .. } => assert_eq!(points, &vec![p(110, 120), p(130, 140)]),
        _ => panic!("expected a stroke"),
    }
    match &s.drawings[2] {
        DrawingItem::Stroke { points, .. } => assert_eq!(points, &vec![p(300, 300), p(310, 310)]),
        _ => panic!("expected a stroke"),
    }

    s.toggle_group();
    assert_eq!(s.selected_common_group(), None);
    s.delete_selection_or_clear();
    assert_eq!(s.drawings.len(), 1);
    assert!(s.selected.is_empty());
}

#[test]
fn clear_and_hide_empty_the_document() {
    let mut s = shown();
    draw_stroke(&mut s, p(10, 10), p(20, 20));
    let fx = s.clear();
    assert_eq!(fx.history, Some(false));
    assert!(s.drawings.is_empty());
    draw_stroke(&mut s, p(10, 10), p(20, 20));
    s.hide_canvas();
    assert!(!s.visible);
    assert!(s.drawings.is_empty());
    assert_eq!(s.next_number, 1);
}

#[test]
fn bounds_and_hit_tests() {
    let stroke = DrawingItem::Stroke {
        points: vec![p(10, 20), p(30, 5)],
        color: 0,
        width: 3,
        erase: false,
        rotation: 0,
        group: None,
    };
    assert_eq!(drawing_bounds(&stroke, &vec![]), Rect { left: 2, top: -3, right: 38, bottom: 28 });
    let line = DrawingItem::Shape {
        tool: NativeTool::Line,
        start: p(0, 0),
        end: p(10, 10),
        color: 0,
        width: 0,
        rotation: 0,
        group: None,
    };
    assert_eq!(drawing_bounds(&line, &vec![p(500, 500)]), Rect { left: -6, top: -6, right: 16, bottom: 16 });
    let marker = DrawingItem::Number { center: p(50, 50), value: 1, color: 0, width: 1, rotation: 0, group: None };
    assert_eq!(drawing_bounds(&marker, &vec![]), Rect { left: 45, top: 45, right: 55, bottom: 55 });
    let r = Rect { left: 0, top: 0, right: 10, bottom: 10 };
    assert!(drawing_hit_test(r, p(14, -4)));
    assert!(!drawing_hit_test(r, p(15, 0)));
    let all = vec![r, Rect { left: 5, top: 5, right: 20, bottom: 20 }];
    assert_eq!(hit_test_drawing(&all, p(6, 6)), Some(1));
    assert_eq!(hit_test_drawing(&all, p(-3, -3)), Some(0));
    assert_eq!(hit_test_drawing(&all, p(100, 100)), None);
    assert_eq!(marquee_selection(&all, p(12, 12), p(30, 30)), vec![1]);
}

#[test]
fn groups_expand_the_selection() {
    let item = |g: Option<u64>| DrawingItem::Number { center: p(0, 0), value: 1, color: 0, width: 1, rotation: 0, group: g };
    let drawings = vec![item(Some(7)), item(None), item(Some(7)), item(Some(8))];
    assert_eq!(grouped_indices(&drawings, 2), vec![0, 2]);
    assert_eq!(grouped_indices(&drawings, 1), vec![1]);
    let mut sel = vec![3, 0];
    expand_selected_groups(&drawings, &mut sel);
    assert_eq!(sel, vec![0, 2, 3]);
}

#[test]
fn grouping_twice_gives_back_ungrouped_drawings() {
    let mut s = shown();
    draw_stroke(&mut s, p(10, 10), p(20, 20));
    draw_stroke(&mut s, p(40, 40), p(50, 50));
    s.set_tool(NativeTool::Select);
    s.begin_drawing_at(p(300, 300));
    let b = bounds_of(&s);
    s.begin_selection_at(p(300, 300), false, &b);
    s.update_drawing_at(p(0, 0), &b);
    s.finish_drawing_at(p(0, 0));
    assert_eq!(s.selected, vec![0, 1]);
    s.toggle_group();
    assert!(s.drawings.iter().all(|d| matches!(d, DrawingItem::Stroke { group: Some(1), .. })));
    s.toggle_group();
    assert!(s.drawings.iter().all(|d| matches!(d, DrawingItem::Stroke { group: None, .. })));
    assert_eq!(s.next_group_id, 2);
}

#[test]
fn releasing_a_key_undoes_its_press() {
    let mut s = keyviz::state::SessionState::new();
    s.key_press("KeyA", true);
    let before = s.pressed_keys.clone();
    s.key_press("KeyB", true);
    s.key_release("KeyB");
    assert_eq!(s.pressed_keys, before);
}
