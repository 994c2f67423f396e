use keyviz::native_drawing::{NativeTool, Point, Rect};
use keyviz::native_keys::{build_layout_plan, palette, LayoutMetrics, NativeKeyGroup, NativeKeyItem, Palette};
use keyviz::overlay::{DrawingItem, OverlayState};
use keyviz::window::{
    choose_monitor, key_anchors, monitor_identifier, place_window_checked, Anchor, MonitorChoice,
};
use keyviz::selection::{
    drawing_bounds_checked, drawing_width, selection_bounds, selection_resize_anchor,
    set_drawing_width,
};

fn key(label: &str, pressed: bool) -> NativeKeyItem {
    NativeKeyItem { label: label.to_string(), modifier: false, mouse_kind: None, pressed }
}

fn metrics() -> LayoutMetrics {
    LayoutMetrics {
        key_height: 30,
        key_gap: 5,
        group_gap: 8,
        padding: 10,
        group_padding: 4,
        plus_width: 10,
        plus_offset: 0,
        bottom_margin: 16,
    }
}

#[test]
fn the_software_layout_centres_each_plus_and_leaves_no_bottom_margin() {
    let groups = vec![NativeKeyGroup { keys: vec![key("Ctrl", false), key("C", false), key("V", false)] }];
    let widths = vec![vec![50, 30, 30]];
    let m = LayoutMetrics { plus_offset: 7, bottom_margin: 0, ..metrics() };
    let plan = build_layout_plan(&groups, &widths, m, true);
    // Group width: 50 + 30 + 30 + 2 * (5 * 2 + 10) + 2 * 4 = 158.
    assert_eq!(plan.width, 158 + 20);
    assert_eq!(plan.height, 38 + 20);
    let g = &plan.groups[0];
    assert_eq!(g.plus_positions, vec![Point { x: 76, y: 29 }, Point { x: 126, y: 29 }]);
    assert_eq!(g.keys[2], Rect { left: 134, top: 14, right: 164, bottom: 44 });
}

#[test]
fn keys_are_laid_out_in_a_row() {
    let groups = vec![
        NativeKeyGroup { keys: vec![key("Ctrl", false), key("C", true)] },
        NativeKeyGroup { keys: vec![key("A", false)] },
    ];
    let widths = vec![vec![50, 30], vec![40]];
    let plan = build_layout_plan(&groups, &widths, metrics(), true);
    // Group widths: 50 + 30 + (5 * 2 + 10) + 2 * 4 = 108, and 40 + 8 = 48.
    assert_eq!(plan.width, 108 + 8 + 48 + 20);
    assert_eq!(plan.height, 38 + 20 + 16);
    assert_eq!(plan.groups.len(), 2);
    let first = &plan.groups[0];
    assert_eq!(first.rect, Rect { left: 10, top: 10, right: 118, bottom: 48 });
    assert_eq!(first.keys[0], Rect { left: 14, top: 14, right: 64, bottom: 44 });
    assert_eq!(first.keys[1], Rect { left: 84, top: 16, right: 114, bottom: 46 });
    assert_eq!(first.plus_positions, vec![Point { x: 69, y: 29 }]);
    let second = &plan.groups[1];
    assert_eq!(second.rect, Rect { left: 126, top: 10, right: 174, bottom: 48 });
    assert!(second.plus_positions.is_empty());
}

#[test]
fn keys_are_stacked_in_a_column() {
    let groups = vec![
        NativeKeyGroup { keys: vec![key("A", false)] },
        NativeKeyGroup { keys: vec![key("B", false)] },
    ];
    let widths = vec![vec![40], vec![60]];
    let plan = build_layout_plan(&groups, &widths, metrics(), false);
    assert_eq!(plan.width, 68 + 20);
    assert_eq!(plan.height, 2 * (38 + 8) - 8 + 20 + 16);
    assert_eq!(plan.groups[1].rect, Rect { left: 10, top: 56, right: 78, bottom: 94 });
}

#[test]
fn an_empty_layout_is_small() {
    let plan = build_layout_plan(&vec![], &vec![], metrics(), false);
    assert_eq!(plan.width, 1 + 20);
    assert_eq!(plan.height, 20 + 16);
    let plan = build_layout_plan(&vec![], &vec![], metrics(), true);
    assert_eq!(plan.width, 20);
}

#[test]
fn key_styles_have_palettes() {
    let outline = palette("outline");
    assert_eq!(outline.border_units, 2);
    assert_eq!(outline.shadow_units, None);
    assert_eq!(outline.shadow, 0x030201);
    let dark = palette("dark");
    assert_eq!(dark.key, 0x382820);
    assert_eq!(dark.border, dark.shadow);
    assert_eq!(dark.shadow_units, Some(6));
    let other: Palette = palette("anything");
    assert_eq!(other.text, 0x242120);
    assert_eq!(other.shadow_units, Some(3));
}

#[test]
fn monitors_are_named_and_chosen() {
    assert_eq!(monitor_identifier(Some("DISPLAY1".to_string()), 0, 0), "DISPLAY1");
    assert_eq!(monitor_identifier(None, -1920, 0), "position:-1920,0");
    assert_eq!(monitor_identifier(None, 2147483647, -2147483648), "position:2147483647,-2147483648");
    let ids = vec!["A".to_string(), "B".to_string(), "B".to_string()];
    assert_eq!(choose_monitor(&ids, "B", true), MonitorChoice::Listed(1));
    assert_eq!(choose_monitor(&ids, "C", true), MonitorChoice::Primary);
    assert_eq!(choose_monitor(&ids, "C", false), MonitorChoice::Listed(0));
    assert_eq!(choose_monitor(&vec![], "C", false), MonitorChoice::Missing);
}

#[test]
fn checked_placement_refuses_overflow() {
    let anchors = key_anchors("bottom-right");
    assert_eq!(anchors, (Anchor::End, Anchor::End));
    assert_eq!(place_window_checked(anchors, (0, 0), (1920, 1080), (100, 50), (10, 10)), Some((1810, 1020)));
    assert_eq!(place_window_checked(anchors, (i32::MAX, 0), (1920, 1080), (100, 50), (10, 10)), None);
    assert_eq!(place_window_checked(anchors, (0, 0), (i32::MIN, 0), (100, 50), (10, 10)), None);
}

#[test]
fn bounds_are_checked_and_unioned() {
    let far = DrawingItem::Number { center: Point { x: i32::MAX, y: 0 }, value: 1, color: 0, width: 1, rotation: 0, group: None };
    assert_eq!(drawing_bounds_checked(&far, &vec![]), None);
    let near = DrawingItem::Number { center: Point { x: 0, y: 0 }, value: 1, color: 0, width: 1, rotation: 0, group: None };
    assert_eq!(drawing_bounds_checked(&near, &vec![]), Some(Rect { left: -5, top: -5, right: 5, bottom: 5 }));
    let bounds = vec![
        Rect { left: 0, top: 0, right: 10, bottom: 10 },
        Rect { left: 20, top: -5, right: 30, bottom: 5 },
        Rect { left: 100, top: 100, right: 110, bottom: 110 },
    ];
    assert_eq!(selection_bounds(&bounds, &vec![0, 1]), Some(Rect { left: 0, top: -5, right: 30, bottom: 10 }));
    assert_eq!(selection_bounds(&bounds, &vec![]), None);
}

#[test]
fn resize_handles_anchor_the_opposite_corner() {
    let corners = [Point { x: 0, y: 0 }, Point { x: 100, y: 0 }, Point { x: 100, y: 50 }, Point { x: 0, y: 50 }];
    assert_eq!(selection_resize_anchor(corners, Point { x: 105, y: 55 }), Some(Point { x: 0, y: 0 }));
    assert_eq!(selection_resize_anchor(corners, Point { x: 10, y: -10 }), Some(Point { x: 100, y: 50 }));
    assert_eq!(selection_resize_anchor(corners, Point { x: 50, y: 25 }), None);
}

#[test]
fn drawing_width_is_kept_within_bounds() {
    let mut item = DrawingItem::Shape { tool: NativeTool::Line, start: Point { x: 0, y: 0 }, end: Point { x: 1, y: 1 }, color: 0, width: 3, rotation: 0, group: None };
    assert_eq!(drawing_width(&item), 3);
    set_drawing_width(&mut item, 500);
    assert_eq!(drawing_width(&item), 100);
    set_drawing_width(&mut item, 0);
    assert_eq!(drawing_width(&item), 1);
}

#[test]
fn undo_after_a_stroke_gives_back_the_document() {
    let mut s = OverlayState::new();
    s.set_bounds(Rect { left: 0, top: 0, right: 100, bottom: 100 });
    s.mark_shown();
    s.begin_drawing_at(Point { x: 1, y: 1 });
    s.update_drawing_at(Point { x: 2, y: 2 }, &vec![]);
    s.finish_drawing_at(Point { x: 2, y: 2 });
    assert_eq!(s.drawings.len(), 1);
    s.undo();
    assert!(s.drawings.is_empty());
}
