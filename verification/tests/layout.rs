use keyviz::command_queue::{monitor_rects, queue_drawing_command, surface_for_point, surface_layout_matches, virtual_point_from_client, DrawingCommand};
use keyviz::native_drawing::{Point, Rect};
use keyviz::overlay::OverlayState;
use keyviz::pixels::{canvas_pixel, cursor_mask, opaque_cursor_pixels};
use keyviz::window::{
    alignment_anchors, key_anchors, monitors_union, place_window, toolbar_passthrough_area,
    toolbar_spot, Anchor, MonitorArea, OverlayAlignment,
};
use keyviz::text::wide;
use keyviz::tool_cursor::{
    digit_count, drawn_cursor, eraser_cursor_geometry, marker_cursor_geometry, marker_font_size,
    stamp_pen_width, system_cursor, CursorSlot, DrawnCursor, SystemCursor,
};
use keyviz::native_drawing::NativeTool;
use std::collections::VecDeque;

#[test]
fn alignment_places_the_overlay() {
    let anchors = alignment_anchors(OverlayAlignment::BottomRight);
    assert_eq!(anchors, (Anchor::End, Anchor::End));
    assert_eq!(place_window(anchors, (100, 0), (1920, 1080), (200, 50), (10, 20)), (1810, 1010));
    let centre = alignment_anchors(OverlayAlignment::Center);
    assert_eq!(place_window(centre, (0, 0), (1920, 1080), (201, 51), (10, 20)), (859, 514));
    let top_left = alignment_anchors(OverlayAlignment::TopLeft);
    assert_eq!(place_window(top_left, (-1920, 0), (1920, 1080), (200, 50), (-5, 7)), (-1920, 7));
    assert_eq!(place_window(centre, (0, 0), (100, 100), (301, 50), (0, 0)), (0, 25));
}

#[test]
fn key_overlay_reads_alignment_names() {
    assert_eq!(key_anchors("top-left"), (Anchor::Start, Anchor::Start));
    assert_eq!(key_anchors("center-right"), (Anchor::End, Anchor::Middle));
    assert_eq!(key_anchors("bottom-center"), (Anchor::Middle, Anchor::End));
    assert_eq!(key_anchors("nonsense"), (Anchor::Middle, Anchor::End));
}

#[test]
fn monitors_union_covers_every_monitor() {
    let monitors = vec![
        MonitorArea { x: 0, y: 0, width: 1920, height: 1080 },
        MonitorArea { x: -1280, y: 200, width: 1280, height: 1024 },
    ];
    assert_eq!(monitors_union(&monitors), Rect { left: -1280, top: 0, right: 1920, bottom: 1224 });
    assert_eq!(monitors_union(&vec![]), Rect { left: 0, top: 0, right: 1, bottom: 1 });
}

#[test]
fn toolbar_sits_at_the_right_of_the_primary_monitor() {
    let primary = MonitorArea { x: 0, y: 0, width: 1920, height: 1080 };
    assert_eq!(toolbar_spot(primary), (1848, 8, 820));
    let small = MonitorArea { x: 10, y: 20, width: 800, height: 600 };
    assert_eq!(toolbar_spot(small), (738, 28, 584));
    let tiny = MonitorArea { x: 0, y: 0, width: 100, height: 10 };
    assert_eq!(toolbar_spot(tiny).2, 0);
    assert_eq!(
        toolbar_passthrough_area(Rect { left: 100, top: 100, right: 148, bottom: 400 }),
        Rect { left: 88, top: 88, right: 160, bottom: 412 }
    );
}

#[test]
fn canvas_pixels_become_transparent_or_opaque() {
    assert_eq!(canvas_pixel(0x0001_0203, false), 0);
    assert_eq!(canvas_pixel(0xff01_0203, false), 0);
    assert_eq!(canvas_pixel(0, false), 0);
    assert_eq!(canvas_pixel(0x0012_3456, false), 0xff12_3456);
    assert_eq!(canvas_pixel(0x8012_3456, false), 0x8012_3456);
    assert_eq!(canvas_pixel(0xff00_0000, false), 0xff00_0000);
    assert_eq!(canvas_pixel(0x0012_3456, true), 0);
}

#[test]
fn canvas_under_the_toolbar_is_cleared() {
    let mut s = OverlayState::new();
    s.set_toolbar_passthrough(Some(Rect { left: 11, top: 20, right: 12, bottom: 21 }));
    let mut pixels = vec![0x0000_00ffu32; 6];
    s.finish_canvas(&mut pixels, 3, Point { x: 10, y: 20 });
    assert_eq!(pixels, vec![0xff00_00ff, 0, 0xff00_00ff, 0xff00_00ff, 0xff00_00ff, 0xff00_00ff]);
}

#[test]
fn cursor_pixels_and_mask() {
    let mut pixels = vec![0u32; 9];
    pixels[0] = 0x0000_0001;
    pixels[4] = 0x00ff_0000;
    pixels[8] = 0x7f00_0000;
    opaque_cursor_pixels(&mut pixels);
    assert_eq!(pixels[0], 0xff00_0001);
    assert_eq!(pixels[4], 0xffff_0000);
    assert_eq!(pixels[8], 0x7f00_0000);
    assert_eq!(pixels[1], 0);
    let mask = cursor_mask(&pixels, 3);
    assert_eq!(mask, vec![0x7f, 0xff, 0xbf, 0xff, 0xdf, 0xff]);
}

#[test]
fn wide_strings_end_in_zero() {
    assert_eq!(wide("Ab"), vec![0x41, 0x62, 0]);
    assert_eq!(wide("\u{1F600}"), vec![0xd83d, 0xde00, 0]);
    assert_eq!(wide(""), vec![0]);
    assert_eq!(wide("\u{6b63}"), vec![0x6b63, 0]);
}

#[test]
fn pointer_moves_coalesce_in_the_queue() {
    let mut q = VecDeque::new();
    queue_drawing_command(&mut q, DrawingCommand::PointerDown { x: 1, y: 1 });
    queue_drawing_command(&mut q, DrawingCommand::PointerMove { x: 2, y: 2 });
    queue_drawing_command(&mut q, DrawingCommand::PointerMove { x: 3, y: 3 });
    assert_eq!(q.len(), 2);
    assert!(matches!(q[1], DrawingCommand::PointerMove { x: 3, y: 3 }));
    queue_drawing_command(&mut q, DrawingCommand::PointerUp { x: 3, y: 3 });
    queue_drawing_command(&mut q, DrawingCommand::PointerMove { x: 4, y: 4 });
    assert_eq!(q.len(), 4);
}

#[test]
fn surfaces_for_points() {
    let a = Rect { left: 0, top: 0, right: 100, bottom: 100 };
    let b = Rect { left: 100, top: 0, right: 200, bottom: 100 };
    let surfaces = vec![a, b];
    assert!(surface_layout_matches(&surfaces, &vec![a, b]));
    assert!(!surface_layout_matches(&surfaces, &vec![b, a]));
    assert!(!surface_layout_matches(&surfaces, &vec![a]));
    assert_eq!(surface_for_point(&surfaces, Point { x: 0, y: 0 }, Point { x: 150, y: 5 }), Some(1));
    assert_eq!(surface_for_point(&surfaces, Point { x: 0, y: 0 }, Point { x: 500, y: 5 }), Some(0));
    assert_eq!(surface_for_point(&vec![], Point { x: 0, y: 0 }, Point { x: 5, y: 5 }), None);
    assert_eq!(
        virtual_point_from_client(b, Rect { left: -50, top: 0, right: 200, bottom: 100 }, Point { x: 5, y: 6 }),
        Point { x: 155, y: 6 }
    );
}

#[test]
fn tool_cursors() {
    assert_eq!(drawn_cursor(NativeTool::CrossMark), Some(DrawnCursor::Stamp));
    assert_eq!(drawn_cursor(NativeTool::Line), None);
    assert_eq!(system_cursor(NativeTool::Select), SystemCursor::Arrow);
    assert_eq!(system_cursor(NativeTool::Text), SystemCursor::IBeam);
    assert_eq!(system_cursor(NativeTool::Pen), SystemCursor::Cross);
    assert_eq!(eraser_cursor_geometry(5), (60, 80, 40));
    assert_eq!(eraser_cursor_geometry(40), (180, 200, 100));
    assert_eq!(marker_cursor_geometry(5), (24, 56, 28));
    assert_eq!(marker_cursor_geometry(50), (44, 96, 48));
    assert_eq!(marker_font_size(24, 1), 28);
    assert_eq!(marker_font_size(24, 3), 24);
    assert_eq!(marker_font_size(10, 1), 16);
    assert_eq!(stamp_pen_width(1), 2);
    assert_eq!(digit_count(0), 1);
    assert_eq!(digit_count(99), 2);
    assert_eq!(digit_count(100), 3);
    assert_eq!(digit_count(u32::MAX), 10);
}

#[test]
fn replaced_cursors_are_destroyed_but_never_the_current_one() {
    let mut slot = CursorSlot::new();
    assert!(slot.replace(0, true, true).is_empty());
    assert!(slot.replace(11, true, false).is_empty());
    assert!(slot.replace(12, true, false).is_empty());
    assert_eq!(slot.retired, vec![11]);
    assert!(slot.replace(13, false, false).is_empty());
    assert_eq!(slot.retired, vec![11, 12]);
    assert!(slot.replace(14, true, false).is_empty());
    assert_eq!(slot.retired, vec![11, 12]);
    assert_eq!(slot.replace(14, true, true), vec![11, 12]);
    assert!(slot.retired.is_empty());
    assert_eq!(slot.current, 14);
}

#[test]
fn monitor_extents_become_rectangles() {
    assert_eq!(
        monitor_rects(&vec![(0, 0, 1920, 1080), (-1280, 100, 1280, 1024)]),
        Some(vec![
            Rect { left: 0, top: 0, right: 1920, bottom: 1080 },
            Rect { left: -1280, top: 100, right: 0, bottom: 1124 },
        ])
    );
    assert_eq!(monitor_rects(&vec![(i32::MAX, 0, 1, 1)]), None);
    assert_eq!(monitor_rects(&vec![]), Some(vec![]));
}
