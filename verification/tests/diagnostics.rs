use keyviz::diagnostics::{
    inspect_window, millis_as_u64, unix_time_ms, DiagnosticError, RecentErrors, WindowProbe,
    MAX_RECENT_ERRORS, WS_EX_LAYERED, WS_EX_NOACTIVATE, WS_EX_NOREDIRECTIONBITMAP, WS_EX_TOPMOST,
    WS_EX_TRANSPARENT,
};

#[test]
fn unix_timestamp_is_available() {
    assert!(unix_time_ms() > 1_700_000_000_000);
}

#[test]
fn millis_are_held_at_the_largest_u64() {
    assert_eq!(millis_as_u64(Some(1_700_000_000_123)), 1_700_000_000_123);
    assert_eq!(millis_as_u64(Some(u64::MAX as u128 + 5)), u64::MAX);
    assert_eq!(millis_as_u64(None), 0);
}

#[test]
fn error_carries_its_time_and_message() {
    let e = DiagnosticError::new(42, "disk full".to_string());
    assert_eq!(e.timestamp_unix_ms(), 42);
    assert_eq!(e.message(), "disk full");
    let copy = e.duplicate();
    assert_eq!(copy.timestamp_unix_ms(), 42);
    assert_eq!(copy.message(), "disk full");
}

#[test]
fn recent_errors_keep_the_last_hundred_in_order() {
    let mut log = RecentErrors::new();
    assert_eq!(log.len(), 0);
    for i in 0..250u64 {
        log.record(DiagnosticError::new(i, format!("error {i}")));
    }
    assert_eq!(log.len(), MAX_RECENT_ERRORS);
    let errors = log.recent_errors();
    assert_eq!(errors.len(), 100);
    assert_eq!(errors[0].timestamp_unix_ms(), 150);
    assert_eq!(errors[0].message(), "error 150");
    assert_eq!(errors[99].timestamp_unix_ms(), 249);
    for (k, e) in errors.iter().enumerate() {
        assert_eq!(e.timestamp_unix_ms(), 150 + k as u64);
    }
}

#[test]
fn recent_errors_below_capacity_keep_everything() {
    let mut log = RecentErrors::new();
    log.record(DiagnosticError::new(1, "a".to_string()));
    log.record(DiagnosticError::new(2, "b".to_string()));
    let errors = log.recent_errors();
    assert_eq!(errors.len(), 2);
    assert_eq!(errors[0].message(), "a");
    assert_eq!(errors[1].message(), "b");
}

#[test]
fn window_entry_reads_the_style_bits() {
    let probe = WindowProbe {
        exists: true,
        visible: true,
        rect: Some([0, 0, 1920, 1080]),
        ex_style: WS_EX_TOPMOST | WS_EX_LAYERED | WS_EX_NOACTIVATE,
    };
    let d = inspect_window("drawing", "display", 0x1234, Some([0, 0, 1920, 1080]), Some([1920, 1080]), Some(probe));
    assert_eq!(d.source, "drawing");
    assert_eq!(d.role, "display");
    assert_eq!(d.hwnd, 0x1234);
    assert!(d.exists && d.visible);
    assert!(d.topmost && d.layered && d.no_activate);
    assert!(!d.transparent_input && !d.no_redirection_bitmap);
    assert_eq!(d.rect, Some([0, 0, 1920, 1080]));
    assert_eq!(d.expected_rect, Some([0, 0, 1920, 1080]));
    assert_eq!(d.canvas_size, Some([1920, 1080]));
}

#[test]
fn window_entry_of_a_click_through_surface() {
    let probe = WindowProbe {
        exists: true,
        visible: false,
        rect: None,
        ex_style: WS_EX_TRANSPARENT | WS_EX_NOREDIRECTIONBITMAP,
    };
    let d = inspect_window("drawing", "input", 7, None, None, Some(probe));
    assert!(d.exists && !d.visible);
    assert!(d.transparent_input && d.no_redirection_bitmap);
    assert!(!d.topmost && !d.layered && !d.no_activate);
    assert_eq!(d.rect, None);
}

#[test]
fn window_entry_of_a_missing_window_reads_nothing() {
    let probe = WindowProbe { exists: false, visible: true, rect: Some([1, 2, 3, 4]), ex_style: u32::MAX };
    let d = inspect_window("keys", "overlay", 9, Some([1, 2, 3, 4]), None, Some(probe));
    assert!(!d.exists && !d.visible && !d.topmost && !d.layered);
    assert!(!d.transparent_input && !d.no_activate && !d.no_redirection_bitmap);
    assert_eq!(d.rect, None);
    assert_eq!(d.expected_rect, Some([1, 2, 3, 4]));

    let unasked = inspect_window("cursor", "overlay", 3, None, Some([8, 8]), None);
    assert!(!unasked.exists && !unasked.visible && !unasked.topmost);
    assert_eq!(unasked.rect, None);
    assert_eq!(unasked.canvas_size, Some([8, 8]));
}
