use keyviz::event::{
    drawing_move_due, raw_key_codes, raw_key_is_down, shortcut_edges, shortcut_is_down,
    shortcut_key_matches, shortcut_pressed, DrawingShortcutLevels, KeyboardSnapshot,
};
use keyviz::state::{
    default_drawing_clear_shortcut, default_drawing_close_shortcut,
    default_drawing_pointer_shortcut, default_drawing_toggle_shortcut,
    default_cursor_color, default_drawing_undo_shortcut, default_toggle_shortcut, drawing_label,
    quit_label, settings_label, toggle_label, DrawingShortcutActions, DrawingToggle,
    KeyPressOutcome, SessionState, StoredCursorStyle, StoredShortcuts,
};

fn keys(names: &[&str]) -> Vec<String> {
    names.iter().map(|n| n.to_string()).collect()
}

#[test]
fn key_names_match_their_aliases() {
    assert!(shortcut_key_matches("KeyA", "KeyA"));
    assert!(shortcut_key_matches("ShiftLeft", "Shift"));
    assert!(shortcut_key_matches("Shift", "ShiftRight"));
    assert!(shortcut_key_matches("ControlRight", "Control"));
    assert!(shortcut_key_matches("Alt", "AltLeft"));
    assert!(!shortcut_key_matches("AltLeft", "Alt"));
    assert!(shortcut_key_matches("MetaLeft", "Meta"));
    assert!(shortcut_key_matches("Num0", "Kp0"));
    assert!(shortcut_key_matches("Kp7", "Num7"));
    assert!(!shortcut_key_matches("Num1", "Kp2"));
    assert!(!shortcut_key_matches("ShiftLeft", "ShiftRight"));
}

#[test]
fn shortcut_needs_every_key() {
    let shortcut = keys(&["ControlLeft", "Num0"]);
    assert!(shortcut_pressed(&keys(&["ControlLeft", "Kp0"]), &shortcut));
    assert!(shortcut_pressed(&keys(&["KeyA", "Control", "Num0"]), &shortcut));
    assert!(!shortcut_pressed(&keys(&["ControlLeft"]), &shortcut));
    assert!(!shortcut_pressed(&keys(&["ControlLeft", "Num0"]), &[]));
}

#[test]
fn default_shortcuts() {
    assert_eq!(default_toggle_shortcut(), keys(&["ShiftLeft", "F10"]));
    assert_eq!(default_drawing_toggle_shortcut(), keys(&["F8"]));
    assert_eq!(default_drawing_pointer_shortcut(), keys(&["F7"]));
    assert_eq!(default_cursor_color(), "#ff0000");
    let s = SessionState::new();
    assert_eq!(s.drawing_toggle_shortcut, keys(&["F8"]));
    assert_eq!(s.drawing_pointer_shortcut, keys(&["F7"]));
    assert_eq!(s.cursor_color, "#ff0000");
    assert!(s.cursor_keep_highlight);
    assert_eq!(default_drawing_clear_shortcut(), keys(&["Delete"]));
    assert_eq!(default_drawing_undo_shortcut(), keys(&["ControlLeft", "KeyZ"]));
    assert_eq!(default_drawing_close_shortcut(), keys(&["Escape"]));
}

#[test]
fn virtual_key_codes() {
    assert_eq!(raw_key_codes("ShiftLeft"), vec![0x10, 0xA0]);
    assert_eq!(raw_key_codes("Num3"), vec![0x33, 0x63]);
    assert_eq!(raw_key_codes("KeyZ"), vec![b'Z']);
    assert_eq!(raw_key_codes("F10"), vec![0x79]);
    assert_eq!(raw_key_codes("Escape"), vec![0x1B]);
    assert_eq!(raw_key_codes("Whatever"), Vec::<u8>::new());
}

#[test]
fn keyboard_snapshot_tells_held_keys() {
    let mut down = vec![false; 256];
    down[0xA2] = true;
    down[0x60] = true;
    let keyboard = KeyboardSnapshot { down };
    assert!(raw_key_is_down("ControlLeft", &keyboard));
    assert!(raw_key_is_down("Num0", &keyboard));
    assert!(!raw_key_is_down("ShiftLeft", &keyboard));
    assert!(shortcut_is_down(&keys(&["ControlLeft", "Num0"]), &keyboard));
    assert!(!shortcut_is_down(&keys(&["ControlLeft", "Num9"]), &keyboard));
    assert!(!shortcut_is_down(&[], &keyboard));
    let short = KeyboardSnapshot { down: vec![true; 4] };
    assert!(!raw_key_is_down("Escape", &short));
}

#[test]
fn shortcut_edges_fire_once() {
    let off = DrawingShortcutLevels { toggle: false, pointer: false, clear: false, undo: false, close: false };
    let on = DrawingShortcutLevels { toggle: true, ..off };
    assert!(shortcut_edges(&off, &on).toggle);
    assert!(!shortcut_edges(&on, &on).toggle);
    assert!(!shortcut_edges(&on, &off).toggle);
}

#[test]
fn pointer_moves_are_throttled() {
    assert!(drawing_move_due(true, true, None));
    assert!(drawing_move_due(true, true, Some(16)));
    assert!(!drawing_move_due(true, true, Some(15)));
    assert!(!drawing_move_due(false, true, None));
    assert!(!drawing_move_due(true, false, None));
}

#[test]
fn tray_labels_follow_the_locale() {
    assert_eq!(toggle_label(true, "en"), "Stop");
    assert_eq!(toggle_label(false, "en"), "Start");
    assert_eq!(toggle_label(true, "zh-TW"), "\u{505c}\u{6b62}\u{986f}\u{793a}");
    assert_eq!(settings_label("zh-TW"), "\u{8a2d}\u{5b9a}");
    assert_eq!(settings_label("fr"), "Settings");
    assert_eq!(drawing_label("en"), "Screen Drawing");
    assert_eq!(quit_label("en"), "Quit");
}

#[test]
fn key_press_records_and_toggles_display() {
    let mut s = SessionState::new();
    assert!(s.listening);
    assert_eq!(s.key_press("KeyA", true), KeyPressOutcome::Recorded { toggled: false, emit: true });
    assert_eq!(s.key_press("KeyA", true), KeyPressOutcome::Ignored);
    assert_eq!(s.key_press("Unknown(12)", true), KeyPressOutcome::Ignored);
    assert_eq!(s.key_press("ShiftLeft", true), KeyPressOutcome::Recorded { toggled: false, emit: true });
    assert_eq!(s.key_press("F10", true), KeyPressOutcome::Recorded { toggled: true, emit: false });
    assert!(!s.listening);
    assert_eq!(s.pressed_keys, keys(&["KeyA", "ShiftLeft", "F10"]));
    assert!(!s.key_release("ShiftLeft"));
    assert_eq!(s.pressed_keys, keys(&["KeyA", "F10"]));
}

#[test]
fn drawing_shortcuts_act_only_while_drawing() {
    let mut s = SessionState::new();
    assert_eq!(s.key_press("F8", true), KeyPressOutcome::ToggleDrawing { was_visible: false });
    assert!(s.pressed_keys.is_empty());
    let id = s.open_drawing();
    assert_eq!(id, 1);
    assert!(s.drawing_visible);
    assert_eq!(s.key_press("F7", true), KeyPressOutcome::DrawingPointer);
    assert!(s.drawing_input_passthrough);
    assert_eq!(s.key_press("Escape", true), KeyPressOutcome::DrawingClose);
    s.close_drawing();
    assert!(!s.drawing_visible);
    assert_eq!(s.drawing_session_id, 2);
    assert_eq!(s.key_press("Delete", true), KeyPressOutcome::Recorded { toggled: false, emit: true });
}

#[test]
fn buttons_and_cursor_ticks() {
    let mut s = SessionState::new();
    assert!(!s.left_button_pressed());
    s.open_drawing();
    s.set_click_through(true);
    assert!(s.left_button_pressed());
    assert!(s.drawing_pointer_down);
    assert!(s.left_button_released());
    assert!(!s.drawing_pointer_down);
    s.cursor_moved();
    let tick = s.cursor_tick(false).unwrap();
    assert!(tick.visible && tick.visibility_changed);
    let again = s.cursor_tick(true).unwrap();
    assert!(again.visible && !again.visibility_changed);
    s.cursor_keep_highlight = false;
    assert!(s.cursor_tick(true).is_none());
}

#[test]
fn drawing_edit_shortcuts_keep_the_keys_held() {
    let mut s = SessionState::new();
    s.open_drawing();
    assert_eq!(s.key_press("Delete", true), KeyPressOutcome::DrawingClear);
    assert_eq!(s.pressed_keys, keys(&["Delete"]));
    s.key_release("Delete");
    s.key_press("ControlLeft", true);
    assert_eq!(s.key_press("KeyZ", true), KeyPressOutcome::DrawingUndo);
    assert_eq!(s.pressed_keys, keys(&["ControlLeft", "KeyZ"]));
    assert!(s.drawing_shortcut_edit());
    assert!(s.pressed_keys.is_empty());
    s.close_drawing();
    assert!(!s.drawing_shortcut_edit());
    assert!(!s.enter_pointer_mode());
}

#[test]
fn polled_shortcut_levels_follow_the_keyboard() {
    let s = SessionState::new();
    let mut down = vec![false; 256];
    down[0x2E] = true;
    let levels = s.drawing_shortcut_levels(&KeyboardSnapshot { down });
    assert!(levels.clear);
    assert!(!levels.toggle && !levels.pointer && !levels.undo && !levels.close);
}

#[test]
fn listener_can_leave_drawing_shortcuts_to_the_poller() {
    let mut s = SessionState::new();
    assert_eq!(s.key_press("F8", false), KeyPressOutcome::Recorded { toggled: false, emit: true });
    assert!(!s.drawing_visible);
}

fn levels(toggle: bool, pointer: bool, clear: bool, undo: bool, close: bool) -> DrawingShortcutLevels {
    DrawingShortcutLevels { toggle, pointer, clear, undo, close }
}

#[test]
fn polled_toggle_opens_or_closes_drawing() {
    let mut s = SessionState::new();
    assert_eq!(s.poll_drawing_toggle(false), DrawingToggle::Unchanged);
    s.key_press("KeyA", true);
    assert_eq!(s.poll_drawing_toggle(true), DrawingToggle::Open);
    assert_eq!(s.pressed_keys, keys(&["KeyA"]));
    assert!(!s.drawing_visible);
    s.open_drawing();
    s.key_press("KeyB", true);
    assert_eq!(s.poll_drawing_toggle(true), DrawingToggle::Close);
    assert!(!s.drawing_visible);
    assert!(s.pressed_keys.is_empty());
    assert_eq!(s.drawing_session_id, 2);
}

#[test]
fn every_polled_shortcut_that_rose_acts() {
    let mut s = SessionState::new();
    s.open_drawing();
    s.key_press("KeyA", true);
    let a = s.poll_drawing_edits(&levels(false, true, true, true, false));
    assert_eq!(a, DrawingShortcutActions { clear: true, undo: true, close: false, pointer: true });
    assert!(s.pressed_keys.is_empty());
    assert!(s.drawing_visible && s.drawing_input_passthrough && !s.drawing_pointer_down);

    let a = s.poll_drawing_edits(&levels(false, true, false, true, true));
    assert_eq!(a, DrawingShortcutActions { clear: false, undo: true, close: true, pointer: false });
    assert!(!s.drawing_visible && !s.drawing_input_passthrough);

    let a = s.poll_drawing_edits(&levels(true, true, true, true, true));
    assert_eq!(a, DrawingShortcutActions { clear: false, undo: false, close: false, pointer: false });
}

#[test]
fn stored_settings_replace_what_could_be_read() {
    let mut s = SessionState::new();
    s.apply_stored_settings(None, None, None);
    assert_eq!(s.drawing_toggle_shortcut, keys(&["F8"]));
    assert_eq!(s.locale, "zh-TW");
    s.apply_stored_settings(
        Some(StoredShortcuts {
            toggle: keys(&["F9"]),
            drawing_toggle: keys(&["ControlLeft", "Num0"]),
            drawing_pointer: keys(&["ControlLeft", "Num9"]),
            drawing_clear: keys(&["Delete"]),
            drawing_undo: keys(&["ControlLeft", "KeyZ"]),
            drawing_close: keys(&["Escape"]),
        }),
        Some(StoredCursorStyle { keep_highlight: false, color: "#00ff00".to_string() }),
        Some("en".to_string()),
    );
    assert_eq!(s.toggle_shortcut, keys(&["F9"]));
    assert_eq!(s.drawing_toggle_shortcut, keys(&["ControlLeft", "Num0"]));
    assert_eq!(s.drawing_pointer_shortcut, keys(&["ControlLeft", "Num9"]));
    assert!(!s.cursor_keep_highlight);
    assert_eq!(s.cursor_color, "#00ff00");
    assert_eq!(s.locale, "en");
}
