use vstd::prelude::*;

use crate::event::{
    names, raw_key_down_spec, shortcut_down_spec, shortcut_is_down, shortcut_pressed,
    shortcut_satisfied, DrawingShortcutLevels, KeyboardSnapshot,
};
use crate::text::{str_contains_char, str_eq};

verus! {

/// The state of the input listener and of the drawing session that the
/// program keeps between events. Floating-point cursor and monitor
/// geometry is kept beside it by the application.
pub struct SessionState {
    /// Whether key events are shown.
    pub listening: bool,
    /// Names of the keys held, in the order they were pressed.
    pub pressed_keys: Vec<String>,
    /// Shortcut that turns the key display on and off.
    pub toggle_shortcut: Vec<String>,
    /// Shortcut that opens or closes screen drawing.
    pub drawing_toggle_shortcut: Vec<String>,
    /// Shortcut that switches screen drawing to pointer mode.
    pub drawing_pointer_shortcut: Vec<String>,
    /// Shortcut that clears the drawing (or deletes the selection).
    pub drawing_clear_shortcut: Vec<String>,
    /// Shortcut that undoes the last drawing.
    pub drawing_undo_shortcut: Vec<String>,
    /// Shortcut that closes screen drawing.
    pub drawing_close_shortcut: Vec<String>,
    /// Language of the tray menu.
    pub locale: String,
    /// Whether the cursor highlight stays visible.
    pub cursor_keep_highlight: bool,
    /// Color text of the cursor highlight.
    pub cursor_color: String,
    /// Whether the cursor moved since the highlight was last drawn.
    pub cursor_update_pending: bool,
    /// Whether the cursor highlight window is shown.
    pub cursor_window_visible: bool,
    /// Whether screen drawing is open.
    pub drawing_visible: bool,
    /// Number of the current drawing session; changes at each open and close.
    pub drawing_session_id: u64,
    /// Whether the drawing overlay lets pointer input through (pointer mode).
    pub drawing_input_passthrough: bool,
    /// Whether the left button is held while input passes through.
    pub drawing_pointer_down: bool,
}

/// The mathematical value of a `SessionState`.
pub struct SessionView {
    pub listening: bool,
    pub pressed_keys: Seq<Seq<char>>,
    pub toggle_shortcut: Seq<Seq<char>>,
    pub drawing_toggle_shortcut: Seq<Seq<char>>,
    pub drawing_pointer_shortcut: Seq<Seq<char>>,
    pub drawing_clear_shortcut: Seq<Seq<char>>,
    pub drawing_undo_shortcut: Seq<Seq<char>>,
    pub drawing_close_shortcut: Seq<Seq<char>>,
    pub locale: Seq<char>,
    pub cursor_keep_highlight: bool,
    pub cursor_color: Seq<char>,
    pub cursor_update_pending: bool,
    pub cursor_window_visible: bool,
    pub drawing_visible: bool,
    pub drawing_session_id: u64,
    pub drawing_input_passthrough: bool,
    pub drawing_pointer_down: bool,
}

impl View for SessionState {
    type V = SessionView;

    open spec fn view(&self) -> SessionView {
        SessionView {
            listening: self.listening,
            pressed_keys: names(self.pressed_keys@),
            toggle_shortcut: names(self.toggle_shortcut@),
            drawing_toggle_shortcut: names(self.drawing_toggle_shortcut@),
            drawing_pointer_shortcut: names(self.drawing_pointer_shortcut@),
            drawing_clear_shortcut: names(self.drawing_clear_shortcut@),
            drawing_undo_shortcut: names(self.drawing_undo_shortcut@),
            drawing_close_shortcut: names(self.drawing_close_shortcut@),
            locale: self.locale@,
            cursor_keep_highlight: self.cursor_keep_highlight,
            cursor_color: self.cursor_color@,
            cursor_update_pending: self.cursor_update_pending,
            cursor_window_visible: self.cursor_window_visible,
            drawing_visible: self.drawing_visible,
            drawing_session_id: self.drawing_session_id,
            drawing_input_passthrough: self.drawing_input_passthrough,
            drawing_pointer_down: self.drawing_pointer_down,
        }
    }
}

/// No key name occurs twice in the list.
pub open spec fn distinct_names(s: Seq<Seq<char>>) -> bool {
    forall|i: int, j: int| 0 <= i < j < s.len() ==> s[i] != s[j]
}

/// The session number that follows `id`, wrapping after the largest.
pub open spec fn next_session_id(id: u64) -> u64 {
    if id == u64::MAX {
        0
    } else {
        (id + 1) as u64
    }
}

/// The pressed keys hold no name twice.
pub open spec fn session_wf(v: SessionView) -> bool {
    distinct_names(v.pressed_keys)
}

/// Left Shift and F10.
pub fn default_toggle_shortcut() -> (v: Vec<String>)
    ensures
        names(v@) == seq!["ShiftLeft"@, "F10"@],
{
    let v = vec!["ShiftLeft".to_owned(), "F10".to_owned()];
    proof {
        assert(names(v@) =~= seq!["ShiftLeft"@, "F10"@]);
    }
    v
}

/// F8.
pub fn default_drawing_toggle_shortcut() -> (v: Vec<String>)
    ensures
        names(v@) == seq!["F8"@],
{
    let v = vec!["F8".to_owned()];
    proof {
        assert(names(v@) =~= seq!["F8"@]);
    }
    v
}

/// F7.
pub fn default_drawing_pointer_shortcut() -> (v: Vec<String>)
    ensures
        names(v@) == seq!["F7"@],
{
    let v = vec!["F7".to_owned()];
    proof {
        assert(names(v@) =~= seq!["F7"@]);
    }
    v
}

/// Delete.
pub fn default_drawing_clear_shortcut() -> (v: Vec<String>)
    ensures
        names(v@) == seq!["Delete"@],
{
    let v = vec!["Delete".to_owned()];
    proof {
        assert(names(v@) =~= seq!["Delete"@]);
    }
    v
}

/// Left Control and Z.
pub fn default_drawing_undo_shortcut() -> (v: Vec<String>)
    ensures
        names(v@) == seq!["ControlLeft"@, "KeyZ"@],
{
    let v = vec!["ControlLeft".to_owned(), "KeyZ".to_owned()];
    proof {
        assert(names(v@) =~= seq!["ControlLeft"@, "KeyZ"@]);
    }
    v
}

/// Escape.
pub fn default_drawing_close_shortcut() -> (v: Vec<String>)
    ensures
        names(v@) == seq!["Escape"@],
{
    let v = vec!["Escape".to_owned()];
    proof {
        assert(names(v@) =~= seq!["Escape"@]);
    }
    v
}

/// Red, the cursor highlight's color until the user picks another.
pub fn default_cursor_color() -> (c: String)
    ensures
        c@ == "#ff0000"@,
{
    "#ff0000".to_owned()
}

/// Whether the tray menu is in Traditional Chinese.
pub open spec fn is_chinese(locale: Seq<char>) -> bool {
    locale == "zh-TW"@
}

/// Label of the tray item that starts or stops the key display.
pub fn toggle_label(listening: bool, locale: &str) -> (label: &'static str)
    ensures
        label@ == if listening {
            if is_chinese(locale@) { "\u{505c}\u{6b62}\u{986f}\u{793a}"@ } else { "Stop"@ }
        } else {
            if is_chinese(locale@) { "\u{958b}\u{59cb}\u{986f}\u{793a}"@ } else { "Start"@ }
        },
{
    let chinese = str_eq(locale, "zh-TW");
    if listening {
        if chinese { "\u{505c}\u{6b62}\u{986f}\u{793a}" } else { "Stop" }
    } else {
        if chinese { "\u{958b}\u{59cb}\u{986f}\u{793a}" } else { "Start" }
    }
}

/// Label of the tray item that opens the settings.
pub fn settings_label(locale: &str) -> (label: &'static str)
    ensures
        label@ == if is_chinese(locale@) { "\u{8a2d}\u{5b9a}"@ } else { "Settings"@ },
{
    if str_eq(locale, "zh-TW") { "\u{8a2d}\u{5b9a}" } else { "Settings" }
}

/// Label of the tray item that opens screen drawing.
pub fn drawing_label(locale: &str) -> (label: &'static str)
    ensures
        label@ == if is_chinese(locale@) { "\u{87a2}\u{5e55}\u{7e6a}\u{5716}"@ } else {
            "Screen Drawing"@
        },
{
    if str_eq(locale, "zh-TW") { "\u{87a2}\u{5e55}\u{7e6a}\u{5716}" } else { "Screen Drawing" }
}

/// Label of the tray item that quits.
pub fn quit_label(locale: &str) -> (label: &'static str)
    ensures
        label@ == if is_chinese(locale@) { "\u{7d50}\u{675f}\u{7a0b}\u{5f0f}"@ } else { "Quit"@ },
{
    if str_eq(locale, "zh-TW") { "\u{7d50}\u{675f}\u{7a0b}\u{5f0f}" } else { "Quit" }
}

/// What a key press asks of the program.
#[derive(Clone, Copy, PartialEq, Eq, Structural, Debug)]
pub enum KeyPressOutcome {
    /// The key is not tracked (its name holds a parenthesis) or is already
    /// held: nothing is recorded or shown.
    Ignored,
    /// The drawing toggle shortcut: close screen drawing when it was open,
    /// open it otherwise.
    ToggleDrawing { was_visible: bool },
    /// The pointer shortcut while drawing: the overlay goes to pointer mode.
    DrawingPointer,
    /// The clear shortcut while drawing.
    DrawingClear,
    /// The undo shortcut while drawing.
    DrawingUndo,
    /// The close shortcut while drawing.
    DrawingClose,
    /// The key is recorded as held; `toggled` when the key display was
    /// switched by this press, `emit` when the press is shown.
    Recorded { toggled: bool, emit: bool },
}

/// What the cursor highlight has to do at a tick of its timer.
#[derive(Clone, Copy, PartialEq, Eq, Structural, Debug)]
pub struct CursorTick {
    /// Whether the highlight is to be shown.
    pub visible: bool,
    /// Whether that differs from what was shown before.
    pub visibility_changed: bool,
}

impl SessionState {
    /// A session with the default shortcuts, showing keys, with drawing
    /// closed and the tray in Traditional Chinese.
    pub fn new() -> (s: Self)
        ensures
            s@.listening,
            s@.pressed_keys.len() == 0,
            s@.toggle_shortcut == seq!["ShiftLeft"@, "F10"@],
            s@.drawing_toggle_shortcut == seq!["F8"@],
            s@.drawing_pointer_shortcut == seq!["F7"@],
            s@.drawing_clear_shortcut == seq!["Delete"@],
            s@.drawing_undo_shortcut == seq!["ControlLeft"@, "KeyZ"@],
            s@.drawing_close_shortcut == seq!["Escape"@],
            s@.locale == "zh-TW"@,
            s@.cursor_keep_highlight,
            s@.cursor_color == "#ff0000"@,
            !s@.cursor_update_pending,
            !s@.cursor_window_visible,
            !s@.drawing_visible,
            s@.drawing_session_id == 0,
            !s@.drawing_input_passthrough,
            !s@.drawing_pointer_down,
            session_wf(s@),
    {
        let s = SessionState {
            listening: true,
            pressed_keys: Vec::new(),
            toggle_shortcut: default_toggle_shortcut(),
            drawing_toggle_shortcut: default_drawing_toggle_shortcut(),
            drawing_pointer_shortcut: default_drawing_pointer_shortcut(),
            drawing_clear_shortcut: default_drawing_clear_shortcut(),
            drawing_undo_shortcut: default_drawing_undo_shortcut(),
            drawing_close_shortcut: default_drawing_close_shortcut(),
            locale: "zh-TW".to_owned(),
            cursor_keep_highlight: true,
            cursor_color: default_cursor_color(),
            cursor_update_pending: false,
            cursor_window_visible: false,
            drawing_visible: false,
            drawing_session_id: 0,
            drawing_input_passthrough: false,
            drawing_pointer_down: false,
        };
        proof {
            assert(names(s.pressed_keys@) =~= Seq::<Seq<char>>::empty());
        }
        s
    }

    /// Switches the key display on or off and gives its new state.
    pub fn toggle_listener(&mut self) -> (listening: bool)
        ensures
            listening == !old(self)@.listening,
            final(self)@ == (SessionView { listening, ..old(self)@ }),
    {
        self.listening = !self.listening;
        self.listening
    }

    /// Whether a key of this name is held.
    fn is_pressed(&self, key_name: &str) -> (res: bool)
        ensures
            res == self@.pressed_keys.contains(key_name@),
    {
        let mut i: usize = 0;
        while i < self.pressed_keys.len()
            invariant
                i <= self.pressed_keys@.len(),
                forall|j: int| 0 <= j < i ==> self.pressed_keys@[j]@ != key_name@,
            decreases self.pressed_keys@.len() - i,
        {
            if str_eq(self.pressed_keys[i].as_str(), key_name) {
                proof {
                    assert(self@.pressed_keys[i as int] == key_name@);
                }
                return true;
            }
            i += 1;
        }
        proof {
            if self@.pressed_keys.contains(key_name@) {
                let j = choose|j: int| 0 <= j < self@.pressed_keys.len() && self@.pressed_keys[j] == key_name@;
                assert(self.pressed_keys@[j]@ == key_name@);
            }
        }
        false
    }

    /// Forgets every held key.
    pub fn clear_pressed_keys(&mut self)
        ensures
            final(self)@ == (SessionView { pressed_keys: seq![], ..old(self)@ }),
    {
        self.pressed_keys.clear();
        proof {
            assert(names(self.pressed_keys@) =~= Seq::<Seq<char>>::empty());
        }
    }

    /// Switches screen drawing to pointer mode when it is open: held keys
    /// are forgotten, pointer input passes through the overlay and the
    /// button counts as released. Gives whether drawing was open.
    pub fn enter_pointer_mode(&mut self) -> (was_open: bool)
        ensures
            was_open == old(self)@.drawing_visible,
            final(self)@ == if was_open {
                SessionView {
                    pressed_keys: seq![],
                    drawing_input_passthrough: true,
                    drawing_pointer_down: false,
                    ..old(self)@
                }
            } else {
                old(self)@
            },
    {
        if !self.drawing_visible {
            return false;
        }
        self.clear_pressed_keys();
        self.drawing_input_passthrough = true;
        self.drawing_pointer_down = false;
        true
    }

    /// Opens a drawing session: held keys are forgotten, drawing is shown,
    /// the session number advances (wrapping) and the overlay takes pointer
    /// input. Gives the new session number.
    pub fn open_drawing(&mut self) -> (id: u64)
        ensures
            id == final(self)@.drawing_session_id,
            final(self)@ == (SessionView {
                pressed_keys: seq![],
                drawing_visible: true,
                drawing_session_id: next_session_id(old(self)@.drawing_session_id),
                drawing_input_passthrough: false,
                drawing_pointer_down: false,
                ..old(self)@
            }),
    {
        self.clear_pressed_keys();
        self.drawing_visible = true;
        self.drawing_session_id = self.drawing_session_id.wrapping_add(1);
        self.drawing_input_passthrough = false;
        self.drawing_pointer_down = false;
        self.drawing_session_id
    }

    /// Closes the drawing session: held keys are forgotten, drawing is
    /// hidden, the session number advances (wrapping) and the pointer state
    /// is reset.
    pub fn close_drawing(&mut self)
        ensures
            final(self)@ == (SessionView {
                pressed_keys: seq![],
                drawing_visible: false,
                drawing_session_id: next_session_id(old(self)@.drawing_session_id),
                drawing_input_passthrough: false,
                drawing_pointer_down: false,
                ..old(self)@
            }),
    {
        self.clear_pressed_keys();
        self.drawing_visible = false;
        self.drawing_session_id = self.drawing_session_id.wrapping_add(1);
        self.drawing_input_passthrough = false;
        self.drawing_pointer_down = false;
    }

    /// Lets pointer input pass through the overlay or not; turning it off
    /// releases the button.
    pub fn set_click_through(&mut self, enabled: bool)
        ensures
            final(self)@ == (SessionView {
                drawing_input_passthrough: enabled,
                drawing_pointer_down: if enabled { old(self)@.drawing_pointer_down } else { false },
                ..old(self)@
            }),
    {
        self.drawing_input_passthrough = enabled;
        if !enabled {
            self.drawing_pointer_down = false;
        }
    }

    /// A clear or undo shortcut seen by the shortcut poller: when drawing is
    /// open the held keys are forgotten and the edit is to be made.
    pub fn drawing_shortcut_edit(&mut self) -> (apply: bool)
        ensures
            apply == old(self)@.drawing_visible,
            final(self)@ == if apply {
                SessionView { pressed_keys: seq![], ..old(self)@ }
            } else {
                old(self)@
            },
    {
        if self.drawing_visible {
            self.clear_pressed_keys();
            true
        } else {
            false
        }
    }

    /// Which drawing shortcuts are held in the keyboard snapshot.
    pub fn drawing_shortcut_levels(&self, keyboard: &KeyboardSnapshot) -> (levels:
        DrawingShortcutLevels)
        ensures
            levels.toggle == shortcut_down_spec(keyboard.down@, self@.drawing_toggle_shortcut),
            levels.pointer == shortcut_down_spec(keyboard.down@, self@.drawing_pointer_shortcut),
            levels.clear == shortcut_down_spec(keyboard.down@, self@.drawing_clear_shortcut),
            levels.undo == shortcut_down_spec(keyboard.down@, self@.drawing_undo_shortcut),
            levels.close == shortcut_down_spec(keyboard.down@, self@.drawing_close_shortcut),
    {
        DrawingShortcutLevels {
            toggle: shortcut_is_down(self.drawing_toggle_shortcut.as_slice(), keyboard),
            pointer: shortcut_is_down(self.drawing_pointer_shortcut.as_slice(), keyboard),
            clear: shortcut_is_down(self.drawing_clear_shortcut.as_slice(), keyboard),
            undo: shortcut_is_down(self.drawing_undo_shortcut.as_slice(), keyboard),
            close: shortcut_is_down(self.drawing_close_shortcut.as_slice(), keyboard),
        }
    }

    /// A left-button press seen by the global listener: while input passes
    /// through the overlay the button is recorded as held and the press is
    /// to be forwarded to the overlay.
    pub fn left_button_pressed(&mut self) -> (forward: bool)
        ensures
            forward == old(self)@.drawing_input_passthrough,
            final(self)@ == if forward {
                SessionView { drawing_pointer_down: true, ..old(self)@ }
            } else {
                old(self)@
            },
    {
        if self.drawing_input_passthrough {
            self.drawing_pointer_down = true;
            true
        } else {
            false
        }
    }

    /// A left-button release seen by the global listener: the button is no
    /// longer held; the release is forwarded while input passes through.
    pub fn left_button_released(&mut self) -> (forward: bool)
        ensures
            forward == old(self)@.drawing_input_passthrough,
            final(self)@ == (SessionView { drawing_pointer_down: false, ..old(self)@ }),
    {
        self.drawing_pointer_down = false;
        self.drawing_input_passthrough
    }

    /// The cursor moved: the highlight is to be redrawn.
    pub fn cursor_moved(&mut self)
        ensures
            final(self)@ == (SessionView { cursor_update_pending: true, ..old(self)@ }),
    {
        self.cursor_update_pending = true;
    }

    /// A tick of the cursor-highlight timer. `refresh_elapsed` tells whether
    /// 250 ms passed since the highlight was last drawn. Nothing is due when
    /// the cursor did not move and no refresh of a kept highlight is due;
    /// otherwise the pending move is taken, and the highlight is shown
    /// exactly when it is kept.
    pub fn cursor_tick(&mut self, refresh_elapsed: bool) -> (tick: Option<CursorTick>)
        ensures
            ({
                let o = old(self)@;
                let due = o.cursor_update_pending || (o.cursor_keep_highlight && refresh_elapsed);
                if !due {
                    tick is None && final(self)@ == o
                } else {
                    &&& tick == Some(CursorTick {
                        visible: o.cursor_keep_highlight,
                        visibility_changed: o.cursor_keep_highlight != o.cursor_window_visible,
                    })
                    &&& final(self)@ == (SessionView {
                        cursor_update_pending: false,
                        cursor_window_visible: o.cursor_keep_highlight,
                        ..o
                    })
                }
            }),
    {
        let refresh_due = self.cursor_keep_highlight && refresh_elapsed;
        if !self.cursor_update_pending && !refresh_due {
            return None;
        }
        self.cursor_update_pending = false;
        let visible = self.cursor_keep_highlight;
        let visibility_changed = visible != self.cursor_window_visible;
        self.cursor_window_visible = visible;
        Some(CursorTick { visible, visibility_changed })
    }

    /// A key press seen by the global listener. Untracked names (holding a
    /// parenthesis) and keys already held are ignored. Otherwise the key is
    /// recorded as held and the shortcuts are tried in turn: the drawing
    /// shortcuts (only when the listener handles them, and all but the
    /// toggle only while drawing is open), then the key-display toggle.
    pub fn key_press(&mut self, key_name: &str, listener_handles_drawing: bool) -> (outcome:
        KeyPressOutcome)
        requires
            session_wf(old(self)@),
        ensures
            session_wf(final(self)@),
            ({
                let o = old(self)@;
                let held = o.pressed_keys.push(key_name@);
                let d = listener_handles_drawing;
                if key_name@.contains('(') || o.pressed_keys.contains(key_name@) {
                    outcome == KeyPressOutcome::Ignored && final(self)@ == o
                } else if d && shortcut_satisfied(held, o.drawing_toggle_shortcut) {
                    &&& outcome == KeyPressOutcome::ToggleDrawing { was_visible: o.drawing_visible }
                    &&& final(self)@ == (SessionView { pressed_keys: seq![], ..o })
                } else if d && o.drawing_visible && shortcut_satisfied(held, o.drawing_pointer_shortcut) {
                    &&& outcome == KeyPressOutcome::DrawingPointer
                    &&& final(self)@ == (SessionView {
                        pressed_keys: seq![],
                        drawing_input_passthrough: true,
                        drawing_pointer_down: false,
                        ..o
                    })
                } else if d && o.drawing_visible && shortcut_satisfied(held, o.drawing_clear_shortcut) {
                    outcome == KeyPressOutcome::DrawingClear && final(self)@ == (SessionView {
                        pressed_keys: held,
                        ..o
                    })
                } else if d && o.drawing_visible && shortcut_satisfied(held, o.drawing_undo_shortcut) {
                    outcome == KeyPressOutcome::DrawingUndo && final(self)@ == (SessionView {
                        pressed_keys: held,
                        ..o
                    })
                } else if d && o.drawing_visible && shortcut_satisfied(held, o.drawing_close_shortcut) {
                    outcome == KeyPressOutcome::DrawingClose && final(self)@ == (SessionView {
                        pressed_keys: seq![],
                        ..o
                    })
                } else if shortcut_satisfied(held, o.toggle_shortcut) {
                    &&& outcome == KeyPressOutcome::Recorded { toggled: true, emit: !o.listening }
                    &&& final(self)@ == (SessionView {
                        pressed_keys: held,
                        listening: !o.listening,
                        ..o
                    })
                } else {
                    &&& outcome == KeyPressOutcome::Recorded { toggled: false, emit: o.listening }
                    &&& final(self)@ == (SessionView { pressed_keys: held, ..o })
                }
            }),
    {
        if str_contains_char(key_name, '(') || self.is_pressed(key_name) {
            return KeyPressOutcome::Ignored;
        }
        let ghost o = self@;
        self.pressed_keys.push(key_name.to_owned());
        proof {
            assert(self@.pressed_keys =~= o.pressed_keys.push(key_name@));
            assert(distinct_names(self@.pressed_keys)) by {
                assert forall|i: int, j: int| 0 <= i < j < self@.pressed_keys.len() implies
                    self@.pressed_keys[i] != self@.pressed_keys[j] by {
                    if j == o.pressed_keys.len() {
                        assert(o.pressed_keys.contains(o.pressed_keys[i]));
                    }
                }
            }
        }
        if listener_handles_drawing
            && shortcut_pressed(self.pressed_keys.as_slice(), self.drawing_toggle_shortcut.as_slice()) {
            let was_visible = self.drawing_visible;
            self.clear_pressed_keys();
            return KeyPressOutcome::ToggleDrawing { was_visible };
        }
        let drawing_visible = self.drawing_visible;
        if listener_handles_drawing && drawing_visible
            && shortcut_pressed(self.pressed_keys.as_slice(), self.drawing_pointer_shortcut.as_slice()) {
            self.enter_pointer_mode();
            return KeyPressOutcome::DrawingPointer;
        }
        if listener_handles_drawing && drawing_visible
            && shortcut_pressed(self.pressed_keys.as_slice(), self.drawing_clear_shortcut.as_slice()) {
            return KeyPressOutcome::DrawingClear;
        }
        if listener_handles_drawing && drawing_visible
            && shortcut_pressed(self.pressed_keys.as_slice(), self.drawing_undo_shortcut.as_slice()) {
            return KeyPressOutcome::DrawingUndo;
        }
        if listener_handles_drawing && drawing_visible
            && shortcut_pressed(self.pressed_keys.as_slice(), self.drawing_close_shortcut.as_slice()) {
            self.clear_pressed_keys();
            return KeyPressOutcome::DrawingClose;
        }
        if shortcut_pressed(self.pressed_keys.as_slice(), self.toggle_shortcut.as_slice()) {
            let listening = self.toggle_listener();
            return KeyPressOutcome::Recorded { toggled: true, emit: listening };
        }
        KeyPressOutcome::Recorded { toggled: false, emit: self.listening }
    }

    /// A key release seen by the global listener. Untracked names (holding
    /// a parenthesis) are dropped; otherwise the key is no longer held and
    /// the release is shown while the key display is on.
    pub fn key_release(&mut self, key_name: &str) -> (emit: bool)
        requires
            session_wf(old(self)@),
        ensures
            session_wf(final(self)@),
            key_name@.contains('(') ==> !emit && final(self)@ == old(self)@,
            !key_name@.contains('(') ==> {
                &&& emit == old(self)@.listening
                &&& final(self)@ == (SessionView {
                    pressed_keys: old(self)@.pressed_keys.filter(|k: Seq<char>| k != key_name@),
                    ..old(self)@
                })
            },
    {
        if str_contains_char(key_name, '(') {
            return false;
        }
        let ghost old_names = self@.pressed_keys;
        let ghost pred = |k: Seq<char>| k != key_name@;
        let mut kept: Vec<String> = Vec::new();
        let mut i: usize = 0;
        while i < self.pressed_keys.len()
            invariant
                i <= self.pressed_keys@.len(),
                old_names == names(self.pressed_keys@),
                pred == (|k: Seq<char>| k != key_name@),
                names(kept@) == old_names.take(i as int).filter(pred),
            decreases self.pressed_keys@.len() - i,
        {
            proof {
                reveal_with_fuel(Seq::<_>::filter, 1);
                assert(old_names.take(i + 1).drop_last() =~= old_names.take(i as int));
                assert(old_names.take(i + 1).last() == self.pressed_keys@[i as int]@);
            }
            if !str_eq(self.pressed_keys[i].as_str(), key_name) {
                let ghost before = kept@;
                kept.push(self.pressed_keys[i].clone());
                proof {
                    assert(names(kept@) =~= names(before).push(self.pressed_keys@[i as int]@));
                }
            }
            i += 1;
        }
        proof {
            assert(old_names.take(self.pressed_keys@.len() as int) =~= old_names);
            lemma_filter_keeps_distinct(old_names, pred);
        }
        self.pressed_keys = kept;
        self.listening
    }
}

/// The shortcuts read from the saved key-event settings (a shortcut that
/// the saved settings leave out is read as its default).
pub struct StoredShortcuts {
    pub toggle: Vec<String>,
    pub drawing_toggle: Vec<String>,
    pub drawing_pointer: Vec<String>,
    pub drawing_clear: Vec<String>,
    pub drawing_undo: Vec<String>,
    pub drawing_close: Vec<String>,
}

/// The cursor highlight settings read from the saved key-style settings.
pub struct StoredCursorStyle {
    pub keep_highlight: bool,
    pub color: String,
}

/// The session with the saved settings that could be read put in place of
/// the ones it had; what could not be read stays.
pub open spec fn with_stored(
    o: SessionView,
    shortcuts: Option<StoredShortcuts>,
    cursor: Option<StoredCursorStyle>,
    locale: Option<String>,
) -> SessionView {
    let o1 = match shortcuts {
        Some(s) => SessionView {
            toggle_shortcut: names(s.toggle@),
            drawing_toggle_shortcut: names(s.drawing_toggle@),
            drawing_pointer_shortcut: names(s.drawing_pointer@),
            drawing_clear_shortcut: names(s.drawing_clear@),
            drawing_undo_shortcut: names(s.drawing_undo@),
            drawing_close_shortcut: names(s.drawing_close@),
            ..o
        },
        None => o,
    };
    let o2 = match cursor {
        Some(c) => SessionView { cursor_keep_highlight: c.keep_highlight, cursor_color: c.color@, ..o1 },
        None => o1,
    };
    match locale {
        Some(l) => SessionView { locale: l@, ..o2 },
        None => o2,
    }
}

/// What the drawing-toggle shortcut asks for at a poll.
#[derive(Clone, Copy, PartialEq, Eq, Structural, Debug)]
pub enum DrawingToggle {
    /// The shortcut was not just pressed.
    Unchanged,
    /// Drawing was closed: the drawing window is to be shown, and on
    /// success the session opened (`open_drawing`).
    Open,
    /// Drawing was open and has been closed: the overlay is to be hidden.
    Close,
}

/// What the clear, undo, close and pointer shortcuts did at a poll.
#[derive(Clone, Copy, PartialEq, Eq, Structural, Debug)]
pub struct DrawingShortcutActions {
    /// The drawing is to be cleared (or the selection deleted).
    pub clear: bool,
    /// The last drawing is to be undone.
    pub undo: bool,
    /// Drawing was closed; the overlay is to be hidden.
    pub close: bool,
    /// Drawing went to pointer mode; the overlay takes the pointer tool and
    /// lets input through.
    pub pointer: bool,
}

/// The session with the held keys forgotten.
pub open spec fn keys_forgotten(v: SessionView) -> SessionView {
    SessionView { pressed_keys: seq![], ..v }
}

/// The session after drawing is closed (see `close_drawing`).
pub open spec fn drawing_closed(v: SessionView) -> SessionView {
    SessionView {
        pressed_keys: seq![],
        drawing_visible: false,
        drawing_session_id: next_session_id(v.drawing_session_id),
        drawing_input_passthrough: false,
        drawing_pointer_down: false,
        ..v
    }
}

/// The session after open drawing goes to pointer mode (see
/// `enter_pointer_mode`).
pub open spec fn drawing_in_pointer_mode(v: SessionView) -> SessionView {
    SessionView {
        pressed_keys: seq![],
        drawing_input_passthrough: true,
        drawing_pointer_down: false,
        ..v
    }
}

/// One poll's clear, undo, close and pointer shortcuts, taken in that
/// order, each acting when it was just pressed and drawing is open at
/// that point: the session after them and what they did.
pub open spec fn poll_edits(o: SessionView, edges: DrawingShortcutLevels) -> (SessionView, DrawingShortcutActions) {
    let clear = edges.clear && o.drawing_visible;
    let s1 = if clear { keys_forgotten(o) } else { o };
    let undo = edges.undo && s1.drawing_visible;
    let s2 = if undo { keys_forgotten(s1) } else { s1 };
    let close = edges.close && s2.drawing_visible;
    let s3 = if close { drawing_closed(s2) } else { s2 };
    let pointer = edges.pointer && s3.drawing_visible;
    let s4 = if pointer { drawing_in_pointer_mode(s3) } else { s3 };
    (s4, DrawingShortcutActions { clear, undo, close, pointer })
}

impl SessionState {
    /// Puts the saved settings that could be read in place of the current
    /// ones: the six shortcuts, the cursor highlight's keep-visible switch
    /// and color, and the tray language.
    pub fn apply_stored_settings(
        &mut self,
        shortcuts: Option<StoredShortcuts>,
        cursor: Option<StoredCursorStyle>,
        locale: Option<String>,
    )
        ensures
            final(self)@ == with_stored(old(self)@, shortcuts, cursor, locale),
    {
        match shortcuts {
            Some(s) => {
                self.toggle_shortcut = s.toggle;
                self.drawing_toggle_shortcut = s.drawing_toggle;
                self.drawing_pointer_shortcut = s.drawing_pointer;
                self.drawing_clear_shortcut = s.drawing_clear;
                self.drawing_undo_shortcut = s.drawing_undo;
                self.drawing_close_shortcut = s.drawing_close;
            },
            None => {},
        }
        match cursor {
            Some(c) => {
                self.cursor_keep_highlight = c.keep_highlight;
                self.cursor_color = c.color;
            },
            None => {},
        }
        match locale {
            Some(l) => {
                self.locale = l;
            },
            None => {},
        }
    }

    /// The drawing-toggle shortcut at a poll (`rose`: just pressed): open
    /// drawing is closed here; closed drawing is to be opened by the caller.
    pub fn poll_drawing_toggle(&mut self, rose: bool) -> (t: DrawingToggle)
        ensures
            t == (if !rose {
                DrawingToggle::Unchanged
            } else if old(self)@.drawing_visible {
                DrawingToggle::Close
            } else {
                DrawingToggle::Open
            }),
            final(self)@ == (if t == DrawingToggle::Close {
                drawing_closed(old(self)@)
            } else {
                old(self)@
            }),
    {
        if !rose {
            DrawingToggle::Unchanged
        } else if self.drawing_visible {
            self.close_drawing();
            DrawingToggle::Close
        } else {
            DrawingToggle::Open
        }
    }

    /// The clear, undo, close and pointer shortcuts at a poll (`edges`: the
    /// shortcuts just pressed), after the toggle: every one just pressed
    /// acts while drawing is open (see `poll_edits`). So clear, undo and
    /// close act when drawing is open, and pointer mode when drawing is
    /// open and the close shortcut did not close it.
    pub fn poll_drawing_edits(&mut self, edges: &DrawingShortcutLevels) -> (a:
        DrawingShortcutActions)
        ensures
            (final(self)@, a) == poll_edits(old(self)@, *edges),
            a.clear == (edges.clear && old(self)@.drawing_visible),
            a.undo == (edges.undo && old(self)@.drawing_visible),
            a.close == (edges.close && old(self)@.drawing_visible),
            a.pointer == (edges.pointer && old(self)@.drawing_visible && !a.close),
    {
        let clear = if edges.clear { self.drawing_shortcut_edit() } else { false };
        let undo = if edges.undo { self.drawing_shortcut_edit() } else { false };
        let close = if edges.close && self.drawing_visible {
            self.close_drawing();
            true
        } else {
            false
        };
        let pointer = if edges.pointer { self.enter_pointer_mode() } else { false };
        DrawingShortcutActions { clear, undo, close, pointer }
    }
}

/// After a release, no held key bears the released name.
pub proof fn released_key_not_held(held: Seq<Seq<char>>, name: Seq<char>)
    ensures
        !held.filter(|k: Seq<char>| k != name).contains(name),
{
    let pred = |k: Seq<char>| k != name;
    if held.filter(pred).contains(name) {
        held.lemma_filter_contains_rev(pred, name);
        let i = choose|i: int| 0 <= i < held.filter(pred).len() && held.filter(pred)[i] == name;
        held.lemma_filter_pred(pred, i);
    }
}

/// Keeping the keys that pass a test keeps every key when all pass it.
proof fn lemma_filter_keeps_all(held: Seq<Seq<char>>, name: Seq<char>)
    requires
        !held.contains(name),
    ensures
        held.filter(|k: Seq<char>| k != name) == held,
    decreases held.len(),
{
    reveal(Seq::filter);
    if held.len() > 0 {
        assert(!held.drop_last().contains(name)) by {
            if held.drop_last().contains(name) {
                let i = choose|i: int| 0 <= i < held.drop_last().len() && held.drop_last()[i] == name;
                assert(held[i] == name);
            }
        }
        lemma_filter_keeps_all(held.drop_last(), name);
        assert(held.last() != name) by {
            assert(held[held.len() - 1] == held.last());
        }
        assert(held.drop_last().push(held.last()) =~= held);
    }
}

/// Releasing a key undoes its press: the keys held before a key that was
/// not held is pressed are the keys held after it is released.
pub proof fn release_undoes_press(held: Seq<Seq<char>>, name: Seq<char>)
    requires
        !held.contains(name),
    ensures
        held.push(name).filter(|k: Seq<char>| k != name) == held,
{
    reveal(Seq::filter);
    assert(held.push(name).drop_last() =~= held);
    lemma_filter_keeps_all(held, name);
}

/// Keeping some of the names of a list without repeats leaves no repeats.
proof fn lemma_filter_keeps_distinct(held: Seq<Seq<char>>, pred: spec_fn(Seq<char>) -> bool)
    requires
        distinct_names(held),
    ensures
        distinct_names(held.filter(pred)),
    decreases held.len(),
{
    reveal(Seq::filter);
    if held.len() > 0 {
        let rest = held.drop_last();
        assert(distinct_names(rest));
        lemma_filter_keeps_distinct(rest, pred);
        if pred(held.last()) {
            let f = rest.filter(pred);
            assert(!f.contains(held.last())) by {
                if f.contains(held.last()) {
                    rest.lemma_filter_contains_rev(pred, held.last());
                    let i = choose|i: int| 0 <= i < rest.len() && rest[i] == held.last();
                    assert(held[i] == held[held.len() - 1]);
                }
            }
            assert forall|i: int, j: int| 0 <= i < j < f.push(held.last()).len() implies f.push(
                held.last(),
            )[i] != f.push(held.last())[j] by {
                if j == f.len() {
                    assert(f.contains(f[i]));
                }
            }
        }
    }
}

} // verus!
