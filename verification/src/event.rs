use vstd::prelude::*;

use crate::text::str_eq;

verus! {

/// Mouse buttons as the key overlay names them.
#[derive(Clone, Copy, PartialEq, Eq, Structural, Debug)]
pub enum MouseButton {
    Left,
    Right,
    Middle,
    Other,
}

/// `a` is `NumD` and `b` is `KpD` for one decimal digit `D`.
pub open spec fn num_kp_pair(a: Seq<char>, b: Seq<char>) -> bool {
    &&& a.len() == 4
    &&& a[0] == 'N' && a[1] == 'u' && a[2] == 'm'
    &&& '0' <= a[3] <= '9'
    &&& b.len() == 3
    &&& b[0] == 'K' && b[1] == 'p'
    &&& b[2] == a[3]
}

/// The pairs of different key names that a shortcut treats as the same key:
/// a sided modifier and its plain name (both ways for Shift, Control and
/// Meta; for Alt only the plain name pressed against a sided shortcut key),
/// and a digit row key against the keypad key of the same digit.
pub open spec fn key_alias(pressed: Seq<char>, shortcut: Seq<char>) -> bool {
    ||| (pressed == "ShiftLeft"@ || pressed == "ShiftRight"@) && shortcut == "Shift"@
    ||| pressed == "Shift"@ && (shortcut == "ShiftLeft"@ || shortcut == "ShiftRight"@)
    ||| (pressed == "ControlLeft"@ || pressed == "ControlRight"@) && shortcut == "Control"@
    ||| pressed == "Control"@ && (shortcut == "ControlLeft"@ || shortcut == "ControlRight"@)
    ||| pressed == "Alt"@ && (shortcut == "AltLeft"@ || shortcut == "AltRight"@)
    ||| (pressed == "MetaLeft"@ || pressed == "MetaRight"@) && shortcut == "Meta"@
    ||| pressed == "Meta"@ && (shortcut == "MetaLeft"@ || shortcut == "MetaRight"@)
    ||| num_kp_pair(pressed, shortcut)
    ||| num_kp_pair(shortcut, pressed)
}

/// Whether the pressed key `pressed` satisfies the shortcut key `shortcut`.
pub open spec fn key_matches(pressed: Seq<char>, shortcut: Seq<char>) -> bool {
    pressed == shortcut || key_alias(pressed, shortcut)
}

/// Whether some pressed key satisfies the shortcut key `key`.
pub open spec fn key_held(pressed: Seq<Seq<char>>, key: Seq<char>) -> bool {
    exists|j: int| 0 <= j < pressed.len() && key_matches(#[trigger] pressed[j], key)
}

/// Whether every key of a non-empty shortcut is matched by some pressed key.
pub open spec fn shortcut_satisfied(pressed: Seq<Seq<char>>, shortcut: Seq<Seq<char>>) -> bool {
    &&& shortcut.len() > 0
    &&& forall|i: int| 0 <= i < shortcut.len() ==> #[trigger] key_held(pressed, shortcut[i])
}

/// The character views of a list of strings.
pub open spec fn names(v: Seq<String>) -> Seq<Seq<char>> {
    v.map_values(|s: String| s@)
}

fn is_num_kp_pair(a: &str, b: &str) -> (res: bool)
    ensures
        res == num_kp_pair(a@, b@),
{
    if a.unicode_len() != 4 || b.unicode_len() != 3 {
        return false;
    }
    let d = a.get_char(3);
    a.get_char(0) == 'N' && a.get_char(1) == 'u' && a.get_char(2) == 'm' && '0' <= d && d <= '9'
        && b.get_char(0) == 'K' && b.get_char(1) == 'p' && b.get_char(2) == d
}

/// Whether a pressed key satisfies a shortcut key, by name or by alias.
pub fn shortcut_key_matches(pressed_key: &str, shortcut_key: &str) -> (res: bool)
    ensures
        res == key_matches(pressed_key@, shortcut_key@),
{
    if str_eq(pressed_key, shortcut_key) {
        return true;
    }
    let p = pressed_key;
    let s = shortcut_key;
    (str_eq(p, "ShiftLeft") || str_eq(p, "ShiftRight")) && str_eq(s, "Shift")
        || str_eq(p, "Shift") && (str_eq(s, "ShiftLeft") || str_eq(s, "ShiftRight"))
        || (str_eq(p, "ControlLeft") || str_eq(p, "ControlRight")) && str_eq(s, "Control")
        || str_eq(p, "Control") && (str_eq(s, "ControlLeft") || str_eq(s, "ControlRight"))
        || str_eq(p, "Alt") && (str_eq(s, "AltLeft") || str_eq(s, "AltRight"))
        || (str_eq(p, "MetaLeft") || str_eq(p, "MetaRight")) && str_eq(s, "Meta")
        || str_eq(p, "Meta") && (str_eq(s, "MetaLeft") || str_eq(s, "MetaRight"))
        || is_num_kp_pair(p, s) || is_num_kp_pair(s, p)
}

/// Whether some pressed key satisfies the shortcut key `key`.
fn any_pressed_matches(pressed_keys: &[String], key: &str) -> (res: bool)
    ensures
        res == exists|j: int|
            0 <= j < pressed_keys@.len() && key_matches(#[trigger] pressed_keys@[j]@, key@),
{
    let mut j: usize = 0;
    while j < pressed_keys.len()
        invariant
            j <= pressed_keys@.len(),
            forall|k: int| 0 <= k < j ==> !key_matches(#[trigger] pressed_keys@[k]@, key@),
        decreases pressed_keys@.len() - j,
    {
        if shortcut_key_matches(pressed_keys[j].as_str(), key) {
            return true;
        }
        j += 1;
    }
    false
}

/// Whether the pressed keys satisfy a shortcut: the shortcut is not empty
/// and each of its keys is matched by a pressed key.
pub fn shortcut_pressed(pressed_keys: &[String], shortcut: &[String]) -> (res: bool)
    ensures
        res == shortcut_satisfied(names(pressed_keys@), names(shortcut@)),
{
    let ghost p = names(pressed_keys@);
    let ghost s = names(shortcut@);
    if shortcut.len() == 0 {
        return false;
    }
    let mut i: usize = 0;
    while i < shortcut.len()
        invariant
            i <= shortcut@.len(),
            p == names(pressed_keys@),
            s == names(shortcut@),
            forall|a: int| 0 <= a < i ==> #[trigger] key_held(p, s[a]),
        decreases shortcut@.len() - i,
    {
        if !any_pressed_matches(pressed_keys, shortcut[i].as_str()) {
            proof {
                assert forall|j: int| 0 <= j < p.len() implies !key_matches(#[trigger] p[j], s[i as int]) by {
                    assert(p[j] == pressed_keys@[j]@);
                }
                assert(!key_held(p, s[i as int]));
            }
            return false;
        }
        proof {
            let j = choose|j: int| 0 <= j < pressed_keys@.len() && key_matches(#[trigger] pressed_keys@[j]@, shortcut@[i as int]@);
            assert(p[j] == pressed_keys@[j]@);
            assert(s[i as int] == shortcut@[i as int]@);
            assert(key_held(p, s[i as int]));
        }
        i += 1;
    }
    true
}

/// Every key of the first list appears (by name) in the second.
pub open spec fn keys_included(a: Seq<Seq<char>>, b: Seq<Seq<char>>) -> bool {
    forall|i: int| 0 <= i < a.len() ==> #[trigger] b.contains(a[i])
}

/// A key name always satisfies a shortcut key of the same name.
pub proof fn key_matches_reflexive(name: Seq<char>)
    ensures
        key_matches(name, name),
{
}

/// Pressing more keys never releases a shortcut: if every key pressed in
/// `fewer` is also pressed in `more`, a shortcut satisfied by `fewer` is
/// satisfied by `more`.
pub proof fn shortcut_pressed_monotone(
    fewer: Seq<Seq<char>>,
    more: Seq<Seq<char>>,
    shortcut: Seq<Seq<char>>,
)
    requires
        keys_included(fewer, more),
        shortcut_satisfied(fewer, shortcut),
    ensures
        shortcut_satisfied(more, shortcut),
{
    assert forall|i: int| 0 <= i < shortcut.len() implies #[trigger] key_held(more, shortcut[i]) by {
        assert(key_held(fewer, shortcut[i]));
        let j = choose|j: int| 0 <= j < fewer.len() && key_matches(#[trigger] fewer[j], shortcut[i]);
        assert(more.contains(fewer[j]));
        let k = choose|k: int| 0 <= k < more.len() && more[k] == fewer[j];
        assert(key_matches(more[k], shortcut[i]));
    }
}

/// A shortcut whose keys are all pressed under their own names is pressed.
pub proof fn shortcut_pressed_when_all_held(pressed: Seq<Seq<char>>, shortcut: Seq<Seq<char>>)
    requires
        shortcut.len() > 0,
        keys_included(shortcut, pressed),
    ensures
        shortcut_satisfied(pressed, shortcut),
{
    assert forall|i: int| 0 <= i < shortcut.len() implies #[trigger] key_held(pressed, shortcut[i]) by {
        assert(pressed.contains(shortcut[i]));
        let k = choose|k: int| 0 <= k < pressed.len() && pressed[k] == shortcut[i];
        key_matches_reflexive(shortcut[i]);
        assert(key_matches(pressed[k], shortcut[i]));
    }
}

/// Value of the decimal digit character `c`.
pub open spec fn digit_value(c: char) -> int {
    c as int - '0' as int
}

/// `NumD` or `KpD` for a decimal digit `D`.
pub open spec fn is_digit_key(k: Seq<char>) -> bool {
    ||| k.len() == 4 && k[0] == 'N' && k[1] == 'u' && k[2] == 'm' && '0' <= k[3] <= '9'
    ||| k.len() == 3 && k[0] == 'K' && k[1] == 'p' && '0' <= k[2] <= '9'
}

/// The digit of a key accepted by `is_digit_key`.
pub open spec fn digit_key_value(k: Seq<char>) -> int {
    digit_value(k.last())
}

/// `KeyX` for an upper-case letter `X`.
pub open spec fn is_letter_key(k: Seq<char>) -> bool {
    k.len() == 4 && k[0] == 'K' && k[1] == 'e' && k[2] == 'y' && 'A' <= k[3] <= 'Z'
}

/// `F1` to `F12`.
pub open spec fn is_function_key(k: Seq<char>) -> bool {
    ||| k.len() == 2 && k[0] == 'F' && '1' <= k[1] <= '9'
    ||| k.len() == 3 && k[0] == 'F' && k[1] == '1' && '0' <= k[2] <= '2'
}

/// The number of a function key accepted by `is_function_key`.
pub open spec fn function_key_number(k: Seq<char>) -> int {
    if k.len() == 2 {
        digit_value(k[1])
    } else {
        10 + digit_value(k[2])
    }
}

/// The Windows virtual-key codes whose state tells whether the key named
/// `k` is held: a plain modifier name is held when the generic or the left
/// code is down, the digit keys check both the digit row and the keypad,
/// and names outside the table have no code.
pub open spec fn raw_key_codes_spec(k: Seq<char>) -> Seq<u8> {
    if k == "Shift"@ || k == "ShiftLeft"@ {
        seq![0x10u8, 0xA0u8]
    } else if k == "ShiftRight"@ {
        seq![0xA1u8]
    } else if k == "Control"@ || k == "ControlLeft"@ {
        seq![0x11u8, 0xA2u8]
    } else if k == "ControlRight"@ {
        seq![0xA3u8]
    } else if k == "Alt"@ || k == "AltLeft"@ {
        seq![0x12u8, 0xA4u8]
    } else if k == "AltRight"@ {
        seq![0xA5u8]
    } else if k == "Meta"@ || k == "MetaLeft"@ {
        seq![0x5Bu8]
    } else if k == "MetaRight"@ {
        seq![0x5Cu8]
    } else if is_digit_key(k) {
        seq![(0x30 + digit_key_value(k)) as u8, (0x60 + digit_key_value(k)) as u8]
    } else if is_letter_key(k) {
        seq![k[3] as u8]
    } else if is_function_key(k) {
        seq![(0x6F + function_key_number(k)) as u8]
    } else if k == "Delete"@ {
        seq![0x2Eu8]
    } else if k == "Escape"@ {
        seq![0x1Bu8]
    } else if k == "Backspace"@ {
        seq![0x08u8]
    } else if k == "Tab"@ {
        seq![0x09u8]
    } else if k == "Return"@ || k == "KpReturn"@ {
        seq![0x0Du8]
    } else if k == "Space"@ {
        seq![0x20u8]
    } else {
        seq![]
    }
}

/// The virtual-key codes to test for the key named `raw_key`.
pub fn raw_key_codes(raw_key: &str) -> (codes: Vec<u8>)
    ensures
        codes@ == raw_key_codes_spec(raw_key@),
{
    let k = raw_key;
    if str_eq(k, "Shift") || str_eq(k, "ShiftLeft") {
        vec![0x10u8, 0xA0u8]
    } else if str_eq(k, "ShiftRight") {
        vec![0xA1u8]
    } else if str_eq(k, "Control") || str_eq(k, "ControlLeft") {
        vec![0x11u8, 0xA2u8]
    } else if str_eq(k, "ControlRight") {
        vec![0xA3u8]
    } else if str_eq(k, "Alt") || str_eq(k, "AltLeft") {
        vec![0x12u8, 0xA4u8]
    } else if str_eq(k, "AltRight") {
        vec![0xA5u8]
    } else if str_eq(k, "Meta") || str_eq(k, "MetaLeft") {
        vec![0x5Bu8]
    } else if str_eq(k, "MetaRight") {
        vec![0x5Cu8]
    } else {
        let n = k.unicode_len();
        if n == 4 && k.get_char(0) == 'N' && k.get_char(1) == 'u' && k.get_char(2) == 'm'
            && '0' <= k.get_char(3) && k.get_char(3) <= '9' {
            let d = (k.get_char(3) as u32 - '0' as u32) as u8;
            return vec![0x30u8 + d, 0x60u8 + d];
        }
        if n == 3 && k.get_char(0) == 'K' && k.get_char(1) == 'p' && '0' <= k.get_char(2)
            && k.get_char(2) <= '9' {
            let d = (k.get_char(2) as u32 - '0' as u32) as u8;
            return vec![0x30u8 + d, 0x60u8 + d];
        }
        if n == 4 && k.get_char(0) == 'K' && k.get_char(1) == 'e' && k.get_char(2) == 'y'
            && 'A' <= k.get_char(3) && k.get_char(3) <= 'Z' {
            return vec![k.get_char(3) as u8];
        }
        if n == 2 && k.get_char(0) == 'F' && '1' <= k.get_char(1) && k.get_char(1) <= '9' {
            let d = (k.get_char(1) as u32 - '0' as u32) as u8;
            return vec![0x6Fu8 + d];
        }
        if n == 3 && k.get_char(0) == 'F' && k.get_char(1) == '1' && '0' <= k.get_char(2)
            && k.get_char(2) <= '2' {
            let d = (k.get_char(2) as u32 - '0' as u32) as u8;
            return vec![0x79u8 + d];
        }
        if str_eq(k, "Delete") {
            vec![0x2Eu8]
        } else if str_eq(k, "Escape") {
            vec![0x1Bu8]
        } else if str_eq(k, "Backspace") {
            vec![0x08u8]
        } else if str_eq(k, "Tab") {
            vec![0x09u8]
        } else if str_eq(k, "Return") || str_eq(k, "KpReturn") {
            vec![0x0Du8]
        } else if str_eq(k, "Space") {
            vec![0x20u8]
        } else {
            vec![]
        }
    }
}

/// Which virtual keys are held, indexed by virtual-key code.
pub struct KeyboardSnapshot {
    pub down: Vec<bool>,
}

/// Whether the virtual key `code` is held in the snapshot `down`; codes
/// past its end are not held.
pub open spec fn vk_down(down: Seq<bool>, code: u8) -> bool {
    (code as int) < down.len() && down[code as int]
}

/// Whether the key named `k` is held: one of its codes is down.
pub open spec fn raw_key_down_spec(down: Seq<bool>, k: Seq<char>) -> bool {
    exists|i: int|
        0 <= i < raw_key_codes_spec(k).len() && #[trigger] vk_down(down, raw_key_codes_spec(k)[i])
}

/// Whether every key of a non-empty shortcut is held.
pub open spec fn shortcut_down_spec(down: Seq<bool>, shortcut: Seq<Seq<char>>) -> bool {
    &&& shortcut.len() > 0
    &&& forall|i: int| 0 <= i < shortcut.len() ==> #[trigger] raw_key_down_spec(down, shortcut[i])
}

/// Whether the key named `raw_key` is held in the snapshot.
pub fn raw_key_is_down(raw_key: &str, keyboard: &KeyboardSnapshot) -> (res: bool)
    ensures
        res == raw_key_down_spec(keyboard.down@, raw_key@),
{
    let codes = raw_key_codes(raw_key);
    let mut i: usize = 0;
    while i < codes.len()
        invariant
            codes@ == raw_key_codes_spec(raw_key@),
            i <= codes@.len(),
            forall|j: int| 0 <= j < i ==> !#[trigger] vk_down(keyboard.down@, codes@[j]),
        decreases codes@.len() - i,
    {
        let code = codes[i];
        if (code as usize) < keyboard.down.len() && keyboard.down[code as usize] {
            proof {
                assert(vk_down(keyboard.down@, codes@[i as int]));
            }
            return true;
        }
        i += 1;
    }
    false
}

/// Whether every key of a non-empty shortcut is held in the snapshot.
pub fn shortcut_is_down(shortcut: &[String], keyboard: &KeyboardSnapshot) -> (res: bool)
    ensures
        res == shortcut_down_spec(keyboard.down@, names(shortcut@)),
{
    let ghost s = names(shortcut@);
    if shortcut.len() == 0 {
        return false;
    }
    let mut i: usize = 0;
    while i < shortcut.len()
        invariant
            i <= shortcut@.len(),
            s == names(shortcut@),
            forall|a: int| 0 <= a < i ==> #[trigger] raw_key_down_spec(keyboard.down@, s[a]),
        decreases shortcut@.len() - i,
    {
        if !raw_key_is_down(shortcut[i].as_str(), keyboard) {
            proof {
                assert(s[i as int] == shortcut@[i as int]@);
            }
            return false;
        }
        proof {
            assert(s[i as int] == shortcut@[i as int]@);
        }
        i += 1;
    }
    true
}

/// Which of the five drawing shortcuts are held (or were held at the
/// previous poll).
#[derive(Clone, Copy, PartialEq, Eq, Structural, Debug)]
pub struct DrawingShortcutLevels {
    pub toggle: bool,
    pub pointer: bool,
    pub clear: bool,
    pub undo: bool,
    pub close: bool,
}

/// The drawing shortcuts that have just been pressed: held now and not held
/// at the previous poll.
pub open spec fn edges_of(was: DrawingShortcutLevels, now: DrawingShortcutLevels) -> DrawingShortcutLevels {
    DrawingShortcutLevels {
        toggle: now.toggle && !was.toggle,
        pointer: now.pointer && !was.pointer,
        clear: now.clear && !was.clear,
        undo: now.undo && !was.undo,
        close: now.close && !was.close,
    }
}

/// The drawing shortcuts that have just been pressed (see `edges_of`).
pub fn shortcut_edges(was: &DrawingShortcutLevels, now: &DrawingShortcutLevels) -> (edges:
    DrawingShortcutLevels)
    ensures
        edges == edges_of(*was, *now),
{
    DrawingShortcutLevels {
        toggle: now.toggle && !was.toggle,
        pointer: now.pointer && !was.pointer,
        clear: now.clear && !was.clear,
        undo: now.undo && !was.undo,
        close: now.close && !was.close,
    }
}

/// A shortcut held across polls acts once: when the levels seen at one
/// poll are seen again at the next, that poll reports no new press.
pub proof fn held_shortcut_acts_once(levels: DrawingShortcutLevels)
    ensures
        ({
            let e = edges_of(levels, levels);
            !e.toggle && !e.pointer && !e.clear && !e.undo && !e.close
        }),
{
}

/// Whether a pointer move is forwarded to the drawing overlay while input
/// passes through it: only with the button down, and at most one move per
/// 16 ms (`since_last_ms` is the time since the last forwarded move, if any).
pub fn drawing_move_due(passthrough: bool, pointer_down: bool, since_last_ms: Option<u64>) -> (due:
    bool)
    ensures
        due == (passthrough && pointer_down && match since_last_ms {
            Some(ms) => ms >= 16,
            None => true,
        }),
{
    if passthrough && pointer_down {
        match since_last_ms {
            Some(ms) => ms >= 16,
            None => true,
        }
    } else {
        false
    }
}

/// A shortcut's edge follows that shortcut alone: it is raised exactly
/// when the shortcut is held now and was not at the previous poll, and two
/// polls that agree on a shortcut agree on its edge, whatever the other
/// shortcuts do.
pub proof fn each_edge_follows_its_own_shortcut(
    was: DrawingShortcutLevels,
    now: DrawingShortcutLevels,
    was2: DrawingShortcutLevels,
    now2: DrawingShortcutLevels,
)
    ensures
        ({
            let e = edges_of(was, now);
            &&& e.toggle <==> (now.toggle && !was.toggle)
            &&& e.pointer <==> (now.pointer && !was.pointer)
            &&& e.clear <==> (now.clear && !was.clear)
            &&& e.undo <==> (now.undo && !was.undo)
            &&& e.close <==> (now.close && !was.close)
        }),
        ({
            let e = edges_of(was, now);
            let e2 = edges_of(was2, now2);
            &&& (was.toggle == was2.toggle && now.toggle == now2.toggle) ==> e.toggle == e2.toggle
            &&& (was.pointer == was2.pointer && now.pointer == now2.pointer) ==> e.pointer == e2.pointer
            &&& (was.clear == was2.clear && now.clear == now2.clear) ==> e.clear == e2.clear
            &&& (was.undo == was2.undo && now.undo == now2.undo) ==> e.undo == e2.undo
            &&& (was.close == was2.close && now.close == now2.close) ==> e.close == e2.close
        }),
{
}

} // verus!
