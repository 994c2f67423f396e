# keyviz

The verified core of a keystroke visualizer for Windows that also lets the
user draw on the screen: the key overlay shows the keys and shortcuts being
pressed, a ring highlights the cursor, and a transparent overlay with a
toolbar takes pen, shape, text, numbered-marker and stamp drawings.

`src/` is the library, written in Verus. Every function in it carries a
contract that Verus proves:

- `event`, `state`: shortcut matching, the virtual-key codes of key names,
  the listener's reaction to key and button events, and the session state.
- `overlay`, `pointer`, `selection`, `command_queue`, `tool_cursor`,
  `pixels`: the drawing overlay — its document and tool state, presses,
  drags and releases, selection, grouping, undo, text entry, the command
  queue, cursor bookkeeping and the post-processing of layered-window
  pixels.
- `native_keys`, `native_keys_software`, `native_cursor`, `native_drawing`,
  `hex`, `color`: color parsing and the key overlay's layout and palettes.
- `window`: placing windows on monitors and naming monitors.
- `diagnostics`: the log of recent errors, the clock and the entries that
  describe the program's windows.
- `text`: string helpers.

`app/` is the ordinary Rust around it: serialised forms of the library's
types, the process-wide error log, the floating-point geometry of rotated
drawings and of the key overlay, and the drawing overlay's command loop.
`tests/` exercises the library on concrete values.
