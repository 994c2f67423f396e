//! Verified core of a keystroke visualizer with an on-screen drawing overlay.
//!
//! The crate holds the decisions of the program: which keys form a shortcut,
//! how the global input listener reacts to key and button events, the state
//! machine of the drawing overlay, color parsing, pixel post-processing for
//! layered windows, the layout of the key overlay, the placement of windows
//! on monitors and the bookkeeping of recent errors. Windowing, rendering
//! and operating-system calls live in the application crate that drives
//! this library.

pub mod color;
pub mod command_queue;
pub mod diagnostics;
pub mod event;
pub mod hex;
pub mod native_cursor;
pub mod native_drawing;
pub mod native_keys;
pub mod native_keys_software;
pub mod overlay;
pub mod pixels;
pub mod pointer;
pub mod selection;
pub mod state;
pub mod text;
pub mod tool_cursor;
pub mod window;
