//! Runtime-side logic of the Sabitori UI framework: the parts of the
//! runtime that decide (input routing, gesture latching, text deltas, task
//! inboxes, screenshot timing, …), written so that Verus checks them.

mod std_support;

pub mod fonts;
pub mod ios_keyboard;
pub mod input;
pub mod scroll_sync;
pub mod tasks;
pub mod screenshot;
pub mod keymap;
pub mod clipboard;
pub mod declarative;
pub mod scene_app;
pub mod macos_blur;
pub mod runtime_shared;
pub mod files;
pub mod offscreen;
pub mod hot_reload;
pub mod key_input;
pub mod input_router;
pub mod frame;
pub mod a11y;
pub mod window_input;
