//! Input and output: the console's outputs, log levels, the keyboard
//! input buffer, line editing, virtual terminals and the keyboard key
//! handler.

pub mod console;
pub mod logger;
pub mod input;
pub mod line_editor;
pub mod vt;
pub mod framebuffer;
pub mod framebuffer_enhanced;
pub mod keyboard_handler;
