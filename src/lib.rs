//! A terminal emulator core for hosting a remote shell inside a sub-window:
//! a styled character grid with cursor state, an escape-sequence interpreter
//! that drives it, and the connection state of the PTY session feeding it.

pub mod style;
pub mod screen;
pub mod interp;
pub mod panel;
pub mod config;
pub mod session;
pub mod bridge;
