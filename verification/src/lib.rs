//! Core of a minimal terminal text viewer/editor: a line-oriented text
//! buffer plus the viewport/cursor coordinate system that addresses it.
//! Terminal wiring (raw mode, event source, drawing) lives outside; this
//! crate holds the verified state machine the wiring drives.

pub mod backend;
pub mod editor;
pub mod laws;
