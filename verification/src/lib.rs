//! Decoding of a terminal's raw input bytes into key and mouse events.

pub mod decoder;
pub mod editor;
pub mod event;
pub mod grammar;
pub mod keys;
pub mod laws;
pub mod mouse;
pub mod number;
pub mod source;
pub mod text;
