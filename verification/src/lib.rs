//! Logic of a keypad-driven numeric entry device with a paged dot-matrix display.
//!
//! The crate computes what goes over the wires and decides what the samples
//! coming back mean; moving the bytes and levels is left to the caller.

pub mod font;
pub mod glyph;
pub mod display;
pub mod render;
pub mod keypad;
pub mod entry;
pub mod controller;
