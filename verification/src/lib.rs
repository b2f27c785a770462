//! A byte-oriented hex viewer library.
//!
//! The library classifies each byte of an input into one of five semantic
//! categories, renders bytes as colored two-digit hexadecimal tokens and as
//! colored one-character text glyphs, and lays the results out as fixed-width
//! dump rows: an eight-digit hexadecimal offset, a hex column grouped in byte
//! pairs, and a text column.

pub mod classify;
pub mod engine;
pub mod render;
pub mod visible;
