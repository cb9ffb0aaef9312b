//! Keystroke ergonomics: which finger types each key of a 3x10 grid, how far
//! it moves from its home key, and running statistics over a typed stream.

pub mod layout;
pub mod logger;
pub mod report;
