//! Core of a terminal image-conversion session: a queue of image paths, a
//! chosen output directory and target format, and the input-mode state
//! machine that interprets keystrokes.  Every transition is specified and
//! verified; the surrounding terminal, keyboard and codec work is injected.

pub mod app;
pub mod convert;
pub mod format;
pub mod text;
