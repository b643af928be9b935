//! What the display shows, computed as plain values: the screen and its
//! parts, context lines, guide lines, paddings. Putting them on the
//! terminal is left to the program around the library.

pub mod common;
pub mod context;
pub mod help;
pub mod outline;
pub mod rsvp;
pub mod screen;
pub mod status;

pub use screen::{render, GUTTER_PADDING, GUTTER_WIDTH};
