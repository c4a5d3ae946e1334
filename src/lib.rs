//! A text-mode display writer: a fixed grid of glyph cells with a cursor on the
//! bottom row, line wrapping, scrolling and substitution of unprintable bytes.
//!
//! Every cell of the grid is accessed through a volatile load or store, so that
//! no write to display memory is merged or dropped.

pub mod color;
pub mod grid;
pub mod laws;
pub mod writer;

pub use color::{ACHColor, ACHColorCode};
pub use grid::{ACHBuffer, ACHCharacter, BUFFER_HEIGHT, BUFFER_WIDTH};
pub use writer::{_print, ACHWriter, Screen, NEWLINE, PLACEHOLDER, SPACE};
