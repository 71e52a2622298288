//! A small terminal text editor's core: grapheme-indexed lines, the line buffer with
//! its edits, and the cursor and viewport arithmetic.
pub mod document;
pub mod editor;
pub mod row;
pub mod text;
pub mod viewport;

pub use document::Document;
pub use editor::{Editor, Key, Reaction, QUIT_TIMES};
pub use row::Row;
pub use viewport::{move_cursor, scroll, Direction, Position};
