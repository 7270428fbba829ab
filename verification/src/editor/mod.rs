//! The text buffer, its cursor and its undo history.

pub mod buffer;
pub mod cursor;
pub mod undo;

pub use buffer::Buffer;
pub use cursor::Cursor;
pub use undo::{Snapshot, UndoStack};
