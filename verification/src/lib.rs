//! A terminal Markdown editor's core: a rope-backed text buffer with a
//! cursor, an undo history, Markdown line classification and the
//! state machine that reviews external changes and confirms quitting.

pub mod lines;
pub mod ropes;
pub mod editor;
pub mod strings;
pub mod markdown;
pub mod diff;
pub mod app;
pub mod cli;
pub mod display;
pub mod keys;
pub mod highlight;
pub mod view;
pub mod watch;
