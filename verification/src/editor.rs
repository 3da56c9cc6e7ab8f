//! The editor: a document, a cursor, and the commands that act on them.
pub mod actions;
pub mod checkbox;
pub mod clipboard;
pub mod command;
pub mod execute;
pub mod comment;
pub mod fuzzy_search;
pub mod indent;
pub mod input;
pub mod kill;
pub mod laws;
pub mod movement;
pub mod newline;
pub mod render;
pub mod scroll;
pub mod search;
pub mod selection;
pub mod session;
pub mod state;
pub mod task;
pub mod ui;
pub mod undo;
pub mod words;

pub use state::{Editor, EditorMode, Request};
