//! A small terminal text editor: documents, the editing commands, and the
//! bookkeeping around them.
pub mod backup;
pub mod config;
pub mod document;
pub mod editor;
pub mod error;
pub mod lines;
pub mod persistence;
pub mod text;
