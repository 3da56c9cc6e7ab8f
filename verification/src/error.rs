//! Errors of the editor library.
use vstd::prelude::*;

verus! {

/// Errors reported by the editor.
#[derive(Debug, Clone, PartialEq, Eq)]
pub enum DmacsError {
    Io(String),
    Terminal(String),
    Editor(String),
    Document(String),
    BackupNotFound(String),
    Unknown,
}

pub type Result<T> = core::result::Result<T, DmacsError>;

} // verus!
