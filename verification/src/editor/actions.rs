//! The commands that keys are bound to.
use vstd::prelude::*;

verus! {

/// A command of the editor.
#[derive(Debug, Clone, Copy, PartialEq, Eq, Structural, Hash)]
pub enum Action {
    // File operations
    Save,
    Quit,
    // Cursor movement
    MoveUp,
    MoveDown,
    MoveLeft,
    MoveRight,
    GoToStartOfLine,
    GoToEndOfLine,
    MoveWordLeft,
    MoveWordRight,
    PageUp,
    PageDown,
    GoToStartOfFile,
    GoToEndOfFile,
    MoveToNextDelimiter,
    MoveToPreviousDelimiter,
    // Text editing
    InsertChar(char),
    InsertNewline,
    DeleteChar,
    DeleteForwardChar,
    DeleteWord,
    KillLine,
    Yank,
    Undo,
    Redo,
    Indent,
    Outdent,
    ToggleComment,
    ToggleCheckbox,
    // Selection
    SetMarker,
    ClearMarker,
    CutSelection,
    CopySelection,
    // Search
    EnterSearchMode,
    EnterFuzzySearchMode,
    // Task management
    EnterTaskSelectionMode,
    // Modes
    EnterNormalMode,
    // Miscellaneous
    MoveLineUp,
    MoveLineDown,
    NoOp,
}

} // verus!
