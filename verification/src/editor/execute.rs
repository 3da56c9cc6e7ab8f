//! Carrying out the commands that keys are bound to.
use crate::editor::actions::Action;
use crate::editor::checkbox::toggle_checkbox_done;
use crate::editor::clipboard::ClipboardManager;
use crate::editor::comment::toggle_comment_done;
use crate::editor::fuzzy_search::{enter_fuzzy_search_mode_done, handle_fuzzy_search_input_done};
use crate::editor::indent::{indent_line_done, outdent_line_done};
use crate::editor::kill::{
    clear_marker_action_done, copy_selection_action_done, cut_selection_action_done,
    kill_line_done, set_marker_action_done, yank_done,
};
use crate::editor::movement::{
    move_line_down_done, move_line_up_done, move_to_next_delimiter_done,
    move_to_previous_delimiter_done,
};
use crate::editor::newline::insert_newline_done;
use crate::editor::scroll::clamped_x;
use crate::editor::input::{is_control, is_control_char, key_name, key_to_string, Input};
use crate::editor::search::{enter_search_mode_done, handle_search_input_done};
use crate::editor::task::handle_task_selection_input_done;
use crate::editor::selection::{ordered_range, range_in};
use crate::editor::state::{
    delete_char_done, delete_forward_char_done, go_to_end_of_file_done, go_to_end_of_line_done,
    go_to_start_of_file_done, go_to_start_of_line_done, hungry_delete_done, insert_text_done,
    move_cursor_down_done, move_cursor_left_done, move_cursor_right_done, move_cursor_up_done,
    move_cursor_word_left_done, move_cursor_word_right_done, redo_done, scroll_page_down_done,
    scroll_page_up_done, undo_done, Editor, EditorMode, Request,
};
use crate::error::DmacsError;
use crate::text::{byte_len, char_index_of, str_byte_len, string_of};
use vstd::prelude::*;

verus! {

/// The commands that need the selection between the marker and the
/// cursor to lie within the text (the toggles skip lines past its end).
pub open spec fn uses_marker(action: Action) -> bool {
    matches!(action, Action::Indent | Action::Outdent | Action::CutSelection
        | Action::CopySelection)
}

/// `b` is `a` with at most its status message changed.
pub open spec fn same_but_status(a: Editor, b: Editor) -> bool {
    b == (Editor { status_message: b.status_message, ..a })
}

/// `b` is `a` with at most the cursor's byte offset changed.
pub open spec fn same_but_cursor_x(a: Editor, b: Editor) -> bool {
    b == (Editor { cursor_x: b.cursor_x, ..a })
}

/// The outcome of a command that reports nothing back, seen as the outcome
/// of one that reports no request.
pub open spec fn as_unit(r: crate::error::Result<Option<Request>>) -> crate::error::Result<()> {
    match r {
        Ok(_) => Ok(()),
        Err(e) => Err(e),
    }
}

/// `r` reports no request, unless it is an error.
pub open spec fn no_request(r: crate::error::Result<Option<Request>>) -> bool {
    r is Ok ==> r == Ok::<Option<Request>, DmacsError>(None)
}

/// What carrying out `action` does to `before`, leaving `after` and
/// returning `r` (before the cursor is put back within its line).
pub open spec fn action_done(
    before: Editor,
    after: Editor,
    action: Action,
    r: crate::error::Result<Option<Request>>,
) -> bool {
    match action {
        Action::Save => after == before && r == Ok::<Option<Request>, DmacsError>(
            Some(Request::Save),
        ),
        Action::Quit => after == before && r == Ok::<Option<Request>, DmacsError>(
            Some(
                if before.no_exit_on_save {
                    Request::SaveAndStay
                } else {
                    Request::SaveAndQuit
                },
            ),
        ),
        Action::MoveUp => move_cursor_up_done(before, after) && no_request(r) && r is Ok,
        Action::MoveDown => move_cursor_down_done(before, after) && no_request(r) && r is Ok,
        Action::MoveLeft => move_cursor_left_done(before, after) && no_request(r) && r is Ok,
        Action::MoveRight => move_cursor_right_done(before, after) && no_request(r) && r is Ok,
        Action::GoToStartOfLine => go_to_start_of_line_done(before, after) && no_request(r)
            && r is Ok,
        Action::GoToEndOfLine => go_to_end_of_line_done(before, after) && no_request(r)
            && r is Ok,
        Action::MoveWordLeft => move_cursor_word_left_done(before, after, as_unit(r))
            && no_request(r),
        Action::MoveWordRight => move_cursor_word_right_done(before, after, as_unit(r))
            && no_request(r),
        Action::PageUp => scroll_page_up_done(before, after) && no_request(r) && r is Ok,
        Action::PageDown => scroll_page_down_done(before, after) && no_request(r) && r is Ok,
        Action::GoToStartOfFile => go_to_start_of_file_done(before, after) && no_request(r)
            && r is Ok,
        Action::GoToEndOfFile => go_to_end_of_file_done(before, after) && no_request(r)
            && r is Ok,
        Action::MoveToNextDelimiter => move_to_next_delimiter_done(before, after) && no_request(r)
            && r is Ok,
        Action::MoveToPreviousDelimiter => move_to_previous_delimiter_done(before, after)
            && no_request(r) && r is Ok,
        Action::InsertChar(c) => insert_text_done(before, after, seq![c], as_unit(r))
            && no_request(r),
        Action::InsertNewline => insert_newline_done(before, after, r),
        Action::DeleteChar => delete_char_done(before, after, as_unit(r)) && no_request(r),
        Action::DeleteForwardChar => delete_forward_char_done(before, after, as_unit(r))
            && no_request(r),
        Action::DeleteWord => hungry_delete_done(before, after, as_unit(r)) && no_request(r),
        Action::KillLine => r == Ok::<Option<Request>, DmacsError>(None) && exists|m: Editor|
            #[trigger] kill_line_done(before, m, Ok::<(), DmacsError>(())) && after == (Editor {
                clipboard: ClipboardManager { last_action_was_kill: true, ..m.clipboard },
                ..m
            }),
        Action::Yank => yank_done(before, after, as_unit(r)) && no_request(r),
        Action::Undo => undo_done(before, after) && no_request(r) && r is Ok,
        Action::Redo => redo_done(before, after) && no_request(r) && r is Ok,
        Action::Indent => indent_line_done(before, after, as_unit(r)) && no_request(r),
        Action::Outdent => outdent_line_done(before, after, as_unit(r)) && no_request(r),
        Action::ToggleComment => toggle_comment_done(before, after, as_unit(r)) && no_request(r),
        Action::ToggleCheckbox => toggle_checkbox_done(before, after, as_unit(r)) && no_request(
            r,
        ),
        Action::SetMarker => set_marker_action_done(before, after) && no_request(r) && r is Ok,
        Action::ClearMarker => clear_marker_action_done(before, after) && no_request(r)
            && r is Ok,
        Action::CutSelection => cut_selection_action_done(before, after, as_unit(r))
            && no_request(r),
        Action::CopySelection => copy_selection_action_done(before, after, as_unit(r))
            && no_request(r),
        Action::EnterSearchMode => enter_search_mode_done(before, after) && no_request(r)
            && r is Ok,
        Action::EnterFuzzySearchMode => enter_fuzzy_search_mode_done(before, after) && no_request(
            r,
        ) && r is Ok,
        Action::EnterNormalMode => after == (Editor { mode: EditorMode::Normal, ..before })
            && r == Ok::<Option<Request>, DmacsError>(None),
        Action::MoveLineUp => move_line_up_done(before, after) && no_request(r) && r is Ok,
        Action::MoveLineDown => move_line_down_done(before, after) && no_request(r) && r is Ok,
        Action::EnterTaskSelectionMode | Action::NoOp => after == before && r == Ok::<
            Option<Request>,
            DmacsError,
        >(None),
    }
}

/// What `Editor::execute_action` does: the status message is cleared, the
/// command carried out and the cursor put back within its line; an editor
/// not ready for the command refuses it.
pub open spec fn executed(
    before: Editor,
    after: Editor,
    action: Action,
    r: crate::error::Result<Option<Request>>,
) -> bool {
    &&& after.inv()
    &&& !before.ready_for(action) ==> r is Err && after == before
    &&& before.ready_for(action) ==> exists|start: Editor, mid: Editor|
        {
            &&& start.status_message@ == Seq::<char>::empty()
            &&& same_but_status(before, start)
            &&& #[trigger] action_done(start, mid, action, r)
            &&& same_but_cursor_x(mid, after)
            &&& after.cursor_x == clamped_x(mid.cursor_x, mid.cursor_y, mid.text())
        }
}

/// What `Editor::process_input` does with `key`, the Alt key being held
/// down as `alt` says.
pub open spec fn input_processed(
    before: Editor,
    after: Editor,
    key: Input,
    alt: bool,
    r: crate::error::Result<Option<Request>>,
) -> bool {
    let s = Editor { is_alt_pressed: alt, ..before };
    &&& after.inv()
    &&& if !s.mode_ready(key) {
        r is Err && after == s
    } else if s.search.mode {
        handle_search_input_done(s, after, key) && r == Ok::<Option<Request>, DmacsError>(None)
    } else if s.mode == EditorMode::TaskSelection {
        handle_task_selection_input_done(s, after, key) && r == Ok::<Option<Request>, DmacsError>(
            None,
        )
    } else if s.mode == EditorMode::FuzzySearch {
        handle_fuzzy_search_input_done(s, after, key) && r == Ok::<Option<Request>, DmacsError>(
            None,
        )
    } else {
        match s.keymap.binding(key_name(key, alt)) {
            Some(a) => executed(s, after, a, r),
            None => match key {
                Input::Character(c) if !is_control_char(c) => executed(
                    s,
                    after,
                    Action::InsertChar(c),
                    r,
                ),
                _ => after == s && r == Ok::<Option<Request>, DmacsError>(None),
            },
        }
    }
}

impl Editor {
    /// The selection, if there is one, lies within the text.
    pub open spec fn marker_ok(&self) -> bool {
        self.selection.marker_pos matches Some(m) ==> m.0 + 2 <= usize::MAX && ({
            let (s, e) = ordered_range(m, (self.cursor_x, self.cursor_y));
            range_in(self.text(), s, e)
        })
    }

    /// The cursor is on a character boundary of a line, and the positions
    /// that `action` computes fit in a `usize`.
    pub open spec fn ready_for(&self, action: Action) -> bool {
        &&& self.cursor_ok()
        &&& self.cursor_x + 8 <= usize::MAX
        &&& byte_len(self.text()[self.cursor_y as int]) + 8 <= usize::MAX
        &&& self.scroll.row_offset + self.scroll.screen_rows <= usize::MAX
        &&& uses_marker(action) ==> self.marker_ok()
    }

    /// Tests `ready_for`.
    pub fn check_ready_for(&self, action: Action) -> (r: bool)
        ensures
            r == self.ready_for(action),
    {
        let y = self.cursor_y;
        if y >= self.document.lines.len() {
            return false;
        }
        let v = self.document.line_chars(y);
        if char_index_of(&v, self.cursor_x).is_none() {
            return false;
        }
        if self.cursor_x > usize::MAX - 8 {
            return false;
        }
        if str_byte_len(self.document.lines[y].as_str()) > usize::MAX - 8 {
            return false;
        }
        if self.scroll.row_offset > usize::MAX - self.scroll.screen_rows {
            return false;
        }
        let needs_marker = match action {
            Action::Indent | Action::Outdent | Action::CutSelection | Action::CopySelection => true,
            _ => false,
        };
        if needs_marker {
            match self.selection.get_selection_range((self.cursor_x, y)) {
                Some((s, e)) => {
                    let m = self.selection.marker_pos.unwrap();
                    if m.0 > usize::MAX - 2 {
                        return false;
                    }
                    if !(s.1 <= e.1 && e.1 < self.document.lines.len()) {
                        return false;
                    }
                    if s.1 == e.1 && s.0 > e.0 {
                        return false;
                    }
                    let vs = self.document.line_chars(s.1);
                    let ve = self.document.line_chars(e.1);
                    if char_index_of(&vs, s.0).is_none() || char_index_of(&ve, e.0).is_none() {
                        return false;
                    }
                },
                None => {},
            }
        }
        true
    }

    /// Carries out `action`, after clearing the status message; the cursor
    /// is then put back within its line. Saving, quitting and the work of
    /// other commands outside the editor come back as a request. An editor
    /// whose cursor is off the text, or whose positions would overflow,
    /// refuses the command and stays as it is.
    #[verifier::rlimit(60)]
    pub fn execute_action(&mut self, action: Action) -> (r: crate::error::Result<
        Option<Request>,
    >)
        requires
            old(self).inv(),
        ensures
            executed(*old(self), *final(self), action, r),
    {
        if !self.check_ready_for(action) {
            return Err(DmacsError::Editor("The command cannot be carried out here.".to_string()));
        }
        self.status_message = String::new();
        let ghost start = *self;
        let r: crate::error::Result<Option<Request>> = match action {
            Action::Save => Ok(Some(Request::Save)),
            Action::Quit => {
                if self.no_exit_on_save {
                    Ok(Some(Request::SaveAndStay))
                } else {
                    Ok(Some(Request::SaveAndQuit))
                }
            },
            Action::MoveUp => {
                self.move_cursor_up();
                Ok(None)
            },
            Action::MoveDown => {
                self.move_cursor_down();
                Ok(None)
            },
            Action::MoveLeft => {
                self.move_cursor_left();
                Ok(None)
            },
            Action::MoveRight => {
                self.move_cursor_right();
                Ok(None)
            },
            Action::GoToStartOfLine => {
                self.go_to_start_of_line();
                Ok(None)
            },
            Action::GoToEndOfLine => {
                self.go_to_end_of_line();
                Ok(None)
            },
            Action::MoveWordLeft => match self.move_cursor_word_left() {
                Ok(()) => Ok(None),
                Err(e) => Err(e),
            },
            Action::MoveWordRight => match self.move_cursor_word_right() {
                Ok(()) => Ok(None),
                Err(e) => Err(e),
            },
            Action::PageUp => {
                self.scroll_page_up();
                Ok(None)
            },
            Action::PageDown => {
                self.scroll_page_down();
                Ok(None)
            },
            Action::GoToStartOfFile => {
                self.go_to_start_of_file();
                Ok(None)
            },
            Action::GoToEndOfFile => {
                self.go_to_end_of_file();
                Ok(None)
            },
            Action::MoveToNextDelimiter => {
                self.move_to_next_delimiter();
                Ok(None)
            },
            Action::MoveToPreviousDelimiter => {
                self.move_to_previous_delimiter();
                Ok(None)
            },
            Action::InsertChar(c) => {
                let s = string_of(&vec![c]);
                proof {
                    reveal_with_fuel(byte_len, 2);
                    assert(seq![c].drop_last() =~= Seq::<char>::empty());
                    assert(s@ =~= seq![c]);
                }
                match self.insert_text(s.as_str()) {
                    Ok(()) => Ok(None),
                    Err(e) => Err(e),
                }
            },
            Action::InsertNewline => self.insert_newline(),
            Action::DeleteChar => match self.delete_char() {
                Ok(()) => Ok(None),
                Err(e) => Err(e),
            },
            Action::DeleteForwardChar => match self.delete_forward_char() {
                Ok(()) => Ok(None),
                Err(e) => Err(e),
            },
            Action::DeleteWord => match self.hungry_delete() {
                Ok(()) => Ok(None),
                Err(e) => Err(e),
            },
            Action::KillLine => {
                let _ = self.kill_line();
                let ghost m = *self;
                assert(kill_line_done(start, m, Ok::<(), DmacsError>(())));
                self.clipboard.last_action_was_kill = true;
                Ok(None)
            },
            Action::Yank => match self.yank() {
                Ok(()) => Ok(None),
                Err(e) => Err(e),
            },
            Action::Undo => {
                self.undo();
                Ok(None)
            },
            Action::Redo => {
                self.redo();
                Ok(None)
            },
            Action::Indent => match self.indent_line() {
                Ok(()) => Ok(None),
                Err(e) => Err(e),
            },
            Action::Outdent => match self.outdent_line() {
                Ok(()) => Ok(None),
                Err(e) => Err(e),
            },
            Action::ToggleComment => match self.toggle_comment() {
                Ok(()) => Ok(None),
                Err(e) => Err(e),
            },
            Action::ToggleCheckbox => match self.toggle_checkbox() {
                Ok(()) => Ok(None),
                Err(e) => Err(e),
            },
            Action::SetMarker => {
                self.set_marker_action();
                Ok(None)
            },
            Action::ClearMarker => {
                self.clear_marker_action();
                Ok(None)
            },
            Action::CutSelection => match self.cut_selection_action() {
                Ok(()) => Ok(None),
                Err(e) => Err(e),
            },
            Action::CopySelection => match self.copy_selection_action() {
                Ok(()) => Ok(None),
                Err(e) => Err(e),
            },
            Action::EnterSearchMode => {
                self.enter_search_mode();
                Ok(None)
            },
            Action::EnterFuzzySearchMode => {
                self.enter_fuzzy_search_mode();
                Ok(None)
            },
            Action::EnterNormalMode => {
                if self.mode != EditorMode::Normal {
                    self.mode = EditorMode::Normal;
                }
                Ok(None)
            },
            Action::MoveLineUp => {
                self.move_line_up();
                Ok(None)
            },
            Action::MoveLineDown => {
                self.move_line_down();
                Ok(None)
            },
            Action::EnterTaskSelectionMode | Action::NoOp => Ok(None),
        };
        let ghost mid = *self;
        assert(action_done(start, mid, action, r));
        self.scroll.clamp_cursor_x(&mut self.cursor_x, &self.cursor_y, &self.document);
        r
    }

    /// What the key handler of the current mode relies on: in search mode,
    /// matches on lines of the document; in task selection mode, a selected
    /// task in the list, below the cursor when it is to move there.
    pub open spec fn mode_ready(&self, key: Input) -> bool {
        if self.search.mode {
            &&& self.matches_in_document()
            &&& self.search.current_match_index matches Some(c) ==> c < usize::MAX
        } else if self.mode == EditorMode::TaskSelection {
            let sel = self.task.selected_task_index;
            let n = self.task.tasks@.len();
            &&& sel matches Some(i) ==> n > 0 && i < usize::MAX
            &&& key == Input::Character(' ') ==> match sel {
                Some(i) => i < n ==> self.cursor_y < self.task.tasks@[i as int].0
                    < self.document.lines.len(),
                None => true,
            }
            &&& key == Input::Character('#') ==> match sel {
                Some(i) => i < n ==> self.task.tasks@[i as int].0 < self.document.lines.len()
                    && self.cursor_y < self.document.lines.len(),
                None => true,
            }
        } else {
            true
        }
    }

    /// Tests `mode_ready`.
    pub fn check_mode_ready(&self, key: Input) -> (r: bool)
        ensures
            r == self.mode_ready(key),
    {
        if self.search.mode {
            let n = self.document.lines.len();
            let mut i: usize = 0;
            while i < self.search.results.len()
                invariant
                    i <= self.search.results@.len(),
                    self.search.mode,
                    n == self.document.lines.len(),
                    forall|j: int| 0 <= j < i ==> (#[trigger] self.search.results@[j]).0 < n,
                decreases self.search.results.len() - i,
            {
                if self.search.results[i].0 >= n {
                    assert(self.search.results@[i as int].0 >= n);
                    return false;
                }
                i = i + 1;
            }
            match self.search.current_match_index {
                Some(c) => c < usize::MAX,
                None => true,
            }
        } else if self.mode == EditorMode::TaskSelection {
            let n = self.task.tasks.len();
            match self.task.selected_task_index {
                Some(i) => {
                    if n == 0 || i == usize::MAX {
                        return false;
                    }
                    if i < n {
                        let line = self.task.tasks[i].0;
                        if key == Input::Character(' ') && !(self.cursor_y < line && line
                            < self.document.lines.len()) {
                            return false;
                        }
                        if key == Input::Character('#') && !(line < self.document.lines.len()
                            && self.cursor_y < self.document.lines.len()) {
                            return false;
                        }
                    }
                    true
                },
                None => true,
            }
        } else {
            true
        }
    }

    /// Handles a key: in search, task selection and fuzzy search mode the
    /// mode's handler takes it; otherwise the command bound to its name is
    /// carried out, or a printable character without a binding is inserted.
    pub fn process_input(&mut self, key: Input, is_alt_pressed: bool) -> (r:
        crate::error::Result<Option<Request>>)
        requires
            old(self).inv(),
        ensures
            input_processed(*old(self), *final(self), key, is_alt_pressed, r),
    {
        self.set_alt_pressed(is_alt_pressed);
        if !self.check_mode_ready(key) {
            return Err(DmacsError::Editor("The key cannot be handled here.".to_string()));
        }
        if self.search.mode {
            self.handle_search_input(key);
            return Ok(None);
        }
        if self.mode == EditorMode::TaskSelection {
            self.handle_task_selection_input(key);
            return Ok(None);
        }
        if self.mode == EditorMode::FuzzySearch {
            self.handle_fuzzy_search_input(key);
            return Ok(None);
        }
        let key_string = key_to_string(key, is_alt_pressed);
        match self.keymap.get(key_string.as_str()) {
            Some(action) => self.execute_action(action),
            None => match key {
                Input::Character(c) => {
                    if !is_control(c) {
                        self.execute_action(Action::InsertChar(c))
                    } else {
                        Ok(None)
                    }
                },
                _ => Ok(None),
            },
        }
    }
}

} // verus!
