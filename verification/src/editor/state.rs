//! The editor's state, and the edits of the text under the cursor.
use crate::config::Keymap;
use crate::document::{view_lines, ActionDiff, DiffView, Document};
use crate::editor::clipboard::ClipboardManager;
use crate::editor::fuzzy_search::FuzzySearch;
use crate::editor::scroll::Scroll;
use crate::editor::search::Search;
use crate::editor::selection::Selection;
use crate::editor::task::Task;
use crate::editor::undo::{LastActionType, UndoRedo};
use crate::editor::words::{word_delete_start, word_left_stop, word_right_stop};
use crate::lines::{
    all_whitespace, all_ws, is_ws, leading_ws, leading_ws_count, lemma_leading_ws_facts, trim,
    trim_of,
};
use crate::text::{
    byte_len, byte_offset_of, char_index, char_index_of, chars_byte_len, chars_eq, insert_at,
    is_boundary, lemma_boundary, lemma_boundary_ends, lemma_byte_len_take_succ,
    lemma_char_index_unique, next_boundary, next_boundary_of, prev_boundary, prev_boundary_of,
    remove_between, str_byte_len, str_eq, string_of_range, width_before,
};
use vstd::prelude::*;

verus! {

broadcast use vstd::string::group_string_axioms;

/// Which input the editor is taking.
#[derive(PartialEq, Eq, Structural, Debug, Clone, Copy)]
pub enum EditorMode {
    Normal,
    TaskSelection,
    Search,
    FuzzySearch,
}

/// Work outside the editor that a command asks its caller to carry out,
/// and then to report back.
#[derive(Debug, Clone)]
pub enum Request {
    /// Write the document to its file.
    Save,
    /// Write the document to its file and keep editing.
    SaveAndStay,
    /// Write the document to its file, record the cursor, and quit.
    SaveAndQuit,
    /// Post the message of the `/tweet` command written on the cursor line.
    Tweet(String),
}

pub struct Editor {
    pub should_quit: bool,
    pub document: Document,
    /// Byte offset of the cursor in its line.
    pub cursor_x: usize,
    pub cursor_y: usize,
    /// The column that vertical moves aim for.
    pub desired_cursor_x: usize,
    pub status_message: String,
    pub scroll: Scroll,
    pub undo_redo: UndoRedo,
    pub clipboard: ClipboardManager,
    pub is_alt_pressed: bool,
    pub search: Search,
    pub selection: Selection,
    pub no_exit_on_save: bool,
    pub mode: EditorMode,
    pub task: Task,
    pub fuzzy_search: FuzzySearch,
    pub keymap: Keymap,
}

/// The lines with line `y` joined to the line after it.
pub open spec fn join_with_next(lines: Seq<Seq<char>>, y: int) -> Seq<Seq<char>> {
    lines.take(y) + seq![lines[y] + lines[y + 1]] + lines.skip(y + 2)
}

/// The trimmed texts of an empty list item: `- [x]`, `- [ ]` or `-`.
pub open spec fn is_bare_marker(t: Seq<char>) -> bool {
    ||| t == seq!['-', ' ', '[', 'x', ']']
    ||| t == seq!['-', ' ', '[', ' ', ']']
    ||| t == seq!['-']
}

/// Typing a space after a space at the end of a non-blank line inserts an
/// arrow `-> ` instead.
pub open spec fn makes_arrow(line: Seq<char>, x: int, text: Seq<char>) -> bool {
    &&& text == seq![' ']
    &&& line.len() > 0
    &&& x == byte_len(line)
    &&& line.last() == ' '
    &&& trim(line).len() > 0
}

/// The arrow that a doubled space becomes.
pub open spec fn arrow() -> Seq<char> {
    seq!['-', '>', ' ']
}

impl Editor {
    /// The lines of the document.
    pub open spec fn text(&self) -> Seq<Seq<char>> {
        self.document.text()
    }

    /// The undo history describes how the document was reached.
    pub open spec fn inv(&self) -> bool {
        self.undo_redo.consistent_with(self.document.text())
    }

    /// The cursor is on a line, at a character boundary.
    pub open spec fn cursor_ok(&self) -> bool {
        &&& self.cursor_y < self.document.lines.len()
        &&& is_boundary(self.text()[self.cursor_y as int], self.cursor_x as int)
    }

    /// The desired column is the column of the cursor.
    pub open spec fn desired_at_cursor(&self) -> bool {
        self.cursor_y < self.document.lines.len() && self.desired_cursor_x == width_before(
            self.text()[self.cursor_y as int],
            self.cursor_x as int,
        )
    }

    /// Everything but the lines, the cursor, the undo history, the status
    /// message and the clipboard is as in `o`.
    pub open spec fn frame(&self, o: &Self) -> bool {
        &&& self.should_quit == o.should_quit
        &&& self.document.filename == o.document.filename
        &&& self.document.original() == o.document.original()
        &&& self.scroll == o.scroll
        &&& self.is_alt_pressed == o.is_alt_pressed
        &&& self.search == o.search
        &&& self.selection == o.selection
        &&& self.no_exit_on_save == o.no_exit_on_save
        &&& self.mode == o.mode
        &&& self.task == o.task
        &&& self.fuzzy_search == o.fuzzy_search
        &&& self.keymap == o.keymap
    }

    /// Everything but the scroll position and what `frame` leaves out is as
    /// in `o`.
    pub open spec fn frame_but_scroll(&self, o: &Self) -> bool {
        &&& self.should_quit == o.should_quit
        &&& self.document.filename == o.document.filename
        &&& self.document.original() == o.document.original()
        &&& self.is_alt_pressed == o.is_alt_pressed
        &&& self.search == o.search
        &&& self.selection == o.selection
        &&& self.no_exit_on_save == o.no_exit_on_save
        &&& self.mode == o.mode
        &&& self.task == o.task
        &&& self.fuzzy_search == o.fuzzy_search
        &&& self.keymap == o.keymap
        &&& self.scroll.screen_rows == o.scroll.screen_rows
        &&& self.scroll.screen_cols == o.scroll.screen_cols
    }

    /// Everything that `frame` compares but the task list is as in `o`.
    pub open spec fn frame_but_scroll_task(&self, o: &Self) -> bool {
        &&& self.should_quit == o.should_quit
        &&& self.document.filename == o.document.filename
        &&& self.document.original() == o.document.original()
        &&& self.scroll == o.scroll
        &&& self.is_alt_pressed == o.is_alt_pressed
        &&& self.search == o.search
        &&& self.selection == o.selection
        &&& self.no_exit_on_save == o.no_exit_on_save
        &&& self.fuzzy_search == o.fuzzy_search
        &&& self.keymap == o.keymap
    }

    /// Only the cursor (and the scroll position) moved, and the next kill
    /// starts a new kill buffer.
    pub open spec fn moved_from(&self, o: &Self) -> bool {
        &&& self.frame_but_scroll(o)
        &&& self.document == o.document
        &&& self.undo_redo == o.undo_redo
        &&& self.status_message == o.status_message
        &&& self.clipboard.kill_buffer == o.clipboard.kill_buffer
        &&& self.clipboard.clipboard_enabled == o.clipboard.clipboard_enabled
        &&& !self.clipboard.last_action_was_kill
    }

    /// The edit from `before` was recorded as an edit of kind `kind`: it
    /// opened a new undo group, whose undoing gives back the text of
    /// `before`, or joined the last group.
    pub open spec fn recorded_edit(&self, before: &Self, kind: LastActionType) -> bool {
        let u0 = before.undo_redo;
        let u1 = self.undo_redo;
        &&& u1.undo_depth() == u0.undo_depth() || u1.undo_depth() == u0.undo_depth() + 1
        &&& u1.undo_depth() == u0.undo_depth() + 1 ==> u1.previous_text() == before.text()
            && u1.redo_depth() == 0
        &&& u1.undo_depth() == u0.undo_depth() && u0.undo_depth() > 0 ==> u1.previous_text()
            == u0.previous_text()
        &&& (!u0.has_previous_action() || kind == LastActionType::ToggleCheckbox || (kind
            != LastActionType::Ammend && kind != u0.last_type())) ==> u1.undo_depth()
            == u0.undo_depth() + 1
        &&& kind == LastActionType::Ammend && u0.has_previous_action() ==> u1.undo_depth()
            == u0.undo_depth()
        &&& u1.undo_depth() == u0.undo_depth() ==> u1.redo_depth() == u0.redo_depth()
        &&& u1.has_previous_action()
        &&& u1.last_type() == if kind == LastActionType::Ammend {
            u0.last_type()
        } else {
            kind
        }
        &&& u1.threshold() == u0.threshold()
        &&& u1.redo_depth() == 0 ==> u1.redo_ready()
    }

    /// The undo history keeps the cursors of the edits made from `before`:
    /// when they opened the last group, undoing it goes back to `start`
    /// (when they joined it, to where the group started), and redoing it
    /// after an undo goes to `end`.
    pub open spec fn recorded_cursors(
        &self,
        before: &Self,
        start: (usize, usize),
        end: (usize, usize),
    ) -> bool {
        let u0 = before.undo_redo;
        let u1 = self.undo_redo;
        &&& u1.undo_depth() == u0.undo_depth() + 1 ==> u1.undo_cursor() == start
        &&& u1.undo_depth() == u0.undo_depth() > 0 ==> u1.undo_cursor() == u0.undo_cursor()
        &&& u1.undo_depth() > 0 ==> u1.last_edit_end() == end
    }

    /// Applies the edit `action_diff` and records it for undo; the cursor
    /// goes where the edit says.
    pub(crate) fn commit(&mut self, action_type: LastActionType, action_diff: &ActionDiff)
        requires
            old(self).inv(),
            action_diff@.well_placed(old(self).text()),
        ensures
            final(self).inv(),
            final(self).text() == action_diff@.apply_to(old(self).text(), false),
            final(self).cursor_x == action_diff.cursor_end_x,
            final(self).cursor_y == action_diff.cursor_end_y,
            final(self).desired_at_cursor(),
            final(self).recorded_edit(old(self), action_type),
            final(self).recorded_cursors(
                old(self),
                (action_diff.cursor_start_x, action_diff.cursor_start_y),
                (action_diff.cursor_end_x, action_diff.cursor_end_y),
            ),
            final(self).frame(old(self)),
            final(self).status_message == old(self).status_message,
            final(self).clipboard == old(self).clipboard,
    {
        let ghost before = self.text();
        proof {
            crate::document::lemma_undo_reverts_apply(action_diff@, before);
        }
        self.undo_redo.record_action(action_type, action_diff, Ghost(before));
        let (new_x, new_y) = match self.document.apply_action_diff(action_diff, false) {
            Ok(p) => p,
            Err(_) => (action_diff.cursor_end_x, action_diff.cursor_end_y),
        };
        self.cursor_x = new_x;
        self.cursor_y = new_y;
        self.desired_cursor_x = self.scroll.get_display_width(
            self.document.lines[self.cursor_y].as_str(),
            self.cursor_x,
        );
    }

    /// Inserts `text` at the cursor, which moves after it. A space typed
    /// after a space at the end of a non-blank line becomes `-> `.
    pub fn insert_text(&mut self, text: &str) -> (r: crate::error::Result<()>)
        requires
            old(self).inv(),
            old(self).cursor_ok(),
            old(self).cursor_x + byte_len(text@) + 3 <= usize::MAX,
        ensures
            insert_text_done(*old(self), *final(self), text@, r),
    {
        let y = self.cursor_y;
        let x = self.cursor_x;
        let ghost line = self.text()[y as int];
        let v = self.document.line_chars(y);
        let text_chars = crate::text::chars_of(text);
        let is_space = text_chars.len() == 1 && text_chars[0] == ' ';
        assert(is_space == (text@ == seq![' '])) by {
            if text@.len() == 1 {
                assert(text@ == seq![text@[0]]);
            }
        }
        let len = chars_byte_len(&v);
        let arrow_case = is_space && v.len() > 0 && x == len && v[v.len() - 1] == ' ' && trim_of(
            &v,
        ).len() > 0;
        let ins: Vec<char> = if arrow_case {
            vec!['-', '>', ' ']
        } else {
            text_chars
        };
        proof {
            lemma_boundary(line, x as int);
            if arrow_case {
                assert(ins@ == arrow());
                assert(byte_len(arrow()) == 3) by {
                    reveal_with_fuel(byte_len, 4);
                    assert(arrow().drop_last().drop_last().drop_last() =~= Seq::<char>::empty());
                    assert(arrow().drop_last().drop_last() =~= seq!['-']);
                    assert(arrow().drop_last() =~= seq!['-', '>']);
                }
            }
        }
        let ins_len = chars_byte_len_unbounded(&ins);
        let ins_string = crate::text::string_of(&ins);
        let d = ActionDiff {
            cursor_start_x: x,
            cursor_start_y: y,
            cursor_end_x: x + ins_len,
            cursor_end_y: y,
            start_x: x,
            start_y: y,
            end_x: x + ins_len,
            end_y: y,
            new: vec![ins_string],
            old: Vec::new(),
        };
        proof {
            assert(d@.new =~= seq![ins@]);
            assert(d@.old =~= Seq::<Seq<char>>::empty());
            assert(d@.inserts_into(self.text()));
        }
        self.commit(LastActionType::Insertion, &d);
        if arrow_case {
            self.status_message = crate::text::string_of(&vec!['-', '>']);
        } else {
            self.status_message = String::new();
        }
        Ok(())
    }

    /// Backspace. At the end of an empty list item (`-`, `- [ ]` or
    /// `- [x]` with its spaces) the marker goes and the indentation stays;
    /// after indentation ending in two spaces, two spaces go; otherwise the
    /// character before the cursor goes; at the start of a line, the line
    /// joins the previous one.
    pub fn delete_char(&mut self) -> (r: crate::error::Result<()>)
        requires
            old(self).inv(),
            old(self).cursor_ok(),
        ensures
            delete_char_done(*old(self), *final(self), r),
    {
        self.clipboard.last_action_was_kill = false;
        let y = self.cursor_y;
        let x = self.cursor_x;
        let ghost t = self.text();
        let ghost line = t[y as int];
        if x > 0 {
            let v = self.document.line_chars(y);
            let (b, kb, kx) = backspace_range(&v, x);
            let d = ActionDiff {
                cursor_start_x: x,
                cursor_start_y: y,
                cursor_end_x: b,
                cursor_end_y: y,
                start_x: b,
                start_y: y,
                end_x: x,
                end_y: y,
                new: Vec::new(),
                old: vec![string_of_range(&v, kb, kx)],
            };
            proof {
                assert(d@.new =~= Seq::<Seq<char>>::empty());
                assert(d@.old =~= seq![line.subrange(kb as int, kx as int)]);
                lemma_line_deletion(d@, t, y as int, kb as int, kx as int);
            }
            self.commit(LastActionType::Deletion, &d);
        } else if y > 0 {
            let prev_len = str_byte_len(self.document.lines[y - 1].as_str());
            let d = ActionDiff {
                cursor_start_x: x,
                cursor_start_y: y,
                cursor_end_x: prev_len,
                cursor_end_y: y - 1,
                start_x: prev_len,
                start_y: y - 1,
                end_x: x,
                end_y: y,
                new: Vec::new(),
                old: vec![String::new(), String::new()],
            };
            proof {
                assert(d@.new =~= Seq::<Seq<char>>::empty());
                assert(d@.old =~= seq![Seq::<char>::empty(), Seq::<char>::empty()]);
                lemma_join_diff(d@, t, y - 1);
            }
            self.commit(LastActionType::Deletion, &d);
        }
        Ok(())
    }

    /// Delete: removes the character after the cursor, or at the end of a
    /// line joins the next line to it. The cursor stays.
    pub fn delete_forward_char(&mut self) -> (r: crate::error::Result<()>)
        requires
            old(self).inv(),
            old(self).document.lines.len() > 0,
            old(self).cursor_y < old(self).document.lines.len() ==> old(self).cursor_ok(),
        ensures
            delete_forward_char_done(*old(self), *final(self), r),
    {
        self.clipboard.last_action_was_kill = false;
        let y = self.cursor_y;
        let x = self.cursor_x;
        let ghost t = self.text();
        let n = self.document.lines.len();
        if y < n {
            let v = self.document.line_chars(y);
            let len = chars_byte_len(&v);
            let ghost line = t[y as int];
            if x < len {
                let k = char_index_of(&v, x).unwrap();
                let e = next_boundary_of(&v, x + 1);
                let ke = char_index_of(&v, e).unwrap();
                proof {
                    lemma_boundary(line, x as int);
                    lemma_boundary(line, e as int);
                    crate::text::lemma_char_index_monotone(line, x as int, e as int);
                }
                let d = ActionDiff {
                    cursor_start_x: x,
                    cursor_start_y: y,
                    cursor_end_x: x,
                    cursor_end_y: y,
                    start_x: x,
                    start_y: y,
                    end_x: e,
                    end_y: y,
                    new: Vec::new(),
                    old: vec![string_of_range(&v, k, ke)],
                };
                proof {
                    assert(d@.new =~= Seq::<Seq<char>>::empty());
                    assert(d@.old =~= seq![line.subrange(k as int, ke as int)]);
                    lemma_line_deletion(d@, t, y as int, k as int, ke as int);
                }
                self.commit(LastActionType::Deletion, &d);
                return Ok(());
            }
            proof {
                lemma_boundary(line, x as int);
            }
        }
        if y < n - 1 {
            let d = ActionDiff {
                cursor_start_x: x,
                cursor_start_y: y,
                cursor_end_x: x,
                cursor_end_y: y,
                start_x: x,
                start_y: y,
                end_x: 0,
                end_y: y + 1,
                new: Vec::new(),
                old: vec![String::new(), String::new()],
            };
            proof {
                assert(d@.new =~= Seq::<Seq<char>>::empty());
                assert(d@.old =~= seq![Seq::<char>::empty(), Seq::<char>::empty()]);
                lemma_join_diff(d@, t, y as int);
            }
            self.commit(LastActionType::Deletion, &d);
        }
        Ok(())
    }

    pub fn cursor_pos(&self) -> (r: (usize, usize))
        ensures
            r == (self.cursor_x, self.cursor_y),
    {
        (self.cursor_x, self.cursor_y)
    }

    /// Moves the cursor, keeping its column within the line.
    pub fn set_cursor_pos(&mut self, x: usize, y: usize)
        ensures
            final(self).cursor_y == y,
            final(self).cursor_x == crate::editor::scroll::clamped_x(x, y, old(self).text()),
            final(self).frame(old(self)),
            final(self).document == old(self).document,
            final(self).undo_redo == old(self).undo_redo,
            final(self).status_message == old(self).status_message,
            final(self).clipboard == old(self).clipboard,
            final(self).desired_cursor_x == old(self).desired_cursor_x,
    {
        self.cursor_x = x;
        self.cursor_y = y;
        self.scroll.clamp_cursor_x(&mut self.cursor_x, &self.cursor_y, &self.document);
    }

    pub fn set_message(&mut self, message: &str)
        ensures
            final(self).status_message@ == message@,
            final(self).frame(old(self)),
            final(self).document == old(self).document,
            final(self).undo_redo == old(self).undo_redo,
            final(self).clipboard == old(self).clipboard,
            final(self).cursor_x == old(self).cursor_x,
            final(self).cursor_y == old(self).cursor_y,
            final(self).desired_cursor_x == old(self).desired_cursor_x,
    {
        self.status_message = message.to_string();
    }

    pub fn set_alt_pressed(&mut self, is_alt_pressed: bool)
        ensures
            *final(self) == (Editor { is_alt_pressed, ..*old(self) }),
    {
        self.is_alt_pressed = is_alt_pressed;
    }

    pub fn update_screen_size(&mut self, screen_rows: usize, screen_cols: usize)
        ensures
            *final(self) == (Editor {
                scroll: crate::editor::scroll::Scroll { screen_rows, screen_cols, ..old(self).scroll },
                ..*old(self)
            }),
    {
        self.scroll.update_screen_size(screen_rows, screen_cols);
    }

    pub fn set_undo_debounce_threshold(&mut self, threshold_ms: u64)
        requires
            old(self).inv(),
        ensures
            final(self).inv(),
            final(self).undo_redo.threshold() == threshold_ms,
            final(self).undo_redo.undo_depth() == old(self).undo_redo.undo_depth(),
            final(self).undo_redo.redo_depth() == old(self).undo_redo.redo_depth(),
            final(self).document == old(self).document,
            final(self).cursor_x == old(self).cursor_x,
            final(self).cursor_y == old(self).cursor_y,
            final(self).frame(old(self)),
            final(self).status_message == old(self).status_message,
            final(self).clipboard == old(self).clipboard,
    {
        self.undo_redo.set_undo_debounce_threshold(threshold_ms);
    }

    pub fn set_no_exit_on_save(&mut self, value: bool)
        ensures
            *final(self) == (Editor { no_exit_on_save: value, ..*old(self) }),
    {
        self.no_exit_on_save = value;
    }

    pub fn set_keymap(&mut self, keymap: Keymap)
        ensures
            *final(self) == (Editor { keymap, ..*old(self) }),
    {
        self.keymap = keymap;
    }

    /// Moves the cursor to the start of its line.
    pub fn go_to_start_of_line(&mut self)
        ensures
            go_to_start_of_line_done(*old(self), *final(self)),
    {
        self.clipboard.last_action_was_kill = false;
        self.cursor_x = 0;
        self.desired_cursor_x = 0;
    }

    /// Moves the cursor to the end of its line.
    pub fn go_to_end_of_line(&mut self)
        requires
            old(self).cursor_y < old(self).document.lines.len(),
        ensures
            go_to_end_of_line_done(*old(self), *final(self)),
    {
        self.clipboard.last_action_was_kill = false;
        let y = self.cursor_y;
        self.cursor_x = str_byte_len(self.document.lines[y].as_str());
        self.desired_cursor_x = self.scroll.get_display_width(
            self.document.lines[y].as_str(),
            self.cursor_x,
        );
    }

    /// Scrolls one page down and puts the cursor on the first visible line.
    pub fn scroll_page_down(&mut self)
        ensures
            scroll_page_down_done(*old(self), *final(self)),
    {
        self.scroll.scroll_page_down(
            &mut self.cursor_y,
            &mut self.cursor_x,
            &self.document,
            &mut self.clipboard.last_action_was_kill,
        );
    }

    /// Scrolls one page up and puts the cursor on the first visible line.
    pub fn scroll_page_up(&mut self)
        ensures
            scroll_page_up_done(*old(self), *final(self)),
    {
        self.scroll.scroll_page_up(
            &mut self.cursor_y,
            &mut self.cursor_x,
            &self.document,
            &mut self.clipboard.last_action_was_kill,
        );
    }

    /// Moves the cursor and the view to the start of the document.
    pub fn go_to_start_of_file(&mut self)
        ensures
            go_to_start_of_file_done(*old(self), *final(self)),
    {
        self.scroll.go_to_start_of_file(
            &mut self.cursor_y,
            &mut self.cursor_x,
            &mut self.desired_cursor_x,
            &mut self.clipboard.last_action_was_kill,
        );
    }

    /// Moves the cursor to the end of the last line; the desired column is
    /// that line's display width.
    pub fn go_to_end_of_file(&mut self)
        requires
            old(self).document.lines.len() > 0,
            old(self).scroll.row_offset + crate::editor::scroll::sat_sub(
                old(self).scroll.screen_rows,
                1,
            ) <= usize::MAX,
        ensures
            go_to_end_of_file_done(*old(self), *final(self)),
    {
        self.scroll.go_to_end_of_file(
            &mut self.cursor_y,
            &mut self.cursor_x,
            &mut self.desired_cursor_x,
            &self.document,
            &mut self.clipboard.last_action_was_kill,
        );
    }

    /// Moves the cursor one line up, to the column nearest the desired one;
    /// on the first line, to its start.
    pub fn move_cursor_up(&mut self)
        requires
            old(self).cursor_y <= old(self).document.lines.len(),
        ensures
            move_cursor_up_done(*old(self), *final(self)),
    {
        self.scroll.move_cursor_up(
            &mut self.cursor_y,
            &mut self.cursor_x,
            &mut self.desired_cursor_x,
            &self.document,
            &mut self.clipboard.last_action_was_kill,
        );
    }

    /// Moves the cursor one line down, to the column nearest the desired
    /// one; on the last line, to its end.
    pub fn move_cursor_down(&mut self)
        requires
            old(self).cursor_y < old(self).document.lines.len(),
        ensures
            move_cursor_down_done(*old(self), *final(self)),
    {
        self.scroll.move_cursor_down(
            &mut self.cursor_y,
            &mut self.cursor_x,
            &mut self.desired_cursor_x,
            &self.document,
            &mut self.clipboard.last_action_was_kill,
        );
    }

    /// Moves the cursor one character left, or to the end of the previous
    /// line from the start of a line.
    pub fn move_cursor_left(&mut self)
        requires
            old(self).cursor_y < old(self).document.lines.len(),
        ensures
            move_cursor_left_done(*old(self), *final(self)),
    {
        self.scroll.move_cursor_left(
            &mut self.cursor_y,
            &mut self.cursor_x,
            &mut self.desired_cursor_x,
            &self.document,
            &mut self.clipboard.last_action_was_kill,
        );
    }

    /// Moves the cursor one character right, or to the start of the next
    /// line from the end of a line.
    pub fn move_cursor_right(&mut self)
        requires
            old(self).cursor_y < old(self).document.lines.len(),
        ensures
            move_cursor_right_done(*old(self), *final(self)),
    {
        self.scroll.move_cursor_right(
            &mut self.cursor_y,
            &mut self.cursor_x,
            &mut self.desired_cursor_x,
            &self.document,
            &mut self.clipboard.last_action_was_kill,
        );
    }

    /// Undoes the last group of edits; the status message says how it went.
    pub fn undo(&mut self)
        requires
            old(self).inv(),
        ensures
            undo_done(*old(self), *final(self)),
    {
        self.clipboard.last_action_was_kill = false;
        let r = self.undo_redo.undo(
            &mut self.document,
            &mut self.cursor_x,
            &mut self.cursor_y,
            &mut self.desired_cursor_x,
            &self.scroll,
        );
        match r {
            Ok(()) => {
                self.status_message = "Undo successful.".to_string();
            },
            Err(msg) => {
                self.status_message = msg;
            },
        }
    }

    /// Redoes the last undone group of edits; the status message says how
    /// it went.
    pub fn redo(&mut self)
        requires
            old(self).inv(),
        ensures
            redo_done(*old(self), *final(self)),
    {
        self.clipboard.last_action_was_kill = false;
        let r = self.undo_redo.redo(
            &mut self.document,
            &mut self.cursor_x,
            &mut self.cursor_y,
            &mut self.desired_cursor_x,
            &self.scroll,
        );
        match r {
            Ok(()) => {
                self.status_message = "Redo successful.".to_string();
            },
            Err(msg) => {
                self.status_message = msg;
            },
        }
    }

    /// Deletes the word before the cursor together with the whitespace
    /// before it; at the start of a line, acts as backspace.
    pub fn hungry_delete(&mut self) -> (r: crate::error::Result<()>)
        requires
            old(self).inv(),
            old(self).cursor_y < old(self).document.lines.len() ==> old(self).cursor_ok(),
        ensures
            hungry_delete_done(*old(self), *final(self), r),
    {
        let y = self.cursor_y;
        let x = self.cursor_x;
        if y >= self.document.lines.len() {
            return Ok(());
        }
        if x == 0 {
            return self.delete_char();
        }
        let ghost t = self.text();
        let ghost line = t[y as int];
        let v = self.document.line_chars(y);
        let k = char_index_of(&v, x).unwrap();
        proof {
            lemma_boundary(line, x as int);
        }
        let kb = crate::editor::words::find_word_boundary_left(&v, k);
        let b = byte_offset_of(&v, kb);
        let d = ActionDiff {
            cursor_start_x: x,
            cursor_start_y: y,
            cursor_end_x: b,
            cursor_end_y: y,
            start_x: b,
            start_y: y,
            end_x: x,
            end_y: y,
            new: Vec::new(),
            old: vec![string_of_range(&v, kb, k)],
        };
        proof {
            assert(d@.new =~= Seq::<Seq<char>>::empty());
            assert(d@.old =~= seq![line.subrange(kb as int, k as int)]);
            lemma_line_deletion(d@, t, y as int, kb as int, k as int);
        }
        self.commit(LastActionType::Deletion, &d);
        Ok(())
    }

    /// Moves the cursor back over whitespace and then over the word before
    /// it; from the start of a line, to the end of the previous line.
    pub fn move_cursor_word_left(&mut self) -> (r: crate::error::Result<()>)
        requires
            old(self).cursor_y < old(self).document.lines.len(),
            old(self).cursor_x > 0 ==> old(self).cursor_ok(),
        ensures
            move_cursor_word_left_done(*old(self), *final(self), r),
    {
        self.clipboard.last_action_was_kill = false;
        let y = self.cursor_y;
        let x = self.cursor_x;
        if x == 0 {
            if y > 0 {
                self.cursor_y = y - 1;
                self.cursor_x = str_byte_len(self.document.lines[y - 1].as_str());
                self.desired_cursor_x = self.scroll.get_display_width(
                    self.document.lines[y - 1].as_str(),
                    self.cursor_x,
                );
            }
            return Ok(());
        }
        let v = self.document.line_chars(y);
        let k = char_index_of(&v, x).unwrap();
        let kn = crate::editor::words::word_left_of(&v, k);
        self.cursor_x = byte_offset_of(&v, kn);
        self.desired_cursor_x = self.scroll.get_display_width(
            self.document.lines[y].as_str(),
            self.cursor_x,
        );
        Ok(())
    }

    /// Moves the cursor over whitespace and then over the word after it;
    /// from the end of a line, to the start of the next line.
    pub fn move_cursor_word_right(&mut self) -> (r: crate::error::Result<()>)
        requires
            old(self).cursor_y < old(self).document.lines.len(),
            old(self).cursor_x < byte_len(old(self).text()[old(self).cursor_y as int]) ==> old(
                self,
            ).cursor_ok(),
        ensures
            move_cursor_word_right_done(*old(self), *final(self), r),
    {
        self.clipboard.last_action_was_kill = false;
        let y = self.cursor_y;
        let x = self.cursor_x;
        let v = self.document.line_chars(y);
        let len = chars_byte_len(&v);
        if x >= len {
            if y < self.document.lines.len() - 1 {
                self.cursor_y = y + 1;
                self.cursor_x = 0;
                self.desired_cursor_x = 0;
            }
            return Ok(());
        }
        let k = char_index_of(&v, x).unwrap();
        let kn = crate::editor::words::word_right_of(&v, k);
        self.cursor_x = byte_offset_of(&v, kn);
        self.desired_cursor_x = self.scroll.get_display_width(
            self.document.lines[y].as_str(),
            self.cursor_x,
        );
        Ok(())
    }

    /// Replaces lines `sy..=ey` by as many new lines, with two edits that
    /// undo as one: removing the lines (the cursor goes to `(mid_x, sy)`),
    /// then inserting the new ones (the cursor goes to `(end_x, end_y)`).
    pub(crate) fn replace_line_block(
        &mut self,
        sy: usize,
        ey: usize,
        new_lines: Vec<String>,
        kind: LastActionType,
        mid_x: usize,
        end_x: usize,
        end_y: usize,
    )
        requires
            old(self).inv(),
            sy <= ey < old(self).document.lines.len(),
            new_lines.len() == ey - sy + 1,
            old(self).cursor_y < old(self).document.lines.len(),
            end_y < old(self).document.lines.len(),
        ensures
            final(self).inv(),
            final(self).text() == old(self).text().take(sy as int) + view_lines(new_lines@)
                + old(self).text().skip(ey + 1),
            final(self).cursor_x == end_x,
            final(self).cursor_y == end_y,
            final(self).desired_at_cursor(),
            final(self).recorded_edit(old(self), kind),
            final(self).recorded_cursors(
                old(self),
                (old(self).cursor_x, old(self).cursor_y),
                (final(self).cursor_x, final(self).cursor_y),
            ),
            final(self).frame(old(self)),
            final(self).status_message == old(self).status_message,
            final(self).clipboard == old(self).clipboard,
    {
        let ghost t = self.text();
        let ghost r = view_lines(new_lines@);
        let mut old_lines: Vec<String> = Vec::new();
        let mut y = sy;
        while y <= ey
            invariant
                sy <= y <= ey + 1,
                ey < self.document.lines.len(),
                t == self.text(),
                view_lines(old_lines@) == t.subrange(sy as int, y as int),
            decreases ey + 1 - y,
        {
            let ghost o0 = old_lines@;
            old_lines.push(self.document.lines[y].clone());
            assert(view_lines(old_lines@) =~= view_lines(o0).push(t[y as int]));
            assert(t.subrange(sy as int, y + 1) =~= t.subrange(sy as int, y as int).push(t[y as int]));
            y = y + 1;
        }
        let end_len = str_byte_len(self.document.lines[ey].as_str());
        let last_len = str_byte_len(new_lines[new_lines.len() - 1].as_str());
        assert(r.last() == new_lines@[new_lines.len() - 1]@);
        let x = self.cursor_x;
        let cy = self.cursor_y;
        let d1 = ActionDiff {
            cursor_start_x: x,
            cursor_start_y: cy,
            cursor_end_x: mid_x,
            cursor_end_y: sy,
            start_x: 0,
            start_y: sy,
            end_x: end_len,
            end_y: ey,
            new: Vec::new(),
            old: old_lines,
        };
        proof {
            lemma_boundary_ends(t[sy as int]);
            lemma_boundary_ends(t[ey as int]);
            assert(d1@.new =~= Seq::<Seq<char>>::empty());
            if sy == ey {
                assert(t.subrange(sy as int, ey + 1) =~= seq![t[sy as int]]);
                assert(t[sy as int].subrange(0, t[sy as int].len() as int) =~= t[sy as int]);
                assert(crate::text::bytes_between(t[sy as int], 0, end_len as int) =~= t[sy as int]);
            } else {
                assert(t.subrange(sy as int, ey + 1) =~= seq![t[sy as int]] + t.subrange(sy + 1, ey as int)
                    + seq![t[ey as int]]);
            }
            assert(d1@.old =~= crate::document::text_between(t, 0, sy as int, end_len as int, ey as int));
            assert(d1@.deletes_from(t));
            crate::document::lemma_apply_len(d1@, t);
        }
        self.commit(kind, &d1);
        let ghost t1 = self.text();
        proof {
            if sy == ey {
                assert(remove_between(t[sy as int], 0, end_len as int) =~= Seq::<char>::empty());
                assert(t1 =~= t.take(sy as int) + seq![Seq::<char>::empty()] + t.skip(ey + 1));
            } else {
                assert(t1 =~= t.take(sy as int) + seq![Seq::<char>::empty()] + t.skip(ey + 1));
            }
        }
        let new_end_y = sy + (new_lines.len() - 1);
        let d2 = ActionDiff {
            cursor_start_x: mid_x,
            cursor_start_y: sy,
            cursor_end_x: end_x,
            cursor_end_y: end_y,
            start_x: 0,
            start_y: sy,
            end_x: last_len,
            end_y: new_end_y,
            new: new_lines,
            old: Vec::new(),
        };
        proof {
            lemma_boundary_ends(t1[sy as int]);
            assert(d2@.old =~= Seq::<Seq<char>>::empty());
            assert(d2@.new == r);
            assert(d2@.inserts_into(t1));
            crate::document::lemma_apply_len(d2@, t1);
            if r.len() == 1 {
                assert(insert_at(Seq::<char>::empty(), 0, r[0]) =~= r[0]);
                assert(d2@.apply_to(t1, false) =~= t.take(sy as int) + r + t.skip(ey + 1));
            } else {
                assert(Seq::<char>::empty() + r[0] =~= r[0]);
                assert(r.last() + Seq::<char>::empty() =~= r.last());
                assert(r =~= seq![r[0]] + r.subrange(1, r.len() - 1) + seq![r.last()]);
                assert(d2@.apply_to(t1, false) =~= t.take(sy as int) + r + t.skip(ey + 1));
            }
        }
        self.commit(LastActionType::Ammend, &d2);
    }
}

/// The edit that joins line `y` with the next one is a pure deletion of
/// the line break.
pub proof fn lemma_join_diff(d: DiffView, lines: Seq<Seq<char>>, y: int)
    requires
        0 <= y,
        y + 1 < lines.len(),
        d.start_x == byte_len(lines[y]),
        d.start_y == y,
        d.end_x == 0,
        d.end_y == y + 1,
        d.old == seq![Seq::<char>::empty(), Seq::<char>::empty()],
        d.new == Seq::<Seq<char>>::empty(),
    ensures
        d.deletes_from(lines),
        d.apply_to(lines, false) == join_with_next(lines, y),
{
    lemma_boundary_ends(lines[y]);
    lemma_boundary_ends(lines[y + 1]);
    assert(lines.subrange(y + 1, y + 1) =~= Seq::<Seq<char>>::empty());
    assert(d.old =~= crate::document::text_between(lines, d.start_x as int, y, 0, y + 1));
    assert(lines[y] + Seq::<char>::empty() =~= lines[y]);
}

/// The edit that removes the text between two boundaries of line `y` is a
/// pure deletion.
pub proof fn lemma_line_deletion(d: DiffView, lines: Seq<Seq<char>>, y: int, k0: int, k1: int)
    requires
        0 <= y < lines.len(),
        0 <= k0 <= k1 <= lines[y].len(),
        d.start_x == byte_len(lines[y].take(k0)),
        d.end_x == byte_len(lines[y].take(k1)),
        d.start_y == y,
        d.end_y == y,
        d.old == seq![lines[y].subrange(k0, k1)],
        d.new == Seq::<Seq<char>>::empty(),
    ensures
        d.deletes_from(lines),
        d.apply_to(lines, false) == lines.update(
            y,
            remove_between(lines[y], d.start_x as int, d.end_x as int),
        ),
        remove_between(lines[y], d.start_x as int, d.end_x as int) == lines[y].take(k0)
            + lines[y].skip(k1),
{
    lemma_char_index_unique(lines[y], k0);
    lemma_char_index_unique(lines[y], k1);
    crate::text::lemma_byte_len_take_strict(lines[y], k0, k1);
}

/// Where the text that backspace removes starts, for a cursor at byte
/// offset `x > 0` of `line`: after the indentation at the end of an empty
/// list item, two bytes back after indentation ending in two spaces, one
/// character back otherwise.
pub open spec fn backspace_start(line: Seq<char>, x: int) -> int {
    let before = crate::text::take_bytes(line, x);
    if x == byte_len(line) && is_bare_marker(trim(line)) {
        byte_len(line.take(leading_ws(line))) as int
    } else if all_ws(before) && before.len() >= 2 && before[before.len() - 1] == ' '
        && before[before.len() - 2] == ' ' {
        x - 2
    } else {
        prev_boundary(line, x)
    }
}

/// The start of the text that backspace removes, and the character indices
/// of its start and of the cursor.
#[verifier::spinoff_prover]
#[verifier::rlimit(40)]
fn backspace_range(v: &Vec<char>, x: usize) -> (r: (usize, usize, usize))
    requires
        x > 0,
        is_boundary(v@, x as int),
        byte_len(v@) <= usize::MAX,
    ensures
        r.0 == backspace_start(v@, x as int),
        r.0 == byte_len(v@.take(r.1 as int)),
        x == byte_len(v@.take(r.2 as int)),
        r.1 <= r.2 <= v.len(),
{
    let ghost line = v@;
    let k = char_index_of(v, x).unwrap();
    let len = chars_byte_len(v);
    proof {
        lemma_boundary(line, x as int);
        lemma_boundary_ends(line);
    }
    if x == len {
        let trimmed = trim_of(v);
        let checked = vec!['-', ' ', '[', 'x', ']'];
        let unchecked = vec!['-', ' ', '[', ' ', ']'];
        let dash = vec!['-'];
        assert(checked@ =~= seq!['-', ' ', '[', 'x', ']']);
        assert(unchecked@ =~= seq!['-', ' ', '[', ' ', ']']);
        assert(dash@ =~= seq!['-']);
        let bare = chars_eq(&trimmed, &checked) || chars_eq(&trimmed, &unchecked) || chars_eq(
            &trimmed,
            &dash,
        );
        if bare {
            let ind = leading_ws_count(v);
            let start_x = byte_offset_of(v, ind);
            proof {
                lemma_leading_ws_facts(line);
                assert(v@.take(v.len() as int) =~= v@);
            }
            return (start_x, ind, v.len());
        }
    }
    let blank_before = all_whitespace(v, 0, k);
    assert(v@.subrange(0, k as int) =~= crate::text::take_bytes(line, x as int));
    if blank_before && k >= 2 && v[k - 1] == ' ' && v[k - 2] == ' ' {
        proof {
            lemma_byte_len_take_succ(line, k - 2);
            lemma_byte_len_take_succ(line, k - 1);
        }
        return (x - 2, k - 2, k);
    }
    let p = prev_boundary_of(v, x);
    let kp = char_index_of(v, p).unwrap();
    proof {
        lemma_boundary(line, p as int);
        crate::text::lemma_char_index_monotone(line, p as int, x as int);
    }
    (p, kp, k)
}

/// Byte length of a short character vector.
fn chars_byte_len_unbounded(v: &Vec<char>) -> (n: usize)
    requires
        byte_len(v@) <= usize::MAX,
    ensures
        n == byte_len(v@),
{
    chars_byte_len(v)
}

/// What `Editor::insert_text` does.
pub open spec fn insert_text_done(before: Editor, after: Editor, text: Seq<char>, r: crate::error::Result<()>) -> bool {
    &&& r is Ok
    &&& after.inv()
    &&& ({
            let line = before.text()[before.cursor_y as int];
            let x = before.cursor_x as int;
            let arrow_case = makes_arrow(line, x, text);
            let ins = if arrow_case {
                arrow()
            } else {
                text
            };
            &&& after.text() =~= before.text().update(
                before.cursor_y as int,
                insert_at(line, x, ins),
            )
            &&& after.cursor_x == x + byte_len(ins)
            &&& after.status_message@ == if arrow_case {
                seq!['-', '>']
            } else {
                Seq::<char>::empty()
            }
        })
    &&& after.cursor_y == before.cursor_y
    &&& after.desired_at_cursor()
    &&& after.recorded_edit(&before, LastActionType::Insertion)
    &&& after.recorded_cursors(
        &before,
        (before.cursor_x, before.cursor_y),
        (after.cursor_x, after.cursor_y),
    )
    &&& after.frame(&before)
    &&& after.clipboard == before.clipboard
}

/// What `Editor::delete_char` does.
pub open spec fn delete_char_done(before: Editor, after: Editor, r: crate::error::Result<()>) -> bool {
    &&& r is Ok
    &&& after.inv()
    &&& ({
            let t = before.text();
            let y = before.cursor_y as int;
            let x = before.cursor_x as int;
            if x > 0 {
                let b = backspace_start(t[y], x);
                &&& after.text() =~= t.update(y, remove_between(t[y], b, x))
                &&& after.cursor_x == b
                &&& after.cursor_y == y
                &&& after.desired_at_cursor()
                &&& after.recorded_edit(&before, LastActionType::Deletion)
                &&& after.recorded_cursors(
                    &before,
                    (before.cursor_x, before.cursor_y),
                    (after.cursor_x, after.cursor_y),
                )
            } else if y > 0 {
                &&& after.text() =~= join_with_next(t, y - 1)
                &&& after.cursor_x == byte_len(t[y - 1])
                &&& after.cursor_y == y - 1
                &&& after.desired_at_cursor()
                &&& after.recorded_edit(&before, LastActionType::Deletion)
                &&& after.recorded_cursors(
                    &before,
                    (before.cursor_x, before.cursor_y),
                    (after.cursor_x, after.cursor_y),
                )
            } else {
                &&& after.document.lines == before.document.lines
                &&& after.cursor_x == before.cursor_x
                &&& after.cursor_y == before.cursor_y
                &&& after.desired_cursor_x == before.desired_cursor_x
                &&& after.undo_redo == before.undo_redo
            }
        })
    &&& after.frame(&before)
    &&& after.status_message == before.status_message
    &&& !after.clipboard.last_action_was_kill
    &&& after.clipboard.kill_buffer == before.clipboard.kill_buffer
    &&& after.clipboard.clipboard_enabled == before.clipboard.clipboard_enabled
}

/// What `Editor::delete_forward_char` does.
pub open spec fn delete_forward_char_done(before: Editor, after: Editor, r: crate::error::Result<()>) -> bool {
    &&& r is Ok
    &&& after.inv()
    &&& ({
            let t = before.text();
            let y = before.cursor_y as int;
            let x = before.cursor_x as int;
            if y < t.len() && x < byte_len(t[y]) {
                &&& after.text() =~= t.update(
                    y,
                    remove_between(t[y], x, next_boundary(t[y], x + 1)),
                )
                &&& after.recorded_edit(&before, LastActionType::Deletion)
                &&& after.recorded_cursors(
                    &before,
                    (before.cursor_x, before.cursor_y),
                    (after.cursor_x, after.cursor_y),
                )
                &&& after.desired_at_cursor()
            } else if y + 1 < t.len() {
                &&& after.text() =~= join_with_next(t, y)
                &&& after.recorded_edit(&before, LastActionType::Deletion)
                &&& after.recorded_cursors(
                    &before,
                    (before.cursor_x, before.cursor_y),
                    (after.cursor_x, after.cursor_y),
                )
                &&& after.desired_at_cursor()
            } else {
                &&& after.document.lines == before.document.lines
                &&& after.desired_cursor_x == before.desired_cursor_x
                &&& after.undo_redo == before.undo_redo
            }
        })
    &&& after.cursor_x == before.cursor_x
    &&& after.cursor_y == before.cursor_y
    &&& after.frame(&before)
    &&& after.status_message == before.status_message
    &&& !after.clipboard.last_action_was_kill
    &&& after.clipboard.kill_buffer == before.clipboard.kill_buffer
    &&& after.clipboard.clipboard_enabled == before.clipboard.clipboard_enabled
}

/// What `Editor::go_to_start_of_line` does.
pub open spec fn go_to_start_of_line_done(before: Editor, after: Editor) -> bool {
    &&& after.cursor_x == 0
    &&& after.desired_cursor_x == 0
    &&& after.cursor_y == before.cursor_y
    &&& after.moved_from(&before)
    &&& after.scroll == before.scroll
}

/// What `Editor::go_to_end_of_line` does.
pub open spec fn go_to_end_of_line_done(before: Editor, after: Editor) -> bool {
    &&& after.cursor_x == byte_len(before.text()[before.cursor_y as int])
    &&& after.cursor_y == before.cursor_y
    &&& after.desired_at_cursor()
    &&& after.moved_from(&before)
    &&& after.scroll == before.scroll
}

/// What `Editor::scroll_page_down` does.
pub open spec fn scroll_page_down_done(before: Editor, after: Editor) -> bool {
    &&& after.scroll.row_offset == crate::editor::scroll::page_down_row(
            before.scroll.row_offset,
            before.scroll.screen_rows,
            before.document.lines.len(),
        )
    &&& after.cursor_y == after.scroll.row_offset
    &&& after.cursor_x == crate::editor::scroll::clamped_x(
            before.cursor_x,
            after.cursor_y,
            before.text(),
        )
    &&& after.desired_cursor_x == before.desired_cursor_x
    &&& after.scroll.col_offset == before.scroll.col_offset
    &&& after.moved_from(&before)
}

/// What `Editor::scroll_page_up` does.
pub open spec fn scroll_page_up_done(before: Editor, after: Editor) -> bool {
    &&& after.scroll.row_offset == crate::editor::scroll::sat_sub(
            before.scroll.row_offset,
            crate::editor::scroll::page_height(before.scroll.screen_rows),
        )
    &&& after.cursor_y == after.scroll.row_offset
    &&& after.cursor_x == crate::editor::scroll::clamped_x(
            before.cursor_x,
            after.cursor_y,
            before.text(),
        )
    &&& after.desired_cursor_x == before.desired_cursor_x
    &&& after.scroll.col_offset == before.scroll.col_offset
    &&& after.moved_from(&before)
}

/// What `Editor::go_to_start_of_file` does.
pub open spec fn go_to_start_of_file_done(before: Editor, after: Editor) -> bool {
    &&& after.cursor_x == 0 && after.cursor_y == 0
    &&& after.desired_cursor_x == 0
    &&& after.scroll.row_offset == 0 && after.scroll.col_offset == 0
    &&& after.moved_from(&before)
}

/// What `Editor::go_to_end_of_file` does.
pub open spec fn go_to_end_of_file_done(before: Editor, after: Editor) -> bool {
    &&& after.cursor_y == before.document.lines.len() - 1
    &&& after.cursor_x == byte_len(before.text()[after.cursor_y as int])
    &&& after.desired_cursor_x == crate::text::display_width(
            before.text()[after.cursor_y as int],
        )
    &&& after.scroll.row_offset == crate::editor::scroll::end_of_file_row(
            before.scroll.row_offset,
            before.scroll.screen_rows,
            after.cursor_y,
        )
    &&& after.scroll.col_offset == before.scroll.col_offset
    &&& after.moved_from(&before)
}

/// What `Editor::move_cursor_up` does.
pub open spec fn move_cursor_up_done(before: Editor, after: Editor) -> bool {
    &&& before.cursor_y > 0 ==> {
            let line = before.text()[after.cursor_y as int];
            &&& after.cursor_y == before.cursor_y - 1
            &&& after.cursor_x == byte_len(
                line.take(crate::text::column_stop(line, before.desired_cursor_x as int)),
            )
            &&& after.desired_cursor_x == before.desired_cursor_x
        }
    &&& before.cursor_y == 0 ==> after.cursor_y == 0 && after.cursor_x == 0
            && after.desired_cursor_x == 0
    &&& after.scroll == before.scroll
    &&& after.moved_from(&before)
}

/// What `Editor::move_cursor_down` does.
pub open spec fn move_cursor_down_done(before: Editor, after: Editor) -> bool {
    &&& before.cursor_y + 1 < before.document.lines.len() ==> {
            let line = before.text()[after.cursor_y as int];
            &&& after.cursor_y == before.cursor_y + 1
            &&& after.cursor_x == byte_len(
                line.take(crate::text::column_stop(line, before.desired_cursor_x as int)),
            )
            &&& after.desired_cursor_x == before.desired_cursor_x
        }
    &&& before.cursor_y + 1 >= before.document.lines.len() ==> {
            let line = before.text()[before.cursor_y as int];
            &&& after.cursor_y == before.cursor_y
            &&& after.cursor_x == byte_len(line)
            &&& after.desired_cursor_x == width_before(line, byte_len(line) as int)
        }
    &&& after.scroll == before.scroll
    &&& after.moved_from(&before)
}

/// What `Editor::move_cursor_left` does.
pub open spec fn move_cursor_left_done(before: Editor, after: Editor) -> bool {
    &&& before.cursor_x > 0 ==> {
            let line = before.text()[before.cursor_y as int];
            &&& after.cursor_y == before.cursor_y
            &&& after.cursor_x == prev_boundary(line, before.cursor_x as int)
            &&& after.desired_at_cursor()
        }
    &&& before.cursor_x == 0 && before.cursor_y > 0 ==> {
            let line = before.text()[after.cursor_y as int];
            &&& after.cursor_y == before.cursor_y - 1
            &&& after.cursor_x == byte_len(line)
            &&& after.desired_at_cursor()
        }
    &&& before.cursor_x == 0 && before.cursor_y == 0 ==> after.cursor_x == 0
            && after.cursor_y == 0 && after.desired_cursor_x == before.desired_cursor_x
    &&& after.scroll == before.scroll
    &&& after.moved_from(&before)
}

/// What `Editor::move_cursor_right` does.
pub open spec fn move_cursor_right_done(before: Editor, after: Editor) -> bool {
    &&& ({
            let line = before.text()[before.cursor_y as int];
            if before.cursor_x < byte_len(line) {
                &&& after.cursor_y == before.cursor_y
                &&& after.cursor_x == next_boundary(line, before.cursor_x + 1)
                &&& after.desired_at_cursor()
            } else if before.cursor_y + 1 < before.document.lines.len() {
                &&& after.cursor_y == before.cursor_y + 1
                &&& after.cursor_x == 0
                &&& after.desired_cursor_x == 0
            } else {
                &&& after.cursor_y == before.cursor_y
                &&& after.cursor_x == before.cursor_x
                &&& after.desired_cursor_x == before.desired_cursor_x
            }
        })
    &&& after.scroll == before.scroll
    &&& after.moved_from(&before)
}

/// What `Editor::undo` does.
pub open spec fn undo_done(before: Editor, after: Editor) -> bool {
    &&& after.inv()
    &&& before.undo_redo.undo_depth() > 0 ==> {
            &&& after.text() =~= before.undo_redo.previous_text()
            &&& after.undo_redo.undo_depth() == before.undo_redo.undo_depth() - 1
            &&& after.undo_redo.redo_depth() == before.undo_redo.redo_depth() + 1
            &&& after.undo_redo.redo_ready() == before.undo_redo.redo_ready()
            &&& after.undo_redo.redo_ready() ==> after.undo_redo.next_text()
                == before.text()
            &&& (after.cursor_x, after.cursor_y) == before.undo_redo.undo_cursor()
            &&& after.undo_redo.undo_groups() == before.undo_redo.undo_groups().drop_last()
            &&& after.undo_redo.redo_groups() == before.undo_redo.redo_groups().push(
                before.undo_redo.undo_groups().last(),
            )
            &&& after.desired_at_cursor()
            &&& after.status_message@ == "Undo successful."@
        }
    &&& before.undo_redo.undo_depth() == 0 ==> {
            &&& after.document == before.document
            &&& after.cursor_x == before.cursor_x
            &&& after.cursor_y == before.cursor_y
            &&& after.undo_redo.undo_depth() == 0
            &&& after.status_message@ == "Nothing to undo."@
        }
    &&& after.frame(&before)
    &&& !after.clipboard.last_action_was_kill
    &&& after.clipboard.kill_buffer == before.clipboard.kill_buffer
    &&& after.clipboard.clipboard_enabled == before.clipboard.clipboard_enabled
}

/// What `Editor::redo` does.
pub open spec fn redo_done(before: Editor, after: Editor) -> bool {
    &&& after.inv()
    &&& before.undo_redo.redo_depth() > 0 ==> {
            ||| {
                &&& before.undo_redo.redo_ready() ==> after.text()
                    =~= before.undo_redo.next_text()
                &&& after.undo_redo.undo_depth() == before.undo_redo.undo_depth() + 1
                &&& after.undo_redo.redo_depth() == before.undo_redo.redo_depth() - 1
                &&& after.undo_redo.undo_groups() == before.undo_redo.undo_groups().push(
                    before.undo_redo.redo_groups().last(),
                )
                &&& after.undo_redo.redo_groups() == before.undo_redo.redo_groups().drop_last()
                &&& after.undo_redo.previous_text() == before.text()
                &&& (after.cursor_x, after.cursor_y) == before.undo_redo.redo_cursor()
                &&& after.desired_at_cursor()
                &&& after.status_message@ == "Redo successful."@
            }
            ||| {
                &&& !before.undo_redo.redo_ready()
                &&& after.document == before.document
                &&& after.cursor_x == before.cursor_x
                &&& after.cursor_y == before.cursor_y
                &&& after.undo_redo.undo_depth() == before.undo_redo.undo_depth()
                &&& after.undo_redo.redo_depth() == before.undo_redo.redo_depth()
                &&& after.status_message@ == "Redo failed: the edits do not fit the document."@
            }
        }
    &&& before.undo_redo.redo_depth() == 0 ==> {
            &&& after.document == before.document
            &&& after.cursor_x == before.cursor_x
            &&& after.cursor_y == before.cursor_y
            &&& after.status_message@ == "Nothing to redo."@
        }
    &&& after.frame(&before)
    &&& !after.clipboard.last_action_was_kill
    &&& after.clipboard.kill_buffer == before.clipboard.kill_buffer
    &&& after.clipboard.clipboard_enabled == before.clipboard.clipboard_enabled
}

/// What `Editor::hungry_delete` does.
pub open spec fn hungry_delete_done(before: Editor, after: Editor, r: crate::error::Result<()>) -> bool {
    &&& r is Ok
    &&& after.inv()
    &&& ({
            let t = before.text();
            let y = before.cursor_y as int;
            let x = before.cursor_x as int;
            if y >= t.len() {
                &&& after.document == before.document
                &&& after.undo_redo == before.undo_redo
                &&& after.cursor_x == before.cursor_x
                &&& after.cursor_y == before.cursor_y
                &&& after.clipboard == before.clipboard
            } else if x > 0 {
                let line = t[y];
                let b = byte_len(
                    line.take(word_delete_start(line, char_index(line, x))),
                ) as int;
                &&& after.text() =~= t.update(y, remove_between(line, b, x))
                &&& after.cursor_x == b
                &&& after.cursor_y == y
                &&& after.desired_at_cursor()
                &&& after.recorded_edit(&before, LastActionType::Deletion)
                &&& after.recorded_cursors(
                    &before,
                    (before.cursor_x, before.cursor_y),
                    (after.cursor_x, after.cursor_y),
                )
                &&& after.clipboard == before.clipboard
            } else if y > 0 {
                &&& after.text() =~= join_with_next(t, y - 1)
                &&& after.cursor_x == byte_len(t[y - 1])
                &&& after.cursor_y == y - 1
                &&& after.desired_at_cursor()
                &&& after.recorded_edit(&before, LastActionType::Deletion)
                &&& after.recorded_cursors(
                    &before,
                    (before.cursor_x, before.cursor_y),
                    (after.cursor_x, after.cursor_y),
                )
                &&& !after.clipboard.last_action_was_kill
            } else {
                &&& after.document.lines == before.document.lines
                &&& after.cursor_x == before.cursor_x
                &&& after.cursor_y == before.cursor_y
                &&& after.undo_redo == before.undo_redo
                &&& !after.clipboard.last_action_was_kill
            }
        })
    &&& after.frame(&before)
    &&& after.status_message == before.status_message
    &&& after.clipboard.kill_buffer == before.clipboard.kill_buffer
    &&& after.clipboard.clipboard_enabled == before.clipboard.clipboard_enabled
}

/// What `Editor::move_cursor_word_left` does.
pub open spec fn move_cursor_word_left_done(before: Editor, after: Editor, r: crate::error::Result<()>) -> bool {
    &&& r is Ok
    &&& ({
            let t = before.text();
            let y = before.cursor_y as int;
            let x = before.cursor_x as int;
            if x > 0 {
                let line = t[y];
                &&& after.cursor_x == byte_len(
                    line.take(word_left_stop(line, char_index(line, x))),
                )
                &&& after.cursor_y == y
                &&& after.desired_at_cursor()
            } else if y > 0 {
                &&& after.cursor_x == byte_len(t[y - 1])
                &&& after.cursor_y == y - 1
                &&& after.desired_at_cursor()
            } else {
                &&& after.cursor_x == before.cursor_x
                &&& after.cursor_y == before.cursor_y
                &&& after.desired_cursor_x == before.desired_cursor_x
            }
        })
    &&& after.scroll == before.scroll
    &&& after.moved_from(&before)
}

/// What `Editor::move_cursor_word_right` does.
pub open spec fn move_cursor_word_right_done(before: Editor, after: Editor, r: crate::error::Result<()>) -> bool {
    &&& r is Ok
    &&& ({
            let t = before.text();
            let y = before.cursor_y as int;
            let x = before.cursor_x as int;
            let line = t[y];
            if x < byte_len(line) {
                &&& after.cursor_x == byte_len(
                    line.take(word_right_stop(line, char_index(line, x))),
                )
                &&& after.cursor_y == y
                &&& after.desired_at_cursor()
            } else if y + 1 < t.len() {
                &&& after.cursor_x == 0
                &&& after.cursor_y == y + 1
                &&& after.desired_cursor_x == 0
            } else {
                &&& after.cursor_x == before.cursor_x
                &&& after.cursor_y == before.cursor_y
                &&& after.desired_cursor_x == before.desired_cursor_x
            }
        })
    &&& after.scroll == before.scroll
    &&& after.moved_from(&before)
}

} // verus!
