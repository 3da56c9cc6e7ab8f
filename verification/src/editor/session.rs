//! An editing session: opening an editor on a document, and finishing the
//! work that commands hand to their caller.
use crate::config::{default_bindings, Keymap};
use crate::document::Document;
use crate::editor::clipboard::ClipboardManager;
use crate::editor::command::{tweet_posted, CommandResult};
use crate::editor::newline::apply_command_result_done;
use crate::editor::fuzzy_search::FuzzySearch;
use crate::editor::scroll::{sat_sub, Scroll};
use crate::editor::search::Search;
use crate::editor::selection::Selection;
use crate::editor::state::{insert_text_done, Editor, EditorMode, Request};
use crate::editor::task::Task;
use crate::editor::undo::UndoRedo;
use crate::error::DmacsError;
use crate::text::{byte_len, byte_offset_of, concat_strings, str_byte_len, string_of, width_before};
use vstd::prelude::*;

verus! {

/// The character column that a 1-based `column` argument names.
pub open spec fn column_index(column: Option<usize>) -> int {
    match column {
        Some(c) => sat_sub(c, 1) as int,
        None => 0,
    }
}

/// Byte offset of the character column `col` of `line`, or the end of the
/// line when it is shorter.
pub open spec fn column_offset(line: Seq<char>, col: int) -> int {
    if col < line.len() {
        byte_len(line.take(col)) as int
    } else {
        byte_len(line) as int
    }
}

/// Where a new editor puts its cursor, as `(x, y, desired column)`: at a
/// restored position if there is one, then at `line` and `column` (1-based)
/// if a line is given; a line past the end means the end of the last line.
pub open spec fn start_cursor(
    text: Seq<Seq<char>>,
    restored: Option<(usize, usize, usize, usize)>,
    line: Option<usize>,
    column: Option<usize>,
) -> (int, int, int) {
    let n = text.len();
    let (x0, y0, d0) = match restored {
        Some((x, y, _, _)) => (
            x as int,
            y as int,
            if y < n {
                width_before(text[y as int], x as int) as int
            } else {
                0
            },
        ),
        None => (0, 0, 0),
    };
    match line {
        Some(l) => {
            let y = sat_sub(l, 1) as int;
            if y < n {
                let x = column_offset(text[y], column_index(column));
                (x, y, width_before(text[y], x) as int)
            } else if n > 0 {
                (byte_len(text[n - 1]) as int, n - 1, d0)
            } else {
                (x0, y0, d0)
            }
        },
        None => (x0, y0, d0),
    }
}

/// How posting the message of a `/tweet` line went.
pub enum TweetOutcome {
    /// The message was posted.
    Posted,
    /// The posting tool ran and failed, with this error output and this
    /// output.
    Failed(String, String),
    /// The posting tool could not be run, for this reason.
    NotRun(String),
}

/// The command result that a tweet's outcome gives for the `/tweet` line
/// `line`: the line commented out, or an error message.
pub open spec fn tweet_result(line: Seq<char>, outcome: TweetOutcome, res: CommandResult) -> bool {
    match outcome {
        TweetOutcome::Posted => res matches CommandResult::Success {
            new_line_content: Some(c),
            status_message,
        } && c@ == "# "@ + line && status_message@ == "/tweet"@,
        TweetOutcome::Failed(err, out) => res matches CommandResult::Error(m) && m@
            == "Tweet failed: "@ + err@ + " "@ + out@,
        TweetOutcome::NotRun(why) => res matches CommandResult::Error(m) && m@
            == "Failed to execute xurl: "@ + why@,
    }
}

/// `b` is `a` but for the document, the status message, whether the editor
/// quits, and the clipboard.
pub open spec fn same_but_save(a: Editor, b: Editor) -> bool {
    b == (Editor {
        document: b.document,
        status_message: b.status_message,
        should_quit: b.should_quit,
        clipboard: b.clipboard,
        ..a
    })
}

/// What finishing `request` after the document was written to its file
/// (`saved` being what writing gave) does: a failed write changes nothing
/// but the kill flag and is reported; a good one records the written
/// content, shows the request's message and, for `SaveAndQuit`, makes the
/// editor quit. A tweet request is no save and changes nothing.
pub open spec fn save_finished(
    before: Editor,
    after: Editor,
    request: Request,
    saved: crate::error::Result<()>,
    r: crate::error::Result<()>,
) -> bool {
    let resets_kill = request is SaveAndStay || request is SaveAndQuit;
    if request is Tweet {
        after == before && r is Ok
    } else {
        &&& same_but_save(before, after)
        &&& after.clipboard.kill_buffer == before.clipboard.kill_buffer
        &&& after.clipboard.clipboard_enabled == before.clipboard.clipboard_enabled
        &&& after.clipboard.last_action_was_kill == (!resets_kill
            && before.clipboard.last_action_was_kill)
        &&& match saved {
            Err(e) => {
                &&& r == Err::<(), DmacsError>(e)
                &&& after.document == before.document
                &&& after.status_message == before.status_message
                &&& after.should_quit == before.should_quit
            },
            Ok(_) => {
                &&& r is Ok
                &&& after.document.saved_from(before.document)
                &&& after.should_quit == (before.should_quit || request is SaveAndQuit)
                &&& match request {
                    Request::Save => after.status_message@ == "File saved!"@,
                    Request::SaveAndStay => after.status_message@
                        == "File saved. Editor will not exit."@,
                    _ => after.status_message == before.status_message,
                }
            },
        }
    }
}

impl Editor {
    /// An editor on `document` (an empty unnamed one if none is given),
    /// with the cursor at `line` and `column`, counted from 1.
    pub fn new(document: Option<Document>, line: Option<usize>, column: Option<usize>) -> (e:
        Editor)
        ensures
            e.opened(document, None, line, column),
    {
        Self::new_with_restored(document, None, line, column)
    }

    /// What a new editor is: nothing done yet, the default key bindings,
    /// the cursor where `start_cursor` says, and the scroll position
    /// restored.
    pub open spec fn opened(
        &self,
        document: Option<Document>,
        restored: Option<(usize, usize, usize, usize)>,
        line: Option<usize>,
        column: Option<usize>,
    ) -> bool {
        let (x, y, d) = start_cursor(self.text(), restored, line, column);
        &&& self.inv()
        &&& match document {
            Some(doc) => self.document == doc,
            None => self.text() == seq![Seq::<char>::empty()] && self.document.filename is None,
        }
        &&& self.cursor_x == x
        &&& self.cursor_y == y
        &&& self.desired_cursor_x == d
        &&& match restored {
            Some((_, _, row, col)) => self.scroll.row_offset == row && self.scroll.col_offset
                == col,
            None => self.scroll.row_offset == 0 && self.scroll.col_offset == 0,
        }
        &&& self.scroll.screen_rows == 0 && self.scroll.screen_cols == 0
        &&& !self.should_quit
        &&& self.status_message@ == Seq::<char>::empty()
        &&& self.undo_redo.undo_depth() == 0 && self.undo_redo.redo_depth() == 0
        &&& !self.undo_redo.has_previous_action()
        &&& self.clipboard.kill_buffer@ == Seq::<char>::empty()
        &&& !self.clipboard.last_action_was_kill
        &&& self.clipboard.clipboard_enabled
        &&& !self.is_alt_pressed
        &&& !self.search.mode && self.search.query@.len() == 0
        &&& self.search.results@.len() == 0 && self.search.current_match_index is None
        &&& self.selection.marker_pos is None
        &&& !self.no_exit_on_save
        &&& self.mode == EditorMode::Normal
        &&& self.task.tasks@.len() == 0 && self.task.all_tasks@.len() == 0
        &&& self.task.selected_task_index is None
        &&& self.fuzzy_search.query@.len() == 0 && self.fuzzy_search.matches@.len() == 0
        &&& self.keymap.entries() == default_bindings()
    }

    /// An editor on `document`, with the cursor and the scroll position
    /// `(x, y, row offset, column offset)` restored from an earlier session,
    /// then moved to `line` and `column` if a line is given.
    pub fn new_with_restored(
        document: Option<Document>,
        restored: Option<(usize, usize, usize, usize)>,
        line: Option<usize>,
        column: Option<usize>,
    ) -> (e: Editor)
        ensures
            e.opened(document, restored, line, column),
    {
        let doc = match document {
            Some(d) => d,
            None => Document::default(),
        };
        let mut editor = Editor {
            should_quit: false,
            document: doc,
            cursor_x: 0,
            cursor_y: 0,
            desired_cursor_x: 0,
            status_message: String::new(),
            scroll: Scroll::new(),
            undo_redo: UndoRedo::new(),
            clipboard: ClipboardManager::new(),
            is_alt_pressed: false,
            search: Search::new(),
            selection: Selection::new(),
            no_exit_on_save: false,
            mode: EditorMode::Normal,
            task: Task::new(),
            fuzzy_search: FuzzySearch::new(),
            keymap: Keymap::default(),
        };
        if let Some((x, y, scroll_row, scroll_col)) = restored {
            editor.cursor_x = x;
            editor.cursor_y = y;
            if y < editor.document.lines.len() {
                editor.desired_cursor_x = editor.scroll.get_display_width(
                    editor.document.lines[y].as_str(),
                    x,
                );
            }
            editor.scroll = Scroll::new_with_offset(scroll_row, scroll_col);
        }
        if let Some(l) = line {
            let y = if l >= 1 {
                l - 1
            } else {
                0
            };
            let n = editor.document.lines.len();
            if y < n {
                editor.cursor_y = y;
                let col = match column {
                    Some(c) => if c >= 1 {
                        c - 1
                    } else {
                        0
                    },
                    None => 0,
                };
                let v = editor.document.line_chars(y);
                let x = if col < v.len() {
                    byte_offset_of(&v, col)
                } else {
                    proof {
                        assert(v@.take(v.len() as int) =~= v@);
                    }
                    byte_offset_of(&v, v.len())
                };
                editor.cursor_x = x;
                editor.desired_cursor_x = editor.scroll.get_display_width(
                    editor.document.lines[y].as_str(),
                    x,
                );
            } else if n > 0 {
                editor.cursor_y = n - 1;
                editor.cursor_x = str_byte_len(editor.document.lines[n - 1].as_str());
            }
        }
        editor
    }

    /// Finishes a save request once the document was written to its file,
    /// `saved` being what writing it gave.
    pub fn finish_save(&mut self, request: &Request, saved: crate::error::Result<()>) -> (r:
        crate::error::Result<()>)
        ensures
            final(self).inv() == old(self).inv(),
            save_finished(*old(self), *final(self), *request, saved, r),
    {
        match request {
            Request::Tweet(_) => Ok(()),
            Request::Save => match saved {
                Err(e) => Err(e),
                Ok(()) => {
                    self.record_save();
                    self.status_message = "File saved!".to_string();
                    Ok(())
                },
            },
            Request::SaveAndStay => {
                let r = self.save_document(saved);
                if r.is_ok() {
                    self.set_message("File saved. Editor will not exit.");
                }
                r
            },
            Request::SaveAndQuit => self.quit(saved),
        }
    }

    /// Records that the document was saved (`saved` being what writing it
    /// gave) and says so in the status; a failed write is reported.
    pub fn save_document(&mut self, saved: crate::error::Result<()>) -> (r: crate::error::Result<
        (),
    >)
        ensures
            final(self).inv() == old(self).inv(),
            r == saved,
            same_but_save(*old(self), *final(self)),
            final(self).should_quit == old(self).should_quit,
            !final(self).clipboard.last_action_was_kill,
            final(self).clipboard.kill_buffer == old(self).clipboard.kill_buffer,
            final(self).clipboard.clipboard_enabled == old(self).clipboard.clipboard_enabled,
            saved is Err ==> final(self).document == old(self).document
                && final(self).status_message == old(self).status_message,
            saved is Ok ==> final(self).status_message@ == "File saved successfully."@
                && final(self).document.saved_from(old(self).document),
    {
        self.clipboard.last_action_was_kill = false;
        if saved.is_err() {
            return saved;
        }
        self.record_save();
        self.status_message = "File saved successfully.".to_string();
        saved
    }

    /// Records that the document was saved (`saved` being what writing it
    /// gave), and makes the editor quit; a failed write is reported and the
    /// editor stays.
    pub fn quit(&mut self, saved: crate::error::Result<()>) -> (r: crate::error::Result<()>)
        ensures
            final(self).inv() == old(self).inv(),
            r == saved,
            same_but_save(*old(self), *final(self)),
            final(self).status_message == old(self).status_message,
            !final(self).clipboard.last_action_was_kill,
            final(self).clipboard.kill_buffer == old(self).clipboard.kill_buffer,
            final(self).clipboard.clipboard_enabled == old(self).clipboard.clipboard_enabled,
            saved is Err ==> final(self).document == old(self).document
                && final(self).should_quit == old(self).should_quit,
            saved is Ok ==> final(self).should_quit && final(self).document.saved_from(
                old(self).document,
            ),
    {
        self.clipboard.last_action_was_kill = false;
        if saved.is_err() {
            return saved;
        }
        self.record_save();
        self.should_quit = true;
        saved
    }

    /// Inserts the character `c` at the cursor, as typing it does.
    pub fn insert_char(&mut self, c: char) -> (r: crate::error::Result<()>)
        requires
            old(self).inv(),
            old(self).cursor_ok(),
            old(self).cursor_x + 7 <= usize::MAX,
        ensures
            insert_text_done(*old(self), *final(self), seq![c], r),
    {
        let s = string_of(&vec![c]);
        proof {
            reveal_with_fuel(byte_len, 2);
            assert(seq![c].drop_last() =~= Seq::<char>::empty());
            assert(s@ =~= seq![c]);
        }
        self.insert_text(s.as_str())
    }

    /// Records that the lines were written to the document's file, if it
    /// has one.
    fn record_save(&mut self)
        ensures
            final(self).document.saved_from(old(self).document),
            same_but_save(*old(self), *final(self)),
            final(self).status_message == old(self).status_message,
            final(self).should_quit == old(self).should_quit,
            final(self).clipboard == old(self).clipboard,
            final(self).inv() == old(self).inv(),
    {
        if self.document.filename.is_some() {
            self.document.mark_saved();
        }
    }

    /// Finishes a `/tweet` line once posting its message went as `outcome`
    /// says: the line is commented out and a new line follows, or the
    /// status shows the error.
    pub fn finish_tweet(&mut self, outcome: TweetOutcome)
        requires
            old(self).inv(),
            old(self).cursor_y < old(self).document.lines.len(),
        ensures
            exists|res: CommandResult|
                tweet_result(old(self).text()[old(self).cursor_y as int], outcome, res)
                    && #[trigger] apply_command_result_done(*old(self), *final(self), res, true),
    {
        let ghost before = *self;
        let line = self.document.lines[self.cursor_y].clone();
        let ghost line_view = self.text()[self.cursor_y as int];
        assert(line@ == line_view);
        let res = match outcome {
            TweetOutcome::Posted => {
                let r = tweet_posted(line.as_str());
                proof {
                    reveal_strlit("# ");
                    reveal_strlit("/tweet");
                    assert("# "@ =~= seq!['#', ' ']);
                    assert("/tweet"@ =~= seq!['/', 't', 'w', 'e', 'e', 't']);
                }
                r
            },
            TweetOutcome::Failed(err, out) => {
                let a = concat_strings("Tweet failed: ", err.as_str());
                let b = concat_strings(a.as_str(), " ");
                CommandResult::Error(concat_strings(b.as_str(), out.as_str()))
            },
            TweetOutcome::NotRun(why) => CommandResult::Error(
                concat_strings("Failed to execute xurl: ", why.as_str()),
            ),
        };
        let ghost res_view = res;
        let handled = self.apply_command_result(res);
        assert(tweet_result(line_view, outcome, res_view));
        assert(apply_command_result_done(before, *self, res_view, handled));
    }
    /// Reacts to the `count`-th Ctrl-C since the last key: the first asks
    /// for another (the caller clears that message after a while, when told
    /// so), the second makes the editor quit.
    pub fn handle_interrupt(&mut self, count: usize) -> (start_timer: bool)
        ensures
            start_timer == (count == 1),
            count == 1 ==> *final(self) == (Editor {
                status_message: final(self).status_message,
                ..*old(self)
            }) && final(self).status_message@ == "Press Ctrl+C again to quit."@,
            count >= 2 ==> *final(self) == (Editor { should_quit: true, ..*old(self) }),
            count == 0 ==> *final(self) == *old(self),
    {
        if count == 1 {
            self.status_message = "Press Ctrl+C again to quit.".to_string();
            true
        } else {
            if count >= 2 {
                self.should_quit = true;
            }
            false
        }
    }
}

} // verus!
