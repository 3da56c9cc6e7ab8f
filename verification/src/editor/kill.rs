//! Killing, yanking, and cutting or copying the selection.
use crate::document::{spec_delete, spec_insert, insertion_end, view_lines, ActionDiff, DiffView};
use crate::editor::selection::{ordered_range, range_in, range_text};
use crate::editor::state::{join_with_next, Editor};
use crate::editor::undo::LastActionType;
use crate::lines::{split_on_newline, split_sep};
use crate::text::{
    byte_len, char_index_of, chars_byte_len, concat_strings, is_boundary, lemma_boundary,
    lemma_boundary_ends, skip_bytes, str_byte_len, string_of_range, take_bytes,
};
use vstd::prelude::*;

verus! {

broadcast use vstd::string::group_string_axioms;

impl Editor {
    /// Puts `text` on the system clipboard; a failure shows in the status
    /// message.
    fn set_clipboard(&mut self, text: &str)
        ensures
            final(self).clipboard == old(self).clipboard,
            final(self).document == old(self).document,
            final(self).undo_redo == old(self).undo_redo,
            final(self).cursor_x == old(self).cursor_x,
            final(self).cursor_y == old(self).cursor_y,
            final(self).desired_cursor_x == old(self).desired_cursor_x,
            final(self).frame(old(self)),
            !old(self).clipboard.clipboard_enabled ==> final(self).status_message == old(
                self,
            ).status_message,
            *final(self) == (Editor { status_message: final(self).status_message, ..*old(self) }),
            final(self).status_message == old(self).status_message || exists|m: Seq<char>|
                final(self).status_message@ == #[trigger] ("Failed to set clipboard: "@ + m),
    {
        match self.clipboard.set_system_clipboard(text) {
            Ok(()) => {},
            Err(e) => {
                self.status_message = concat_strings("Failed to set clipboard: ", e.as_str());
                assert(self.status_message@ == "Failed to set clipboard: "@ + e@);
            },
        }
    }

    /// Kills from the cursor to the end of the line, or the line break at
    /// the end of a line, adding what goes to the kill buffer (which starts
    /// afresh unless the last command killed too).
    pub fn kill_line(&mut self) -> (r: crate::error::Result<()>)
        requires
            old(self).inv(),
            old(self).document.lines.len() > 0,
            old(self).cursor_y < old(self).document.lines.len() ==> old(self).cursor_ok(),
        ensures
            kill_line_done(*old(self), *final(self), r),
    {
        let y = self.cursor_y;
        let x = self.cursor_x;
        if y >= self.document.lines.len() {
            return Ok(());
        }
        if !self.clipboard.last_action_was_kill {
            self.clipboard.kill_buffer = String::new();
        }
        let ghost t = self.text();
        let ghost line = t[y as int];
        let v = self.document.line_chars(y);
        let len = chars_byte_len(&v);
        if x < len {
            let k = char_index_of(&v, x).unwrap();
            proof {
                lemma_boundary(line, x as int);
                lemma_boundary_ends(line);
                assert(v@.take(v.len() as int) =~= v@);
            }
            let killed = string_of_range(&v, k, v.len());
            assert(killed@ =~= skip_bytes(line, x as int));
            self.clipboard.kill_buffer = concat_strings(
                self.clipboard.kill_buffer.as_str(),
                killed.as_str(),
            );
            let d = ActionDiff {
                cursor_start_x: len,
                cursor_start_y: y,
                cursor_end_x: x,
                cursor_end_y: y,
                start_x: x,
                start_y: y,
                end_x: len,
                end_y: y,
                new: Vec::new(),
                old: vec![killed],
            };
            proof {
                assert(d@.new =~= Seq::<Seq<char>>::empty());
                assert(d@.old =~= seq![line.subrange(k as int, line.len() as int)]);
                crate::editor::state::lemma_line_deletion(d@, t, y as int, k as int, line.len() as int);
                assert(line.skip(line.len() as int) =~= Seq::<char>::empty());
                assert(line.take(k as int) + Seq::<char>::empty() =~= take_bytes(line, x as int));
            }
            self.commit(LastActionType::Deletion, &d);
        } else {
            let _ = self.delete_forward_char();
            crate::text::push_char(&mut self.clipboard.kill_buffer, '\n');
        }
        let text = self.clipboard.kill_buffer.clone();
        self.set_clipboard(text.as_str());
        self.clipboard.last_action_was_kill = true;
        Ok(())
    }

    /// Inserts the kill buffer at the cursor (first refreshed from the
    /// system clipboard when that can be read), line by line, and puts the
    /// cursor at the end of the inserted text.
    pub fn yank(&mut self) -> (r: crate::error::Result<()>)
        requires
            old(self).inv(),
            old(self).cursor_ok(),
        ensures
            yank_done(*old(self), *final(self), r),
    {
        let text_to_yank = self.clipboard.get_yank_text();
        let y = self.cursor_y;
        let x = self.cursor_x;
        let ghost t = self.text();
        let ghost line = t[y as int];
        if str_byte_len(text_to_yank.as_str()) == 0 {
            proof {
                crate::text::lemma_byte_len_bounds(text_to_yank@);
            }
            self.status_message = "Kill buffer is empty.".to_string();
            return Ok(());
        }
        let yank_lines = split_on_newline(text_to_yank.as_str());
        let line_count = yank_lines.len();
        let last_len = str_byte_len(yank_lines[line_count - 1].as_str());
        let ghost pieces = view_lines(yank_lines@);
        assert(pieces.last() == yank_lines@[line_count - 1]@);
        let (end_x, end_y) = if line_count >= 2 {
            if y > usize::MAX - (line_count - 1) {
                self.status_message = "Kill buffer is too large to yank.".to_string();
                return Ok(());
            }
            (last_len, y + (line_count - 1))
        } else {
            if x > usize::MAX - last_len {
                self.status_message = "Kill buffer is too large to yank.".to_string();
                return Ok(());
            }
            (x + last_len, y)
        };
        let d = ActionDiff {
            cursor_start_x: x,
            cursor_start_y: y,
            cursor_end_x: end_x,
            cursor_end_y: end_y,
            start_x: x,
            start_y: y,
            end_x: end_x,
            end_y: end_y,
            new: yank_lines,
            old: Vec::new(),
        };
        proof {
            assert(d@.old =~= Seq::<Seq<char>>::empty());
            assert(d@.new == pieces);
            assert(d@.inserts_into(t));
            crate::document::lemma_apply_len(d@, t);
        }
        self.commit(LastActionType::Insertion, &d);
        self.clipboard.last_action_was_kill = false;
        Ok(())
    }

    /// Turns the use of the system clipboard on or off.
    pub fn _set_clipboard_enabled_for_test(&mut self, enabled: bool)
        ensures
            final(self).clipboard.clipboard_enabled == enabled,
            final(self).clipboard.kill_buffer == old(self).clipboard.kill_buffer,
            final(self).clipboard.last_action_was_kill == old(self).clipboard.last_action_was_kill,
            same_but_clipboard(*old(self), *final(self)),
    {
        self.clipboard._set_clipboard_enabled_for_test(enabled);
    }

    /// Sets the marker at the cursor.
    pub fn set_marker_action(&mut self)
        ensures
            set_marker_action_done(*old(self), *final(self)),
    {
        let pos = self.cursor_pos();
        self.selection.set_marker(pos);
        self.status_message = "Marker set.".to_string();
    }

    /// Clears the marker.
    pub fn clear_marker_action(&mut self)
        ensures
            clear_marker_action_done(*old(self), *final(self)),
    {
        self.selection.clear_marker();
        self.status_message = "Marker cleared.".to_string();
    }

    /// Cuts the text between the marker and the cursor into the kill
    /// buffer; the cursor goes to where the text was.
    pub fn cut_selection_action(&mut self) -> (r: crate::error::Result<()>)
        requires
            old(self).inv(),
            old(self).selection.marker_pos matches Some(m) ==> ({
                let (s, e) = ordered_range(m, (old(self).cursor_x, old(self).cursor_y));
                range_in(old(self).text(), s, e)
            }),
        ensures
            cut_selection_action_done(*old(self), *final(self), r),
    {
        let cursor_pos = self.cursor_pos();
        let ghost t = self.text();
        let (killed_text, action_diff_option) = match self.selection.cut_selection_edit(
            &self.document,
            cursor_pos,
        ) {
            Ok(p) => p,
            Err(e) => {
                return Err(e);
            },
        };
        match action_diff_option {
            Some(action_diff) => {
                proof {
                    let (s, e) = ordered_range(old(self).selection.marker_pos->Some_0, cursor_pos);
                    assert(action_diff@.deletes_from(t));
                    crate::document::lemma_apply_len(action_diff@, t);
                }
                self.commit(LastActionType::Deletion, &action_diff);
            },
            None => {},
        }
        self.clipboard.kill_buffer = killed_text;
        let text = self.clipboard.kill_buffer.clone();
        self.set_clipboard(text.as_str());
        self.status_message = "Selection cut to clipboard.".to_string();
        Ok(())
    }

    /// Copies the text between the marker and the cursor into the kill
    /// buffer.
    pub fn copy_selection_action(&mut self) -> (r: crate::error::Result<()>)
        requires
            old(self).selection.marker_pos matches Some(m) ==> ({
                let (s, e) = ordered_range(m, (old(self).cursor_x, old(self).cursor_y));
                range_in(old(self).text(), s, e)
            }),
        ensures
            copy_selection_action_done(*old(self), *final(self), r),
    {
        let cursor_pos = self.cursor_pos();
        let copied = match self.selection.copy_selection(&self.document, cursor_pos) {
            Ok(c) => c,
            Err(e) => {
                return Err(e);
            },
        };
        self.clipboard.kill_buffer = copied;
        let text = self.clipboard.kill_buffer.clone();
        self.set_clipboard(text.as_str());
        self.status_message = "Selection copied to clipboard.".to_string();
        Ok(())
    }
}

/// What `Editor::kill_line` does.
pub open spec fn kill_line_done(before: Editor, after: Editor, r: crate::error::Result<()>) -> bool {
    &&& r is Ok
    &&& after.inv()
    &&& ({
            let t = before.text();
            let y = before.cursor_y as int;
            let x = before.cursor_x as int;
            let kb0 = if before.clipboard.last_action_was_kill {
                before.clipboard.kill_buffer@
            } else {
                Seq::<char>::empty()
            };
            if y >= t.len() {
                &&& after.document == before.document
                &&& after.undo_redo == before.undo_redo
                &&& after.clipboard == before.clipboard
                &&& after.status_message == before.status_message
            } else {
                let line = t[y];
                &&& after.clipboard.last_action_was_kill
                &&& after.clipboard.clipboard_enabled == before.clipboard.clipboard_enabled
                &&& !before.clipboard.clipboard_enabled ==> after.status_message
                    == before.status_message
                &&& if x < byte_len(line) {
                    &&& after.text() =~= t.update(y, take_bytes(line, x))
                    &&& after.clipboard.kill_buffer@ == kb0 + skip_bytes(line, x)
                    &&& after.recorded_edit(&before, LastActionType::Deletion)
                    &&& after.recorded_cursors(
                        &before,
                        (byte_len(line) as usize, before.cursor_y),
                        (after.cursor_x, after.cursor_y),
                    )
                    &&& after.desired_at_cursor()
                } else if y + 1 < t.len() {
                    &&& after.text() =~= join_with_next(t, y)
                    &&& after.clipboard.kill_buffer@ == kb0.push('\n')
                    &&& after.recorded_edit(&before, LastActionType::Deletion)
                    &&& after.recorded_cursors(
                        &before,
                        (before.cursor_x, before.cursor_y),
                        (after.cursor_x, after.cursor_y),
                    )
                    &&& after.desired_at_cursor()
                } else {
                    &&& after.document.lines == before.document.lines
                    &&& after.undo_redo == before.undo_redo
                    &&& after.clipboard.kill_buffer@ == kb0.push('\n')
                }
            }
        })
    &&& after.cursor_x == before.cursor_x
    &&& after.cursor_y == before.cursor_y
    &&& after.frame(&before)
}

/// What `Editor::yank` does.
pub open spec fn yank_done(before: Editor, after: Editor, r: crate::error::Result<()>) -> bool {
    &&& r is Ok
    &&& after.inv()
    &&& ({
            let t = before.text();
            let y = before.cursor_y as int;
            let x = before.cursor_x as int;
            let kb = after.clipboard.kill_buffer@;
            let pieces = split_sep(kb);
            let fits = if pieces.len() == 1 {
                x + byte_len(pieces[0]) <= usize::MAX
            } else {
                y + pieces.len() - 1 <= usize::MAX
            };
            &&& !before.clipboard.clipboard_enabled ==> kb == before.clipboard.kill_buffer@
            &&& if kb.len() > 0 && fits {
                &&& after.text() =~= spec_insert(t, x, y, pieces)
                &&& (after.cursor_x as int, after.cursor_y as int) == insertion_end(
                    x,
                    y,
                    pieces,
                )
                &&& after.desired_at_cursor()
                &&& after.recorded_edit(&before, LastActionType::Insertion)
                &&& after.recorded_cursors(
                    &before,
                    (before.cursor_x, before.cursor_y),
                    (after.cursor_x, after.cursor_y),
                )
                &&& !after.clipboard.last_action_was_kill
                &&& after.status_message == before.status_message
            } else {
                &&& after.document == before.document
                &&& after.undo_redo == before.undo_redo
                &&& after.cursor_x == before.cursor_x
                &&& after.cursor_y == before.cursor_y
                &&& kb.len() == 0 ==> after.status_message@ == "Kill buffer is empty."@
            }
        })
    &&& after.clipboard.clipboard_enabled == before.clipboard.clipboard_enabled
    &&& after.frame(&before)
}

/// What `Editor::set_marker_action` does.
pub open spec fn set_marker_action_done(before: Editor, after: Editor) -> bool {
    &&& after.selection.marker_pos == Some((before.cursor_x, before.cursor_y))
    &&& after.status_message@ == "Marker set."@
    &&& after.document == before.document
    &&& after.undo_redo == before.undo_redo
    &&& after.cursor_x == before.cursor_x
    &&& after.cursor_y == before.cursor_y
    &&& after.clipboard == before.clipboard
}

/// What `Editor::clear_marker_action` does.
pub open spec fn clear_marker_action_done(before: Editor, after: Editor) -> bool {
    &&& after.selection.marker_pos is None
    &&& after.status_message@ == "Marker cleared."@
    &&& after.document == before.document
    &&& after.undo_redo == before.undo_redo
    &&& after.cursor_x == before.cursor_x
    &&& after.cursor_y == before.cursor_y
    &&& after.clipboard == before.clipboard
}

/// What `Editor::cut_selection_action` does.
pub open spec fn cut_selection_action_done(before: Editor, after: Editor, r: crate::error::Result<()>) -> bool {
    &&& r is Ok
    &&& after.inv()
    &&& after.selection.marker_pos is None
    &&& match before.selection.marker_pos {
            Some(m) => {
                let (s, e) = ordered_range(m, (before.cursor_x, before.cursor_y));
                &&& after.text() =~= spec_delete(
                    before.text(),
                    s.0 as int,
                    s.1 as int,
                    e.0 as int,
                    e.1 as int,
                )
                &&& after.cursor_x == s.0
                &&& after.cursor_y == s.1
                &&& after.desired_at_cursor()
                &&& after.recorded_edit(&before, LastActionType::Deletion)
                &&& after.recorded_cursors(
                    &before,
                    (before.cursor_x, before.cursor_y),
                    (after.cursor_x, after.cursor_y),
                )
                &&& after.clipboard.kill_buffer@ == range_text(before.text(), s, e)
            },
            None => {
                &&& after.document == before.document
                &&& after.undo_redo == before.undo_redo
                &&& after.cursor_x == before.cursor_x
                &&& after.cursor_y == before.cursor_y
                &&& after.clipboard.kill_buffer@ == Seq::<char>::empty()
            },
        }
    &&& after.status_message@ == "Selection cut to clipboard."@
    &&& after.clipboard.clipboard_enabled == before.clipboard.clipboard_enabled
    &&& after.clipboard.last_action_was_kill == before.clipboard.last_action_was_kill
}

/// What `Editor::copy_selection_action` does.
pub open spec fn copy_selection_action_done(before: Editor, after: Editor, r: crate::error::Result<()>) -> bool {
    &&& r is Ok
    &&& after.selection.marker_pos is None
    &&& after.clipboard.kill_buffer@ == match before.selection.marker_pos {
            Some(m) => {
                let (s, e) = ordered_range(m, (before.cursor_x, before.cursor_y));
                range_text(before.text(), s, e)
            },
            None => Seq::<char>::empty(),
        }
    &&& after.status_message@ == "Selection copied to clipboard."@
    &&& after.document == before.document
    &&& after.undo_redo == before.undo_redo
    &&& after.cursor_x == before.cursor_x
    &&& after.cursor_y == before.cursor_y
    &&& after.clipboard.clipboard_enabled == before.clipboard.clipboard_enabled
    &&& after.clipboard.last_action_was_kill == before.clipboard.last_action_was_kill
}

/// `b` is `a` with at most the clipboard changed.
pub open spec fn same_but_clipboard(a: Editor, b: Editor) -> bool {
    b == (Editor { clipboard: b.clipboard, ..a })
}

} // verus!
