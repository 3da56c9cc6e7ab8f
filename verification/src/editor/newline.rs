//! Enter: list continuation, empty list items, and line commands.
use crate::document::{view_lines, ActionDiff, DiffView};
use crate::editor::command::{
    command_of, execute_command, parse_command, tweet_payload, tweet_payload_of, Command,
    CommandResult,
};
use crate::editor::state::{Editor, EditorMode, Request};
use crate::editor::task::tasks_after;
use crate::editor::undo::LastActionType;
use crate::lines::{has_prefix, has_prefix_at, leading_ws, leading_ws_count, lemma_leading_ws_facts,
    trim, trim_of, trim_start};
use crate::text::{
    byte_len, byte_offset_of, char_index_of, chars_byte_len, chars_eq, concat_chars, is_boundary,
    lemma_boundary, lemma_boundary_ends, lemma_char_index_unique, skip_bytes, string_of,
    string_of_range, take_bytes,
};
use vstd::prelude::*;

verus! {

pub open spec fn checked_item() -> Seq<char> {
    seq!['-', ' ', '[', 'x', ']', ' ']
}

pub open spec fn unchecked_item() -> Seq<char> {
    seq!['-', ' ', '[', ' ', ']', ' ']
}

pub open spec fn plain_item() -> Seq<char> {
    seq!['-', ' ']
}

/// After its indentation, the line is a list marker with nothing after it.
pub open spec fn empty_item(line: Seq<char>) -> bool {
    let c = line.skip(leading_ws(line));
    c == checked_item() || c == unchecked_item() || c == plain_item()
}

/// The line trims to `/task`.
pub open spec fn is_task_command(line: Seq<char>) -> bool {
    trim(line) == seq!['/', 't', 'a', 's', 'k']
}

/// What a new line starts with when Enter is pressed at byte offset `x` of
/// `line`: the indentation, and an unchecked box or a dash when the line is
/// a task or a list item and the cursor is past its marker.
pub open spec fn continuation(line: Seq<char>, x: int) -> Seq<char> {
    let ind = line.take(leading_ws(line));
    let tr = trim_start(line);
    let il = byte_len(ind) as int;
    if (has_prefix(tr, unchecked_item()) || has_prefix(tr, checked_item())) && x >= il + 6 {
        ind + unchecked_item()
    } else if has_prefix(tr, plain_item()) && x >= il + 2 {
        ind + plain_item()
    } else {
        ind
    }
}

/// Whether the line is an empty list item.
fn is_empty_item_line(v: &Vec<char>) -> (r: bool)
    ensures
        r == empty_item(v@),
{
    let k = leading_ws_count(v);
    let c = string_of_range(v, k, v.len());
    let cv = crate::text::chars_of(c.as_str());
    assert(cv@ =~= v@.skip(k as int));
    let a = vec!['-', ' ', '[', 'x', ']', ' '];
    let b = vec!['-', ' ', '[', ' ', ']', ' '];
    let p = vec!['-', ' '];
    assert(a@ =~= checked_item());
    assert(b@ =~= unchecked_item());
    assert(p@ =~= plain_item());
    chars_eq(&cv, &a) || chars_eq(&cv, &b) || chars_eq(&cv, &p)
}

/// What a new line starts with when Enter is pressed at `x`.
fn continuation_of(v: &Vec<char>, x: usize) -> (r: Vec<char>)
    requires
        byte_len(v@) + 6 <= usize::MAX,
    ensures
        r@ == continuation(v@, x as int),
        byte_len(r@) <= byte_len(v@) + 6,
{
    let k = leading_ws_count(v);
    proof {
        lemma_leading_ws_facts(v@);
        crate::text::lemma_byte_len_take_strict(v@, k as int, v.len() as int);
    }
    let il = byte_offset_of(v, k);
    let ind_str = string_of_range(v, 0, k);
    let ind = crate::text::chars_of(ind_str.as_str());
    assert(ind@ =~= v@.take(k as int));
    let tr = crate::lines::trim_start_of(v);
    let a = vec!['-', ' ', '[', 'x', ']', ' '];
    let b = vec!['-', ' ', '[', ' ', ']', ' '];
    let p = vec!['-', ' '];
    assert(a@ =~= checked_item());
    assert(b@ =~= unchecked_item());
    assert(p@ =~= plain_item());
    assert(tr@.skip(0) =~= tr@);
    proof {
        crate::text::lemma_byte_len_concat(ind@, b@);
        crate::text::lemma_byte_len_concat(ind@, p@);
        crate::text::lemma_byte_len_ascii(b@);
        crate::text::lemma_byte_len_ascii(p@);
    }
    if (has_prefix_at(&tr, 0, &b) || has_prefix_at(&tr, 0, &a)) && x >= il + 6 {
        concat_chars(&ind, &b)
    } else if has_prefix_at(&tr, 0, &p) && x >= il + 2 {
        concat_chars(&ind, &p)
    } else {
        ind
    }
}

impl Editor {
    /// Carries out what a line command gave, with the cursor on the command
    /// line: new content replaces the line and a new empty line follows,
    /// with the cursor on it; the status shows the command's message or its
    /// error. Returns whether the line held a command.
    pub fn apply_command_result(&mut self, result: CommandResult) -> (handled: bool)
        requires
            old(self).inv(),
            old(self).cursor_y < old(self).document.lines.len(),
        ensures
            apply_command_result_done(*old(self), *final(self), result, handled),
    {
        match result {
            CommandResult::Success { new_line_content, status_message } => {
                match new_line_content {
                    Some(new_content) => {
                        let y = self.cursor_y;
                        let x = self.cursor_x;
                        let ghost t = self.text();
                        let v = self.document.line_chars(y);
                        let len = chars_byte_len(&v);
                        proof {
                            lemma_boundary_ends(t[y as int]);
                            assert(v@.take(v.len() as int) =~= v@);
                            assert(v@.take(0) =~= Seq::<char>::empty());
                        }
                        let d1 = ActionDiff {
                            cursor_start_x: x,
                            cursor_start_y: y,
                            cursor_end_x: x,
                            cursor_end_y: y,
                            start_x: 0,
                            start_y: y,
                            end_x: len,
                            end_y: y,
                            new: Vec::new(),
                            old: vec![string_of(&v)],
                        };
                        proof {
                            assert(d1@.new =~= Seq::<Seq<char>>::empty());
                            assert(d1@.old =~= seq![t[y as int].subrange(0, t[y as int].len() as int)]);
                            crate::editor::state::lemma_line_deletion(d1@, t, y as int, 0, t[y as int].len() as int);
                            assert(t[y as int].take(0) + t[y as int].skip(t[y as int].len() as int) =~= Seq::<char>::empty());
                        }
                        self.commit(LastActionType::Other, &d1);
                        let ghost t1 = self.text();
                        assert(t1 == t.update(y as int, Seq::<char>::empty()));
                        let ghost c = new_content@;
                        let d2 = ActionDiff {
                            cursor_start_x: x,
                            cursor_start_y: y,
                            cursor_end_x: 0,
                            cursor_end_y: y + 1,
                            start_x: 0,
                            start_y: y,
                            end_x: 0,
                            end_y: y + 1,
                            new: vec![new_content, String::new()],
                            old: Vec::new(),
                        };
                        proof {
                            assert(d2@.new =~= seq![c, Seq::<char>::empty()]);
                            assert(d2@.old =~= Seq::<Seq<char>>::empty());
                            lemma_boundary_ends(t1[y as int]);
                            assert(byte_len(Seq::<char>::empty()) == 0);
                            assert(d2@.inserts_into(t1));
                            assert(d2@.new.subrange(1, 1) =~= Seq::<Seq<char>>::empty());
                            assert(Seq::<char>::empty() + c =~= c);
                            assert(d2@.apply_to(t1, false) =~= t.take(y as int) + seq![c, Seq::<char>::empty()] + t.skip(y + 1));
                        }
                        self.commit(LastActionType::Ammend, &d2);
                    },
                    None => {},
                }
                self.status_message = status_message;
                true
            },
            CommandResult::Error(message) => {
                self.status_message = message;
                true
            },
            CommandResult::NoCommand => false,
        }
    }

    /// Empties the cursor line as an edit of kind `kind`; the cursor goes
    /// to byte offset `cursor_end_x` of it.
    fn clear_cursor_line(&mut self, kind: LastActionType, cursor_end_x: usize)
        requires
            old(self).inv(),
            old(self).cursor_y < old(self).document.lines.len(),
        ensures
            final(self).inv(),
            final(self).text() == old(self).text().update(
                old(self).cursor_y as int,
                Seq::<char>::empty(),
            ),
            final(self).cursor_x == cursor_end_x,
            final(self).cursor_y == old(self).cursor_y,
            final(self).desired_at_cursor(),
            final(self).recorded_edit(old(self), kind),
            final(self).recorded_cursors(
                old(self),
                (old(self).cursor_x, old(self).cursor_y),
                (final(self).cursor_x, final(self).cursor_y),
            ),
            final(self).frame(old(self)),
            final(self).status_message == old(self).status_message,
            final(self).clipboard == old(self).clipboard,
    {
        let y = self.cursor_y;
        let x = self.cursor_x;
        let ghost t = self.text();
        let ghost line = t[y as int];
        let v = self.document.line_chars(y);
        let len = chars_byte_len(&v);
        proof {
            lemma_boundary_ends(line);
            assert(v@.take(v.len() as int) =~= v@);
            assert(v@.take(0) =~= Seq::<char>::empty());
        }
        let d = ActionDiff {
            cursor_start_x: x,
            cursor_start_y: y,
            cursor_end_x: cursor_end_x,
            cursor_end_y: y,
            start_x: 0,
            start_y: y,
            end_x: len,
            end_y: y,
            new: Vec::new(),
            old: vec![string_of(&v)],
        };
        proof {
            assert(d@.new =~= Seq::<Seq<char>>::empty());
            assert(d@.old =~= seq![line.subrange(0, line.len() as int)]);
            crate::editor::state::lemma_line_deletion(d@, t, y as int, 0, line.len() as int);
            assert(line.take(0) + line.skip(line.len() as int) =~= Seq::<char>::empty());
        }
        self.commit(kind, &d);
    }

    /// Breaks the line at the cursor; the new line starts with `prefix`,
    /// and the cursor goes after it.
    fn break_line(&mut self, prefix: &Vec<char>)
        requires
            old(self).inv(),
            old(self).cursor_ok(),
            byte_len(prefix@) <= usize::MAX,
        ensures
            final(self).inv(),
            ({
                let t = old(self).text();
                let y = old(self).cursor_y as int;
                let x = old(self).cursor_x as int;
                final(self).text() == t.take(y) + seq![take_bytes(t[y], x), prefix@ + skip_bytes(t[y], x)]
                    + t.skip(y + 1)
            }),
            final(self).cursor_x == byte_len(prefix@),
            final(self).cursor_y == old(self).cursor_y + 1,
            final(self).desired_at_cursor(),
            final(self).recorded_edit(old(self), LastActionType::Newline),
            final(self).recorded_cursors(
                old(self),
                (old(self).cursor_x, old(self).cursor_y),
                (final(self).cursor_x, final(self).cursor_y),
            ),
            final(self).frame(old(self)),
            final(self).status_message == old(self).status_message,
            final(self).clipboard == old(self).clipboard,
    {
        let y = self.cursor_y;
        let x = self.cursor_x;
        let ghost t = self.text();
        let ghost line = t[y as int];
        let plen = chars_byte_len(prefix);
        let ghost p = prefix@;
        let d = ActionDiff {
            cursor_start_x: x,
            cursor_start_y: y,
            cursor_end_x: plen,
            cursor_end_y: y + 1,
            start_x: x,
            start_y: y,
            end_x: plen,
            end_y: y + 1,
            new: vec![String::new(), string_of(prefix)],
            old: Vec::new(),
        };
        proof {
            lemma_boundary(line, x as int);
            assert(d@.new =~= seq![Seq::<char>::empty(), p]);
            assert(d@.old =~= Seq::<Seq<char>>::empty());
            assert(d@.inserts_into(t));
            assert(d@.new.subrange(1, 1) =~= Seq::<Seq<char>>::empty());
            assert(take_bytes(line, x as int) + Seq::<char>::empty() =~= take_bytes(line, x as int));
        }
        self.commit(LastActionType::Newline, &d);
    }

    /// Enter. At the end of an empty list item the marker is removed; at
    /// the end of a `/task` line, task selection starts and the line is
    /// emptied; at the end of a command line, the command runs (a `/tweet`
    /// is handed back to the caller); otherwise the line breaks at the
    /// cursor and the new line continues the indentation and the list.
    pub fn insert_newline(&mut self) -> (r: crate::error::Result<Option<Request>>)
        requires
            old(self).inv(),
            old(self).cursor_ok(),
            byte_len(old(self).text()[old(self).cursor_y as int]) + 6 <= usize::MAX,
        ensures
            insert_newline_done(*old(self), *final(self), r),
    {
        self.clipboard.last_action_was_kill = false;
        let y = self.cursor_y;
        let x = self.cursor_x;
        let ghost t = self.text();
        let ghost line = t[y as int];
        let v = self.document.line_chars(y);
        let len = chars_byte_len(&v);
        proof {
            lemma_boundary(line, x as int);
            lemma_boundary_ends(line);
            assert(v@.take(v.len() as int) =~= v@);
            assert(v@.take(0) =~= Seq::<char>::empty());
        }
        if x == len && is_empty_item_line(&v) {
            self.clear_cursor_line(LastActionType::Newline, 0);
            return Ok(None);
        }
        let t_chars = trim_of(&v);
        let task_word = vec!['/', 't', 'a', 's', 'k'];
        assert(task_word@ =~= seq!['/', 't', 'a', 's', 'k']);
        if x == len && chars_eq(&t_chars, &task_word) {
            self.mode = EditorMode::TaskSelection;
            self.find_unchecked_tasks();
            self.clear_cursor_line(LastActionType::Other, x);
            return Ok(None);
        }
        let prefix = continuation_of(&v, x);
        if x == len {
            let cmd = parse_command(&v);
            if cmd == Command::Tweet {
                let payload = tweet_payload_of(&v);
                return Ok(Some(Request::Tweet(payload)));
            }
            if cmd == Command::Today || cmd == Command::Now {
                let result = execute_command(self.document.lines[y].as_str());
                let _ = self.apply_command_result(result);
                return Ok(None);
            }
        }
        self.break_line(&prefix);
        Ok(None)
    }
}

/// What `Editor::insert_newline` does.
pub open spec fn insert_newline_done(before: Editor, after: Editor, r: crate::error::Result<Option<Request>>) -> bool {
    &&& after.inv()
    &&& ({
            let t = before.text();
            let y = before.cursor_y as int;
            let x = before.cursor_x as int;
            let line = t[y];
            let at_end = x == byte_len(line);
            if at_end && empty_item(line) {
                &&& r == Ok::<Option<Request>, crate::error::DmacsError>(None)
                &&& after.text() =~= t.update(y, Seq::<char>::empty())
                &&& after.cursor_x == 0
                &&& after.cursor_y == y
                &&& after.desired_at_cursor()
                &&& after.recorded_edit(&before, LastActionType::Newline)
                &&& after.recorded_cursors(
                    &before,
                    (before.cursor_x, before.cursor_y),
                    (after.cursor_x, after.cursor_y),
                )
                &&& after.mode == before.mode
                &&& after.task == before.task
                &&& after.status_message == before.status_message
            } else if at_end && is_task_command(line) {
                &&& r == Ok::<Option<Request>, crate::error::DmacsError>(None)
                &&& after.mode == EditorMode::TaskSelection
                &&& crate::editor::task::tasks_view(after.task.all_tasks@)
                    == tasks_after(t, y)
                &&& crate::editor::task::tasks_view(after.task.tasks@)
                    == tasks_after(t, y)
                &&& after.task.selected_task_index == if tasks_after(t, y).len() == 0 {
                    None
                } else {
                    Some(0usize)
                }
                &&& after.task.task_display_offset == 0
                &&& after.task.fuzzy_search.query@.len() == 0
                &&& after.status_message@ == if tasks_after(t, y).len() == 0 {
                    "No unchecked tasks found below current line."@
                } else {
                    "Found "@ + crate::text::decimal(tasks_after(t, y).len())
                        + " unchecked tasks. Use Up/Down to select, SPACE to move, ESC/ENTER to exit."@
                }
                &&& after.text() =~= t.update(y, Seq::<char>::empty())
                &&& after.cursor_x == x
                &&& after.cursor_y == y
                &&& after.recorded_edit(&before, LastActionType::Other)
                &&& after.recorded_cursors(
                    &before,
                    (before.cursor_x, before.cursor_y),
                    (after.cursor_x, after.cursor_y),
                )
            } else if at_end && (command_of(line) == Command::Today || command_of(line)
                == Command::Now) {
                &&& r == Ok::<Option<Request>, crate::error::DmacsError>(None)
                &&& after.text().len() == t.len() + 1
                &&& after.text().take(y) =~= t.take(y)
                &&& after.text()[y + 1] == Seq::<char>::empty()
                &&& after.text().skip(y + 2) =~= t.skip(y + 1)
                &&& if command_of(line) == Command::Today {
                    crate::editor::command::date_shaped(after.text()[y])
                } else {
                    crate::editor::command::date_time_shaped(after.text()[y])
                }
                &&& after.cursor_x == 0
                &&& after.cursor_y == y + 1
                &&& after.recorded_edit(&before, LastActionType::Other)
                &&& after.recorded_cursors(
                    &before,
                    (before.cursor_x, before.cursor_y),
                    (after.cursor_x, after.cursor_y),
                )
                &&& after.status_message@ == if command_of(line) == Command::Today {
                    crate::editor::command::today_word()
                } else {
                    crate::editor::command::now_word()
                }
                &&& after.mode == before.mode
            } else if at_end && command_of(line) == Command::Tweet {
                &&& r matches Ok(Some(Request::Tweet(p))) && p@ == tweet_payload(line)
                &&& after.document == before.document
                &&& after.undo_redo == before.undo_redo
                &&& after.cursor_x == before.cursor_x
                &&& after.cursor_y == before.cursor_y
                &&& after.mode == before.mode
                &&& after.status_message == before.status_message
            } else {
                let p = continuation(line, x);
                &&& r == Ok::<Option<Request>, crate::error::DmacsError>(None)
                &&& after.text() =~= t.take(y) + seq![take_bytes(line, x), p + skip_bytes(line, x)]
                    + t.skip(y + 1)
                &&& after.cursor_x == byte_len(p)
                &&& after.cursor_y == y + 1
                &&& after.desired_at_cursor()
                &&& after.recorded_edit(&before, LastActionType::Newline)
                &&& after.recorded_cursors(
                    &before,
                    (before.cursor_x, before.cursor_y),
                    (after.cursor_x, after.cursor_y),
                )
                &&& after.mode == before.mode
                &&& after.status_message == before.status_message
            }
        })
    &&& !after.clipboard.last_action_was_kill
    &&& after.clipboard.kill_buffer == before.clipboard.kill_buffer
    &&& after.clipboard.clipboard_enabled == before.clipboard.clipboard_enabled
    &&& after.selection == before.selection
    &&& after.search == before.search
    &&& after.scroll == before.scroll
    &&& after.keymap == before.keymap
    &&& after.should_quit == before.should_quit
    &&& after.document.filename == before.document.filename
    &&& after.document.original() == before.document.original()
}

/// What `Editor::apply_command_result` does.
pub open spec fn apply_command_result_done(before: Editor, after: Editor, result: CommandResult, handled: bool) -> bool {
    &&& after.inv()
    &&& handled == !(result is NoCommand)
    &&& match result {
            CommandResult::Success { new_line_content: Some(c), status_message } => {
                let t = before.text();
                let y = before.cursor_y as int;
                &&& after.text() == t.take(y) + seq![c@, Seq::<char>::empty()] + t.skip(
                    y + 1,
                )
                &&& after.cursor_x == 0
                &&& after.cursor_y == y + 1
                &&& after.desired_at_cursor()
                &&& after.recorded_edit(&before, LastActionType::Other)
                &&& after.recorded_cursors(
                    &before,
                    (before.cursor_x, before.cursor_y),
                    (after.cursor_x, after.cursor_y),
                )
                &&& after.status_message == status_message
            },
            CommandResult::Success { new_line_content: None, status_message } => {
                &&& after.document == before.document
                &&& after.undo_redo == before.undo_redo
                &&& after.cursor_x == before.cursor_x
                &&& after.cursor_y == before.cursor_y
                &&& after.status_message == status_message
            },
            CommandResult::Error(m) => {
                &&& after.document == before.document
                &&& after.undo_redo == before.undo_redo
                &&& after.cursor_x == before.cursor_x
                &&& after.cursor_y == before.cursor_y
                &&& after.status_message == m
            },
            CommandResult::NoCommand => {
                &&& after.document == before.document
                &&& after.undo_redo == before.undo_redo
                &&& after.cursor_x == before.cursor_x
                &&& after.cursor_y == before.cursor_y
                &&& after.status_message == before.status_message
            },
        }
    &&& after.frame(&before)
    &&& after.clipboard == before.clipboard
}

proof fn lemma_indented_split(w: Seq<char>, rest: Seq<char>)
    requires
        crate::lines::all_ws(w),
        rest.len() > 0,
        !crate::lines::is_ws(rest[0]),
    ensures
        leading_ws(w + rest) == w.len(),
        (w + rest).take(leading_ws(w + rest)) == w,
        trim_start(w + rest) == rest,
{
    let s = w + rest;
    assert(crate::lines::is_ws_run(s, w.len() as int)) by {
        assert forall|j: int| 0 <= j < w.len() implies crate::lines::is_ws(#[trigger] s[j]) by {
            assert(s[j] == w[j]);
        }
        assert(s[w.len() as int] == rest[0]);
    }
    crate::lines::lemma_leading_ws(s, w.len() as int);
    assert(s.take(w.len() as int) =~= w);
    assert(s.skip(w.len() as int) =~= rest);
}

/// Enter past the box of a task line (`- [ ] ` or `- [x] ` after the
/// indentation `w`) starts the new line with `w` and an unchecked box.
pub proof fn law_enter_continues_a_task(w: Seq<char>, marker: Seq<char>, rest: Seq<char>, x: int)
    requires
        crate::lines::all_ws(w),
        marker == seq!['-', ' ', '[', ' ', ']', ' '] || marker == seq!['-', ' ', '[', 'x', ']', ' '],
        x >= byte_len(w) + 6,
    ensures
        continuation(w + marker + rest, x) == w + seq!['-', ' ', '[', ' ', ']', ' '],
{
    assert(w + marker + rest == w + (marker + rest));
    lemma_indented_split(w, marker + rest);
    assert((marker + rest).take(6) =~= marker);
}

/// Enter past the dash of a list item (`- ` after the indentation `w`, not
/// a task) starts the new line with `w` and a dash.
pub proof fn law_enter_continues_a_list(w: Seq<char>, rest: Seq<char>, x: int)
    requires
        crate::lines::all_ws(w),
        !(rest.len() >= 4 && rest[0] == '[' && (rest[1] == ' ' || rest[1] == 'x') && rest[2]
            == ']' && rest[3] == ' '),
        x >= byte_len(w) + 2,
    ensures
        continuation(w + seq!['-', ' '] + rest, x) == w + seq!['-', ' '],
{
    let m = seq!['-', ' '] + rest;
    assert(w + seq!['-', ' '] + rest == w + m);
    lemma_indented_split(w, m);
    assert(m.take(2) =~= seq!['-', ' ']);
    if has_prefix(m, unchecked_item()) {
        assert(m[2] == '[' && m[3] == ' ' && m[4] == ']' && m[5] == ' ');
        assert(rest[0] == m[2] && rest[1] == m[3] && rest[2] == m[4] && rest[3] == m[5]);
    }
    if has_prefix(m, checked_item()) {
        assert(m[2] == '[' && m[3] == 'x' && m[4] == ']' && m[5] == ' ');
        assert(rest[0] == m[2] && rest[1] == m[3] && rest[2] == m[4] && rest[3] == m[5]);
    }
}

/// Enter on a line that is no list item (after its indentation `w` comes
/// something other than whitespace or a dash), or before the end of the
/// dash and space of a list item, starts the new line with the indentation
/// alone.
pub proof fn law_enter_keeps_the_indentation(w: Seq<char>, rest: Seq<char>, x: int)
    requires
        crate::lines::all_ws(w),
        rest.len() > 0,
        !crate::lines::is_ws(rest[0]),
        rest[0] != '-' || x < byte_len(w) + 2,
    ensures
        continuation(w + rest, x) == w,
{
    lemma_indented_split(w, rest);
}

} // verus!
