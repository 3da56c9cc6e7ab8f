//! What the editing commands promise together: what undo gives back, and
//! which commands take each other back.
use crate::editor::comment::{
    comment_line, is_commented, toggle_comment_done, uncomment_line,
};
use crate::editor::kill::{kill_line_done, yank_done};
use crate::editor::indent::{indent_line_done, indent_text, outdent_line_done, outdent_text};
use crate::editor::movement::{move_line_down_done, move_line_up_done, swap_lines};
use crate::editor::state::{insert_text_done, redo_done, undo_done, Editor};
use crate::editor::undo::LastActionType;
use crate::lines::{
    all_ws, has_prefix, leading_ws, lemma_leading_ws_facts, lemma_trim_empty, split_sep, trim_start,
};
use crate::text::{byte_len, lemma_boundary, lemma_boundary_ends, skip_bytes, take_bytes};
use vstd::prelude::*;

verus! {

/// An edit of kind `kind` made on `before` begins a new undo group,
/// whenever it is made: nothing was recorded before, it toggles a checkbox,
/// or it is of another kind than the last edit.
pub open spec fn begins_group(before: Editor, kind: LastActionType) -> bool {
    ||| !before.undo_redo.has_previous_action()
    ||| kind == LastActionType::ToggleCheckbox
    ||| (kind != LastActionType::Ammend && kind != before.undo_redo.last_type())
}

/// Undoing right after an edit that began a new undo group gives back the
/// text from before the edit, and the cursor that the edit recorded for
/// undo.
pub proof fn law_undo_restores_text(
    before: Editor,
    edited: Editor,
    kind: LastActionType,
    start: (usize, usize),
    end: (usize, usize),
    undone: Editor,
)
    requires
        edited.recorded_edit(&before, kind),
        edited.recorded_cursors(&before, start, end),
        begins_group(before, kind),
        undo_done(edited, undone),
    ensures
        undone.text() == before.text(),
        (undone.cursor_x, undone.cursor_y) == start,
{
}

/// Typing text and undoing it gives back the text and the cursor, unless
/// the typing was joined to earlier typing.
pub proof fn law_undo_typing(
    before: Editor,
    typed: Editor,
    text: Seq<char>,
    r: crate::error::Result<()>,
    undone: Editor,
)
    requires
        insert_text_done(before, typed, text, r),
        begins_group(before, LastActionType::Insertion),
        undo_done(typed, undone),
    ensures
        undone.text() == before.text(),
        (undone.cursor_x, undone.cursor_y) == (before.cursor_x, before.cursor_y),
{
}

/// Redoing right after an undo gives back the text from before the undo,
/// when the redo history leads on from the document.
pub proof fn law_redo_after_undo(before: Editor, undone: Editor, redone: Editor)
    requires
        before.undo_redo.undo_depth() > 0,
        before.undo_redo.redo_ready(),
        undo_done(before, undone),
        redo_done(undone, redone),
    ensures
        redone.text() == before.text(),
{
}

/// Undoing a group of edits, redoing it and undoing it again gives the same
/// text both times and puts the cursor at the same place both times:
/// where it was before the first edit of the group. The redo puts it where
/// the last edit of the group left it.
pub proof fn law_undo_after_redo_repeats(
    before: Editor,
    undone: Editor,
    redone: Editor,
    undone_again: Editor,
)
    requires
        before.undo_redo.undo_depth() > 0,
        before.undo_redo.redo_ready(),
        undo_done(before, undone),
        redo_done(undone, redone),
        undo_done(redone, undone_again),
    ensures
        redone.text() == before.text(),
        undone_again.text() == undone.text(),
        (undone.cursor_x, undone.cursor_y) == before.undo_redo.undo_cursor(),
        (undone_again.cursor_x, undone_again.cursor_y) == (undone.cursor_x, undone.cursor_y),
        (redone.cursor_x, redone.cursor_y) == undone.undo_redo.redo_cursor(),
{
}

/// Undoing and then redoing an edit that began a new undo group gives back
/// the edited text, and the cursors that the edit recorded: the one before
/// it after the undo, the one after it after the redo.
pub proof fn law_redo_restores_edit(
    before: Editor,
    edited: Editor,
    kind: LastActionType,
    start: (usize, usize),
    end: (usize, usize),
    undone: Editor,
    redone: Editor,
)
    requires
        edited.recorded_edit(&before, kind),
        edited.recorded_cursors(&before, start, end),
        begins_group(before, kind),
        undo_done(edited, undone),
        redo_done(undone, redone),
    ensures
        undone.text() == before.text(),
        (undone.cursor_x, undone.cursor_y) == start,
        redone.text() == edited.text(),
        (redone.cursor_x, redone.cursor_y) == end,
{
}

/// Outdenting a line right after indenting it gives back the text and the
/// cursor.
pub proof fn law_outdent_undoes_indent(
    before: Editor,
    indented: Editor,
    r1: crate::error::Result<()>,
    outdented: Editor,
    r2: crate::error::Result<()>,
)
    requires
        before.selection.marker_pos is None,
        before.cursor_y < before.text().len(),
        indent_line_done(before, indented, r1),
        outdent_line_done(indented, outdented, r2),
    ensures
        outdented.text() == before.text(),
        outdented.cursor_x == before.cursor_x,
        outdented.cursor_y == before.cursor_y,
{
    let t = before.text();
    let y = before.cursor_y as int;
    let l = indent_text(t[y]);
    assert(has_prefix(l, seq![' ', ' '])) by {
        assert(l.take(2) =~= seq![' ', ' ']);
    }
    assert(outdent_text(l) =~= t[y]);
    assert(t.update(y, indent_text(t[y])).update(y, t[y]) =~= t);
}

/// Commenting out a line and uncommenting it give back the line.
pub proof fn law_uncomment_undoes_comment(line: Seq<char>)
    ensures
        is_commented(comment_line(line)),
        uncomment_line(comment_line(line)) == line,
{
    let w = leading_ws(line);
    let c = comment_line(line);
    lemma_leading_ws_facts(line);
    lemma_leading_ws_facts(c);
    assert(c.take(w) =~= line.take(w));
    assert(c[w] == '#');
    crate::lines::lemma_leading_ws(c, w);
    assert(trim_start(c) =~= seq!['#', ' '] + line.skip(w));
    assert(trim_start(c).take(2) =~= seq!['#', ' ']);
    assert(c.take(leading_ws(c)) + trim_start(c).skip(2) =~= line);
}

/// Toggling the comment of a line that is not commented, twice, gives back
/// the text.
pub proof fn law_comment_toggle_twice(
    before: Editor,
    once: Editor,
    r1: crate::error::Result<()>,
    twice: Editor,
    r2: crate::error::Result<()>,
)
    requires
        before.selection.marker_pos is None,
        before.cursor_y < before.text().len(),
        before.text()[before.cursor_y as int].len() > 0,
        !is_commented(before.text()[before.cursor_y as int]),
        toggle_comment_done(before, once, r1),
        toggle_comment_done(once, twice, r2),
    ensures
        twice.text() == before.text(),
{
    let t = before.text();
    let y = before.cursor_y as int;
    law_uncomment_undoes_comment(t[y]);
    assert(comment_line(t[y]).len() > 0) by {
        lemma_leading_ws_facts(t[y]);
    }
    assert(t.update(y, comment_line(t[y])).update(y, t[y]) =~= t);
}

/// Moving a line down right after moving it up gives back the text and
/// the cursor.
pub proof fn law_move_line_down_undoes_up(before: Editor, up: Editor, down: Editor)
    requires
        0 < before.cursor_y < before.document.lines.len(),
        before.document.lines.len() == before.text().len(),
        move_line_up_done(before, up),
        move_line_down_done(up, down),
    ensures
        down.text() == before.text(),
        down.cursor_x == before.cursor_x,
        down.cursor_y == before.cursor_y,
{
    let t = before.text();
    let y = before.cursor_y - 1;
    assert(swap_lines(swap_lines(t, y), y) =~= t);
}

/// A text without `'\n'` is one piece when split at `'\n'`.
pub proof fn lemma_split_single(s: Seq<char>)
    requires
        !s.contains('\n'),
    ensures
        split_sep(s) == seq![s],
    decreases s.len(),
{
    if s.len() > 0 {
        assert(!s.drop_last().contains('\n')) by {
            if s.drop_last().contains('\n') {
                let k = choose|k: int| 0 <= k < s.drop_last().len() && s.drop_last()[k] == '\n';
                assert(s[k] == '\n');
            }
        }
        lemma_split_single(s.drop_last());
        assert(s[s.len() - 1] == s.last());
        assert(s.drop_last().push(s.last()) =~= s);
        assert(seq![s.drop_last()].update(0, s.drop_last().push(s.last())) =~= seq![s]);
    } else {
        assert(s =~= Seq::<char>::empty());
    }
}

/// Killing the rest of a line and yanking it back at once gives back the
/// text, when the kill starts a new kill buffer, the system clipboard is
/// not in use, and the line holds no `'\n'`.
pub proof fn law_yank_undoes_kill(
    before: Editor,
    killed: Editor,
    r1: crate::error::Result<()>,
    yanked: Editor,
    r2: crate::error::Result<()>,
)
    requires
        before.cursor_ok(),
        before.cursor_x < byte_len(before.text()[before.cursor_y as int]),
        byte_len(before.text()[before.cursor_y as int]) <= usize::MAX,
        !before.text()[before.cursor_y as int].contains('\n'),
        !before.clipboard.last_action_was_kill,
        !before.clipboard.clipboard_enabled,
        kill_line_done(before, killed, r1),
        yank_done(killed, yanked, r2),
    ensures
        yanked.text() == before.text(),
{
    let t = before.text();
    let y = before.cursor_y as int;
    let x = before.cursor_x as int;
    let line = t[y];
    lemma_boundary(line, x);
    let p = take_bytes(line, x);
    let rest = skip_bytes(line, x);
    assert(killed.clipboard.kill_buffer@ =~= rest);
    assert(!rest.contains('\n')) by {
        if rest.contains('\n') {
            let k = choose|k: int| 0 <= k < rest.len() && rest[k] == '\n';
            assert(line[crate::text::char_index(line, x) + k] == '\n');
        }
    }
    lemma_split_single(rest);
    assert(rest.len() > 0) by {
        if rest.len() == 0 {
            assert(byte_len(rest) == 0);
        }
    }
    lemma_boundary_ends(p);
    assert(byte_len(p) == x);
    assert(killed.text()[y] == p);
    assert(crate::text::insert_at(p, x, rest) =~= line);
    assert(t.update(y, p).update(y, line) =~= t);
}

/// Typing a space on a line that holds only whitespace inserts that space
/// at the cursor, with no message: the arrow is never made on a blank line.
pub proof fn law_space_on_blank_line_is_plain(
    before: Editor,
    after: Editor,
    r: crate::error::Result<()>,
)
    requires
        insert_text_done(before, after, seq![' '], r),
        all_ws(before.text()[before.cursor_y as int]),
    ensures
        ({
            let line = before.text()[before.cursor_y as int];
            let x = before.cursor_x as int;
            after.text() == before.text().update(
                before.cursor_y as int,
                take_bytes(line, x) + seq![' '] + skip_bytes(line, x),
            )
        }),
        after.cursor_x == before.cursor_x + 1,
        after.cursor_y == before.cursor_y,
        after.status_message@ == Seq::<char>::empty(),
{
    lemma_trim_empty(before.text()[before.cursor_y as int]);
    crate::text::lemma_byte_len_ascii(seq![' ']);
}

/// Typing a space at the end of a line that ends with a space and holds
/// something other than whitespace appends `-> ` in its place, with the
/// message `->`.
pub proof fn law_double_space_makes_an_arrow(
    before: Editor,
    after: Editor,
    r: crate::error::Result<()>,
)
    requires
        insert_text_done(before, after, seq![' '], r),
        ({
            let line = before.text()[before.cursor_y as int];
            &&& line.len() > 0
            &&& line.last() == ' '
            &&& before.cursor_x == byte_len(line)
            &&& !all_ws(line)
        }),
    ensures
        after.text() == before.text().update(
            before.cursor_y as int,
            before.text()[before.cursor_y as int] + seq!['-', '>', ' '],
        ),
        after.cursor_x == before.cursor_x + 3,
        after.status_message@ == seq!['-', '>'],
{
    let line = before.text()[before.cursor_y as int];
    lemma_trim_empty(line);
    lemma_boundary_ends(line);
    crate::text::lemma_byte_len_ascii(seq!['-', '>', ' ']);
}

proof fn lemma_prev_boundary_at(line: Seq<char>, x: int)
    requires
        0 < x,
        crate::text::is_boundary(line, x),
    ensures
        crate::text::char_index(line, x) > 0,
        crate::text::prev_boundary(line, x) == byte_len(
            line.take(crate::text::char_index(line, x) - 1),
        ),
        crate::text::is_boundary(line, crate::text::prev_boundary(line, x)),
        take_bytes(line, crate::text::prev_boundary(line, x)) == take_bytes(line, x).drop_last(),
{
    lemma_boundary(line, x);
    let k = crate::text::char_index(line, x);
    if k == 0 {
        assert(line.take(0) =~= Seq::<char>::empty());
    }
    assert(crate::text::is_boundary_count(line, x, k)) by {
        assert forall|j: int| 0 <= j < k implies byte_len(#[trigger] line.take(j)) < x by {
            crate::text::lemma_byte_len_take_strict(line, j, k);
        }
    }
    crate::text::lemma_boundary_count_unique(line, x, k);
    crate::text::lemma_char_index_unique(line, k - 1);
    assert(line.take(k - 1) =~= line.take(k).drop_last());
}

/// Backspace always removes something, and stops on a character boundary:
/// the start of what it removes lies before the cursor.
pub proof fn law_backspace_moves_left(line: Seq<char>, x: int)
    requires
        0 < x,
        crate::text::is_boundary(line, x),
    ensures
        0 <= crate::editor::state::backspace_start(line, x) < x,
        crate::text::is_boundary(line, crate::editor::state::backspace_start(line, x)),
{
    lemma_boundary(line, x);
    lemma_prev_boundary_at(line, x);
    let k = crate::text::char_index(line, x);
    let before = take_bytes(line, x);
    if x == byte_len(line) && crate::editor::state::is_bare_marker(crate::lines::trim(line)) {
        lemma_trim_empty(line);
        lemma_leading_ws_facts(line);
        let l = leading_ws(line);
        let i = choose|i: int| 0 <= i < line.len() && !crate::lines::is_ws(#[trigger] line[i]);
        if l > i {
            assert(crate::lines::is_ws(line[i]));
        }
        crate::text::lemma_byte_len_take_strict(line, l, line.len() as int);
        crate::text::lemma_char_index_unique(line, l);
        assert(line.take(line.len() as int) =~= line);
    } else if all_ws(before) && before.len() >= 2 && before[before.len() - 1] == ' '
        && before[before.len() - 2] == ' ' {
        crate::text::lemma_byte_len_take_succ(line, k - 2);
        crate::text::lemma_byte_len_take_succ(line, k - 1);
        crate::text::lemma_char_index_unique(line, k - 2);
    }
}

/// Backspace after a character other than a space removes exactly that
/// character, except at the end of a line that is a bare list marker.
pub proof fn law_backspace_removes_one_character(line: Seq<char>, x: int)
    requires
        0 < x,
        crate::text::is_boundary(line, x),
        take_bytes(line, x).last() != ' ',
        !(x == byte_len(line) && crate::editor::state::is_bare_marker(crate::lines::trim(line))),
    ensures
        take_bytes(line, crate::editor::state::backspace_start(line, x)) == take_bytes(
            line,
            x,
        ).drop_last(),
{
    lemma_prev_boundary_at(line, x);
}

} // verus!
