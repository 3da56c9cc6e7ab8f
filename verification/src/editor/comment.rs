//! Commenting lines out with `# ` and back in.
use crate::document::view_lines;
use crate::editor::selection::ordered_range;
use crate::editor::state::Editor;
use crate::editor::undo::LastActionType;
use crate::lines::{has_prefix, has_prefix_at, leading_ws, leading_ws_count, lemma_leading_ws_facts,
    trim_start};
use crate::text::{byte_len, byte_offset_of, chars_of, concat_chars, string_of, string_of_range};
use vstd::prelude::*;

verus! {

broadcast use vstd::string::group_string_axioms;

/// The comment marker.
pub open spec fn comment_prefix() -> Seq<char> {
    seq!['#', ' ']
}

/// After its indentation, the line starts with `# `.
pub open spec fn is_commented(line: Seq<char>) -> bool {
    has_prefix(trim_start(line), comment_prefix())
}

/// The line with `# ` after its indentation.
pub open spec fn comment_line(line: Seq<char>) -> Seq<char> {
    line.take(leading_ws(line)) + comment_prefix() + line.skip(leading_ws(line))
}

/// The line without the `# ` after its indentation, if it has one.
pub open spec fn uncomment_line(line: Seq<char>) -> Seq<char> {
    if is_commented(line) {
        line.take(leading_ws(line)) + trim_start(line).skip(2)
    } else {
        line
    }
}

/// Where the cursor goes when its line at byte offset `x` is toggled:
/// it stays within the indentation, and otherwise moves with the text.
pub open spec fn comment_cursor(line: Seq<char>, x: int) -> int {
    if x < byte_len(line.take(leading_ws(line))) {
        x
    } else if is_commented(line) {
        if x >= 2 {
            x - 2
        } else {
            0
        }
    } else {
        x + 2
    }
}

/// A line of the selection that a toggle changes: a line of the
/// document, not empty, and not the last line of the selection when the
/// cursor is at its start.
pub open spec fn toggled_in_selection(lines: Seq<Seq<char>>, y: int, ey: int, cx: int, cy: int) -> bool {
    y < lines.len() && lines[y].len() > 0 && !(y == ey && cy == ey && cx == 0)
}

/// The last line of a selection that ends on line `ey` that lies in
/// `lines`: lines past the end are skipped.
pub open spec fn last_line_within(lines: Seq<Seq<char>>, ey: int) -> int {
    if ey < lines.len() {
        ey
    } else {
        lines.len() - 1
    }
}

/// The lines from `sy` to the last line of the selection that lies in
/// `lines`, after toggling comments on a selection: when every
/// toggled line is commented they are uncommented, otherwise commented.
pub open spec fn toggled_comments(lines: Seq<Seq<char>>, sy: int, ey: int, cx: int, cy: int) -> Seq<
    Seq<char>,
> {
    let all = forall|y: int|
        sy <= y <= ey && toggled_in_selection(lines, y, ey, cx, cy) ==> is_commented(
            #[trigger] lines[y],
        );
    Seq::new(
        (last_line_within(lines, ey) - sy + 1) as nat,
        |i: int|
            if toggled_in_selection(lines, sy + i, ey, cx, cy) {
                if all {
                    uncomment_line(lines[sy + i])
                } else {
                    comment_line(lines[sy + i])
                }
            } else {
                lines[sy + i]
            },
    )
}

/// Whether the line is commented.
pub fn is_commented_line(v: &Vec<char>) -> (r: bool)
    ensures
        r == is_commented(v@),
{
    let t = crate::lines::trim_start_of(v);
    let p = vec!['#', ' '];
    assert(p@ =~= comment_prefix());
    assert(t@.skip(0) =~= t@);
    has_prefix_at(&t, 0, &p)
}

/// The line commented out.
pub fn comment_line_of(v: &Vec<char>) -> (r: Vec<char>)
    ensures
        r@ == comment_line(v@),
{
    let k = leading_ws_count(v);
    let a = chars_of(string_of_range(v, 0, k).as_str());
    let b = chars_of(string_of_range(v, k, v.len()).as_str());
    assert(a@ =~= v@.take(k as int));
    assert(b@ =~= v@.skip(k as int));
    let p = vec!['#', ' '];
    assert(p@ =~= comment_prefix());
    let ap = concat_chars(&a, &p);
    concat_chars(&ap, &b)
}

/// The line with its comment marker removed.
pub fn uncomment_line_of(v: &Vec<char>) -> (r: Vec<char>)
    ensures
        r@ == uncomment_line(v@),
{
    if !is_commented_line(v) {
        return chars_of(string_of(v).as_str());
    }
    let k = leading_ws_count(v);
    proof {
        lemma_leading_ws_facts(v@);
    }
    let a = chars_of(string_of_range(v, 0, k).as_str());
    assert(a@ =~= v@.take(k as int));
    let t = crate::lines::trim_start_of(v);
    let rest = chars_of(string_of_range(&t, 2, t.len()).as_str());
    assert(rest@ =~= t@.skip(2));
    concat_chars(&a, &rest)
}

impl Editor {
    /// Comments out the cursor line, or the selected lines, with `# `
    /// after the indentation; lines that have it lose it instead (for a
    /// selection, only when every toggled line has it).
    pub fn toggle_comment(&mut self) -> (r: crate::error::Result<()>)
        requires
            old(self).inv(),
            old(self).cursor_y < old(self).document.lines.len(),
            old(self).cursor_x + 2 <= usize::MAX,
        ensures
            toggle_comment_done(*old(self), *final(self), r),
    {
        self.clipboard.last_action_was_kill = false;
        let cx = self.cursor_x;
        let cy = self.cursor_y;
        let ghost t = self.text();
        match self.selection.get_selection_range(self.cursor_pos()) {
            Some((s, e)) => {
                let sy = s.1;
                let ey = e.1;
                let last = if ey < self.document.lines.len() {
                    ey
                } else {
                    self.document.lines.len() - 1
                };
                let mut any = false;
                let mut all = true;
                let mut y = sy;
                while y <= last
                    invariant
                        sy <= y <= last + 1,
                        last < self.document.lines.len(),
                        last as int == last_line_within(t, ey as int),
                        t == self.text(),
                        cx == self.cursor_x,
                        cy == self.cursor_y,
                        any == exists|j: int|
                            sy <= j < y && #[trigger] toggled_in_selection(t, j, ey as int, cx as int, cy as int),
                        all == forall|j: int|
                            sy <= j < y && toggled_in_selection(t, j, ey as int, cx as int, cy as int)
                                ==> is_commented(#[trigger] t[j]),
                    decreases last + 1 - y,
                {
                    let v = self.document.line_chars(y);
                    let excluded = y == ey && cy == ey && cx == 0;
                    if v.len() > 0 && !excluded {
                        assert(toggled_in_selection(t, y as int, ey as int, cx as int, cy as int));
                        any = true;
                        if !is_commented_line(&v) {
                            all = false;
                        }
                    }
                    y = y + 1;
                }
                if !any {
                    return Ok(());
                }
                let ghost block = toggled_comments(t, sy as int, ey as int, cx as int, cy as int);
                let mut new_lines: Vec<String> = Vec::new();
                let mut y = sy;
                while y <= last
                    invariant
                        sy <= y <= last + 1,
                        last < self.document.lines.len(),
                        last as int == last_line_within(t, ey as int),
                        t == self.text(),
                        all == forall|j: int|
                            sy <= j <= ey && toggled_in_selection(t, j, ey as int, cx as int, cy as int)
                                ==> is_commented(#[trigger] t[j]),
                        block == toggled_comments(t, sy as int, ey as int, cx as int, cy as int),
                        view_lines(new_lines@) == block.take(y - sy),
                    decreases last + 1 - y,
                {
                    let v = self.document.line_chars(y);
                    let excluded = y == ey && cy == ey && cx == 0;
                    let nv = if v.len() > 0 && !excluded {
                        if all {
                            uncomment_line_of(&v)
                        } else {
                            comment_line_of(&v)
                        }
                    } else {
                        v
                    };
                    assert(nv@ == block[y - sy]);
                    let ghost n0 = new_lines@;
                    new_lines.push(string_of(&nv));
                    assert(view_lines(new_lines@) =~= view_lines(n0).push(nv@));
                    assert(block.take(y + 1 - sy) =~= block.take(y - sy).push(block[y - sy]));
                    y = y + 1;
                }
                assert(block.take(last + 1 - sy) =~= block);
                self.replace_line_block(sy, last, new_lines, LastActionType::ToggleComment, cx, cx, cy);
                self.status_message = "Toggled comment on selection.".to_string();
                Ok(())
            },
            None => {
                let v = self.document.line_chars(cy);
                if v.len() == 0 {
                    return Ok(());
                }
                let commented = is_commented_line(&v);
                let nv = if commented {
                    uncomment_line_of(&v)
                } else {
                    comment_line_of(&v)
                };
                let k = leading_ws_count(&v);
                proof {
                    lemma_leading_ws_facts(v@);
                    crate::text::lemma_byte_len_take_strict(v@, k as int, v.len() as int);
                }
                let ind = byte_offset_of(&v, k);
                let new_x = if cx < ind {
                    cx
                } else if commented {
                    if cx >= 2 {
                        cx - 2
                    } else {
                        0
                    }
                } else {
                    cx + 2
                };
                let mut new_lines: Vec<String> = Vec::new();
                new_lines.push(string_of(&nv));
                proof {
                    assert(view_lines(new_lines@) =~= seq![nv@]);
                    assert(t.take(cy as int) + seq![nv@] + t.skip(cy + 1) =~= t.update(cy as int, nv@));
                }
                self.replace_line_block(cy, cy, new_lines, LastActionType::ToggleComment, 0, new_x, cy);
                if commented {
                    self.status_message = "Uncommented line.".to_string();
                } else {
                    self.status_message = "Commented line.".to_string();
                }
                Ok(())
            },
        }
    }
}

/// What `Editor::toggle_comment` does.
pub open spec fn toggle_comment_done(before: Editor, after: Editor, r: crate::error::Result<()>) -> bool {
    &&& r is Ok
    &&& after.inv()
    &&& match before.selection.marker_pos {
            None => {
                let t = before.text();
                let y = before.cursor_y as int;
                let x = before.cursor_x as int;
                let line = t[y];
                if line.len() == 0 {
                    &&& after.document == before.document
                    &&& after.undo_redo == before.undo_redo
                    &&& after.cursor_x == before.cursor_x
                    &&& after.status_message == before.status_message
                } else {
                    &&& after.text() =~= t.update(
                        y,
                        if is_commented(line) {
                            uncomment_line(line)
                        } else {
                            comment_line(line)
                        },
                    )
                    &&& after.cursor_x == comment_cursor(line, x)
                    &&& after.desired_at_cursor()
                    &&& after.recorded_edit(&before, LastActionType::ToggleComment)
                    &&& after.recorded_cursors(
                        &before,
                        (before.cursor_x, before.cursor_y),
                        (after.cursor_x, after.cursor_y),
                    )
                    &&& after.status_message@ == if is_commented(line) {
                        "Uncommented line."@
                    } else {
                        "Commented line."@
                    }
                }
            },
            Some(m) => {
                let t = before.text();
                let cx = before.cursor_x as int;
                let cy = before.cursor_y as int;
                let (s, e) = ordered_range(m, (before.cursor_x, before.cursor_y));
                if exists|y: int|
                    s.1 <= y <= e.1 && #[trigger] toggled_in_selection(t, y, e.1 as int, cx, cy) {
                    &&& after.text() =~= t.take(s.1 as int) + toggled_comments(
                        t,
                        s.1 as int,
                        e.1 as int,
                        cx,
                        cy,
                    ) + t.skip(last_line_within(t, e.1 as int) + 1)
                    &&& after.cursor_x == before.cursor_x
                    &&& after.desired_at_cursor()
                    &&& after.recorded_edit(&before, LastActionType::ToggleComment)
                    &&& after.recorded_cursors(
                        &before,
                        (before.cursor_x, before.cursor_y),
                        (after.cursor_x, after.cursor_y),
                    )
                    &&& after.status_message@ == "Toggled comment on selection."@
                } else {
                    &&& after.document == before.document
                    &&& after.undo_redo == before.undo_redo
                    &&& after.cursor_x == before.cursor_x
                    &&& after.status_message == before.status_message
                }
            },
        }
    &&& after.cursor_y == before.cursor_y
    &&& !after.clipboard.last_action_was_kill
    &&& after.clipboard.kill_buffer == before.clipboard.kill_buffer
    &&& after.frame(&before)
}

} // verus!
