//! Indenting and outdenting lines by two spaces.
use crate::document::view_lines;
use crate::editor::selection::ordered_range;
use crate::editor::state::Editor;
use crate::editor::undo::LastActionType;
use crate::lines::has_prefix;
use crate::text::{chars_of, string_of, string_of_range};
use vstd::prelude::*;

verus! {

/// The line indented by two spaces.
pub open spec fn indent_text(line: Seq<char>) -> Seq<char> {
    seq![' ', ' '] + line
}

/// The line without up to two leading spaces.
pub open spec fn outdent_text(line: Seq<char>) -> Seq<char> {
    if has_prefix(line, seq![' ', ' ']) {
        line.skip(2)
    } else if has_prefix(line, seq![' ']) {
        line.skip(1)
    } else {
        line
    }
}

/// How many bytes a line gains (or loses) when indented (or outdented):
/// empty lines stay as they are.
pub open spec fn indent_shift(line: Seq<char>, indent: bool) -> int {
    if line.len() == 0 {
        0
    } else if indent {
        2
    } else if has_prefix(line, seq![' ', ' ']) {
        -2
    } else if has_prefix(line, seq![' ']) {
        -1
    } else {
        0
    }
}

/// A line of a block after indenting or outdenting; empty lines stay.
pub open spec fn shifted_line(line: Seq<char>, indent: bool) -> Seq<char> {
    if line.len() == 0 {
        line
    } else if indent {
        indent_text(line)
    } else {
        outdent_text(line)
    }
}

/// The lines `sy..=ey` indented or outdented.
pub open spec fn shifted_block(lines: Seq<Seq<char>>, sy: int, ey: int, indent: bool) -> Seq<Seq<char>> {
    Seq::new((ey - sy + 1) as nat, |i: int| shifted_line(lines[sy + i], indent))
}

/// The last line of a selection that indenting acts on: the line of its
/// end, or the one before when the selection ends at the start of a later
/// line.
pub open spec fn block_end(s: (usize, usize), e: (usize, usize)) -> int {
    if e.0 == 0 && e.1 > s.1 {
        e.1 - 1
    } else {
        e.1 as int
    }
}

/// A position `(x, y)` after lines `sy..=ey` were shifted: it moves with
/// its line's text, but not before the start of the line.
pub open spec fn shifted_pos(
    lines: Seq<Seq<char>>,
    p: (usize, usize),
    sy: int,
    ey: int,
    indent: bool,
) -> (usize, usize) {
    if sy <= p.1 <= ey {
        let nx = p.0 + indent_shift(lines[p.1 as int], indent);
        (if nx < 0 {
            0usize
        } else {
            nx as usize
        }, p.1)
    } else {
        p
    }
}

fn shifted_line_of(v: &Vec<char>, indent: bool) -> (r: (Vec<char>, i8))
    ensures
        r.0@ == shifted_line(v@, indent),
        r.1 == indent_shift(v@, indent),
{
    if v.len() == 0 {
        return (chars_of(string_of(v).as_str()), 0);
    }
    if indent {
        let sp = vec![' ', ' '];
        let r = crate::text::concat_chars(&sp, v);
        assert(r@ =~= indent_text(v@));
        return (r, 2);
    }
    if v.len() >= 2 && v[0] == ' ' && v[1] == ' ' {
        assert(v@.take(2) =~= seq![' ', ' ']);
        let r = chars_of(string_of_range(v, 2, v.len()).as_str());
        assert(r@ =~= v@.skip(2));
        (r, -2)
    } else if v.len() >= 1 && v[0] == ' ' {
        assert(v@.take(1) =~= seq![' ']);
        if v.len() >= 2 {
            assert(v@.take(2)[1] == v@[1]);
        }
        assert(!has_prefix(v@, seq![' ', ' ']));
        let r = chars_of(string_of_range(v, 1, v.len()).as_str());
        assert(r@ =~= v@.skip(1));
        (r, -1)
    } else {
        if v.len() >= 1 {
            assert(v@.take(1)[0] == v@[0]);
        }
        if v.len() >= 2 {
            assert(v@.take(2)[0] == v@[0]);
        }
        assert(!has_prefix(v@, seq![' ', ' ']));
        assert(!has_prefix(v@, seq![' ']));
        (chars_of(string_of(v).as_str()), 0)
    }
}

fn shift_x(x: usize, d: i8) -> (r: usize)
    requires
        x + 2 <= usize::MAX,
        -2 <= d <= 2,
    ensures
        r == (if x + d < 0 {
            0
        } else {
            x + d
        }),
{
    if d >= 0 {
        x + (d as usize)
    } else {
        let m = (-(d as i16)) as usize;
        if x >= m {
            x - m
        } else {
            0
        }
    }
}

impl Editor {
    /// Indents or outdents the lines of the selection; empty lines stay,
    /// and a selection that ends at the start of a later line leaves that
    /// line out. The cursor and the marker move with their lines' text.
    fn shift_selection(&mut self, indent: bool) -> (r: crate::error::Result<()>)
        requires
            old(self).inv(),
            old(self).cursor_y < old(self).document.lines.len(),
            old(self).cursor_x + 2 <= usize::MAX,
            old(self).selection.marker_pos matches Some(m) && m.0 + 2 <= usize::MAX && ({
                let (s, e) = ordered_range(m, (old(self).cursor_x, old(self).cursor_y));
                block_end(s, e) < old(self).document.lines.len()
            }),
        ensures
            r is Ok,
            final(self).inv(),
            ({
                let m = old(self).selection.marker_pos->Some_0;
                let c = (old(self).cursor_x, old(self).cursor_y);
                let (s, e) = ordered_range(m, c);
                let t = old(self).text();
                let sy = s.1 as int;
                let ey = block_end(s, e);
                &&& final(self).text() == t.take(sy) + shifted_block(t, sy, ey, indent) + t.skip(ey + 1)
                &&& (final(self).cursor_x, final(self).cursor_y) == shifted_pos(t, c, sy, ey, indent)
                &&& final(self).selection.marker_pos == Some(shifted_pos(t, m, sy, ey, indent))
                &&& final(self).desired_at_cursor()
                &&& final(self).recorded_edit(old(self), LastActionType::Other)
                &&& final(self).recorded_cursors(
                    old(self),
                    (old(self).cursor_x, old(self).cursor_y),
                    (final(self).cursor_x, final(self).cursor_y),
                )
            }),
            final(self).status_message == old(self).status_message,
            final(self).clipboard == old(self).clipboard,
            final(self).should_quit == old(self).should_quit,
            final(self).mode == old(self).mode,
            final(self).scroll == old(self).scroll,
            final(self).search == old(self).search,
            final(self).task == old(self).task,
            final(self).keymap == old(self).keymap,
            final(self).document.filename == old(self).document.filename,
    {
        let cursor = self.cursor_pos();
        let marker = match self.selection.marker_pos {
            Some(m) => m,
            None => cursor,
        };
        let (start, end) = match self.selection.get_selection_range(cursor) {
            Some(r) => r,
            None => (cursor, cursor),
        };
        let ghost t = self.text();
        let sy = start.1;
        let mut ey = end.1;
        if end.0 == 0 && ey > sy {
            ey = ey - 1;
        }
        let ghost block = shifted_block(t, sy as int, ey as int, indent);
        let mut new_lines: Vec<String> = Vec::new();
        let mut cursor_shift: i8 = 0;
        let mut marker_shift: i8 = 0;
        let mut y = sy;
        while y <= ey
            invariant
                sy <= y <= ey + 1,
                ey < self.document.lines.len(),
                t == self.text(),
                cursor == (self.cursor_x, self.cursor_y),
                block == shifted_block(t, sy as int, ey as int, indent),
                view_lines(new_lines@) == block.take(y - sy),
                sy <= cursor.1 < y ==> cursor_shift == indent_shift(t[cursor.1 as int], indent),
                sy <= marker.1 < y ==> marker_shift == indent_shift(t[marker.1 as int], indent),
            decreases ey + 1 - y,
        {
            let v = self.document.line_chars(y);
            let (nv, d) = shifted_line_of(&v, indent);
            if y == cursor.1 {
                cursor_shift = d;
            }
            if y == marker.1 {
                marker_shift = d;
            }
            let ghost n0 = new_lines@;
            new_lines.push(string_of(&nv));
            assert(view_lines(new_lines@) =~= view_lines(n0).push(nv@));
            assert(block.take(y + 1 - sy) =~= block.take(y - sy).push(block[y - sy]));
            y = y + 1;
        }
        assert(block.take(ey + 1 - sy) =~= block);
        let new_cursor = if sy <= cursor.1 && cursor.1 <= ey {
            (shift_x(cursor.0, cursor_shift), cursor.1)
        } else {
            cursor
        };
        let new_marker = if sy <= marker.1 && marker.1 <= ey {
            (shift_x(marker.0, marker_shift), marker.1)
        } else {
            marker
        };
        self.replace_line_block(sy, ey, new_lines, LastActionType::Other, 0, new_cursor.0, new_cursor.1);
        self.selection.marker_pos = Some(new_marker);
        Ok(())
    }

    /// Indents the cursor line, or the selected lines, by two spaces.
    pub fn indent_line(&mut self) -> (r: crate::error::Result<()>)
        requires
            old(self).inv(),
            old(self).cursor_y < old(self).document.lines.len(),
            old(self).cursor_x + 2 <= usize::MAX,
            old(self).selection.marker_pos matches Some(m) ==> m.0 + 2 <= usize::MAX && ({
                let (s, e) = ordered_range(m, (old(self).cursor_x, old(self).cursor_y));
                block_end(s, e) < old(self).document.lines.len()
            }),
        ensures
            indent_line_done(*old(self), *final(self), r),
    {
        if self.selection.is_selection_active() {
            return self.shift_selection(true);
        }
        let y = self.cursor_y;
        let x = self.cursor_x;
        let ghost t = self.text();
        let v = self.document.line_chars(y);
        let sp = vec![' ', ' '];
        let nv = crate::text::concat_chars(&sp, &v);
        assert(nv@ =~= indent_text(v@));
        let mut new_lines: Vec<String> = Vec::new();
        new_lines.push(string_of(&nv));
        proof {
            assert(view_lines(new_lines@) =~= seq![nv@]);
            assert(t.take(y as int) + seq![nv@] + t.skip(y + 1) =~= t.update(y as int, nv@));
        }
        self.replace_line_block(y, y, new_lines, LastActionType::Indent, 0, x + 2, y);
        Ok(())
    }

    /// Removes up to two leading spaces from the cursor line, or from the
    /// selected lines.
    pub fn outdent_line(&mut self) -> (r: crate::error::Result<()>)
        requires
            old(self).inv(),
            old(self).cursor_y < old(self).document.lines.len(),
            old(self).cursor_x + 2 <= usize::MAX,
            old(self).selection.marker_pos matches Some(m) ==> m.0 + 2 <= usize::MAX && ({
                let (s, e) = ordered_range(m, (old(self).cursor_x, old(self).cursor_y));
                block_end(s, e) < old(self).document.lines.len()
            }),
        ensures
            outdent_line_done(*old(self), *final(self), r),
    {
        if self.selection.is_selection_active() {
            return self.shift_selection(false);
        }
        let y = self.cursor_y;
        let x = self.cursor_x;
        let ghost t = self.text();
        let v = self.document.line_chars(y);
        let (nv, d) = shifted_line_of(&v, false);
        if d == 0 {
            return Ok(());
        }
        let new_x = shift_x(x, d);
        let mut new_lines: Vec<String> = Vec::new();
        new_lines.push(string_of(&nv));
        proof {
            assert(view_lines(new_lines@) =~= seq![nv@]);
            assert(t.take(y as int) + seq![nv@] + t.skip(y + 1) =~= t.update(y as int, nv@));
        }
        self.replace_line_block(y, y, new_lines, LastActionType::Outdent, 0, new_x, y);
        Ok(())
    }
}

/// What `Editor::indent_line` does.
pub open spec fn indent_line_done(before: Editor, after: Editor, r: crate::error::Result<()>) -> bool {
    &&& r is Ok
    &&& after.inv()
    &&& match before.selection.marker_pos {
            None => {
                let t = before.text();
                let y = before.cursor_y as int;
                &&& after.text() =~= t.update(y, indent_text(t[y]))
                &&& after.cursor_x == before.cursor_x + 2
                &&& after.cursor_y == y
                &&& after.selection == before.selection
                &&& after.desired_at_cursor()
                &&& after.recorded_edit(&before, LastActionType::Indent)
                &&& after.recorded_cursors(
                    &before,
                    (before.cursor_x, before.cursor_y),
                    (after.cursor_x, after.cursor_y),
                )
            },
            Some(m) => {
                let c = (before.cursor_x, before.cursor_y);
                let (s, e) = ordered_range(m, c);
                let t = before.text();
                let sy = s.1 as int;
                let ey = block_end(s, e);
                &&& after.text() =~= t.take(sy) + shifted_block(t, sy, ey, true) + t.skip(
                    ey + 1,
                )
                &&& (after.cursor_x, after.cursor_y) == shifted_pos(t, c, sy, ey, true)
                &&& after.selection.marker_pos == Some(shifted_pos(t, m, sy, ey, true))
                &&& after.desired_at_cursor()
                &&& after.recorded_edit(&before, LastActionType::Other)
                &&& after.recorded_cursors(
                    &before,
                    (before.cursor_x, before.cursor_y),
                    (after.cursor_x, after.cursor_y),
                )
            },
        }
    &&& after.status_message == before.status_message
    &&& after.clipboard == before.clipboard
    &&& after.mode == before.mode
    &&& after.scroll == before.scroll
}

/// What `Editor::outdent_line` does.
pub open spec fn outdent_line_done(before: Editor, after: Editor, r: crate::error::Result<()>) -> bool {
    &&& r is Ok
    &&& after.inv()
    &&& match before.selection.marker_pos {
            None => {
                let t = before.text();
                let y = before.cursor_y as int;
                let line = t[y];
                let x = before.cursor_x as int;
                &&& after.selection == before.selection
                &&& (if outdent_text(line) == line {
                    &&& after.document == before.document
                    &&& after.undo_redo == before.undo_redo
                    &&& after.cursor_x == before.cursor_x
                    &&& after.cursor_y == before.cursor_y
                } else {
                    let d = if has_prefix(line, seq![' ', ' ']) {
                        2int
                    } else {
                        1int
                    };
                    &&& after.text() =~= t.update(y, outdent_text(line))
                    &&& after.cursor_x == if x >= d {
                        x - d
                    } else {
                        0
                    }
                    &&& after.cursor_y == y
                    &&& after.desired_at_cursor()
                    &&& after.recorded_edit(&before, LastActionType::Outdent)
                    &&& after.recorded_cursors(
                        &before,
                        (before.cursor_x, before.cursor_y),
                        (after.cursor_x, after.cursor_y),
                    )
                })
            },
            Some(m) => {
                let c = (before.cursor_x, before.cursor_y);
                let (s, e) = ordered_range(m, c);
                let t = before.text();
                let sy = s.1 as int;
                let ey = block_end(s, e);
                &&& after.text() =~= t.take(sy) + shifted_block(t, sy, ey, false) + t.skip(
                    ey + 1,
                )
                &&& (after.cursor_x, after.cursor_y) == shifted_pos(t, c, sy, ey, false)
                &&& after.selection.marker_pos == Some(shifted_pos(t, m, sy, ey, false))
                &&& after.desired_at_cursor()
                &&& after.recorded_edit(&before, LastActionType::Other)
                &&& after.recorded_cursors(
                    &before,
                    (before.cursor_x, before.cursor_y),
                    (after.cursor_x, after.cursor_y),
                )
            },
        }
    &&& after.status_message == before.status_message
    &&& after.clipboard == before.clipboard
    &&& after.mode == before.mode
    &&& after.scroll == before.scroll
}

} // verus!
