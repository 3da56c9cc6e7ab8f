//! The visible part of the document and the cursor moves that depend on it.
use crate::document::Document;
use crate::text::{
    byte_len, column_stop, display_width, is_boundary, next_boundary, next_boundary_of,
    position_for_column, prev_boundary, prev_boundary_of, width_before, width_until, chars_of,
    str_byte_len, lemma_boundary_ends,
};
use vstd::prelude::*;

verus! {

/// Rows taken by the status bar above the text.
pub const STATUS_BAR_HEIGHT: usize = 2;

/// The first visible row and column, and the size of the screen.
pub struct Scroll {
    pub row_offset: usize,
    pub col_offset: usize,
    pub screen_rows: usize,
    pub screen_cols: usize,
}

/// Rows of text that one page scroll moves: the screen without the status
/// bar, at least one.
pub open spec fn page_height(screen_rows: usize) -> usize {
    let h = if screen_rows >= STATUS_BAR_HEIGHT {
        (screen_rows - STATUS_BAR_HEIGHT) as usize
    } else {
        0usize
    };
    if h < 1 {
        1usize
    } else {
        h
    }
}

/// `a - b`, or zero when `b > a`.
pub open spec fn sat_sub(a: usize, b: usize) -> usize {
    if a >= b {
        (a - b) as usize
    } else {
        0usize
    }
}

/// The first visible row after a page down in a document of `n` lines.
pub open spec fn page_down_row(row_offset: usize, screen_rows: usize, n: usize) -> usize {
    let r = if row_offset + page_height(screen_rows) > usize::MAX {
        usize::MAX
    } else {
        (row_offset + page_height(screen_rows)) as usize
    };
    let last = sat_sub(n, 1);
    if r < last {
        r
    } else {
        last
    }
}

/// The first visible row once the cursor is on line `y` at the end of the
/// document.
pub open spec fn end_of_file_row(row_offset: usize, screen_rows: usize, y: usize) -> usize {
    if y >= row_offset + sat_sub(screen_rows, 1) {
        (sat_sub(y, sat_sub(screen_rows, 1)) + 1) as usize
    } else {
        row_offset
    }
}

/// Where a clamped cursor column goes: the start when the line does not
/// exist, the end of the line when the column is past it.
pub open spec fn clamped_x(x: usize, y: usize, text: Seq<Seq<char>>) -> usize {
    if y >= text.len() {
        0usize
    } else if x > byte_len(text[y as int]) {
        byte_len(text[y as int]) as usize
    } else {
        x
    }
}

impl Default for Scroll {
    fn default() -> (s: Self)
        ensures
            s.row_offset == 0 && s.col_offset == 0 && s.screen_rows == 0 && s.screen_cols == 0,
    {
        Self::new()
    }
}

impl Scroll {
    pub fn new() -> (s: Self)
        ensures
            s.row_offset == 0 && s.col_offset == 0 && s.screen_rows == 0 && s.screen_cols == 0,
    {
        Self { row_offset: 0, col_offset: 0, screen_rows: 0, screen_cols: 0 }
    }

    /// A scroll position with no screen size yet.
    pub fn new_with_offset(row_offset: usize, col_offset: usize) -> (s: Self)
        ensures
            s.row_offset == row_offset && s.col_offset == col_offset && s.screen_rows == 0
                && s.screen_cols == 0,
    {
        Self { row_offset, col_offset, screen_rows: 0, screen_cols: 0 }
    }

    pub fn update_screen_size(&mut self, screen_rows: usize, screen_cols: usize)
        ensures
            final(self).screen_rows == screen_rows,
            final(self).screen_cols == screen_cols,
            final(self).row_offset == old(self).row_offset,
            final(self).col_offset == old(self).col_offset,
    {
        self.screen_rows = screen_rows;
        self.screen_cols = screen_cols;
    }

    /// Columns taken by the characters of `line` that start before byte
    /// offset `until_byte`.
    pub fn get_display_width(&self, line: &str, until_byte: usize) -> (w: usize)
        ensures
            w == width_before(line@, until_byte as int),
    {
        let _ = str_byte_len(line);
        let v = chars_of(line);
        width_until(&v, until_byte)
    }

    /// The byte offset and the column of the first character of `line` that
    /// does not fit before column `display_x`.
    pub fn get_byte_pos_from_display_width(&self, line: &str, display_x: usize) -> (r: (
        usize,
        usize,
    ))
        ensures
            r.0 == byte_len(line@.take(column_stop(line@, display_x as int))),
            r.1 == display_width(line@.take(column_stop(line@, display_x as int))),
            is_boundary(line@, r.0 as int),
    {
        let _ = str_byte_len(line);
        let v = chars_of(line);
        let r = position_for_column(&v, display_x);
        proof {
            crate::text::lemma_char_index_unique(line@, column_stop(line@, display_x as int));
        }
        r
    }

    /// Keeps the cursor column within its line.
    pub fn clamp_cursor_x(&self, cursor_x: &mut usize, cursor_y: &usize, document: &Document)
        ensures
            *final(cursor_x) == clamped_x(*old(cursor_x), *cursor_y, document.text()),
    {
        if *cursor_y >= document.lines.len() {
            *cursor_x = 0;
            return;
        }
        let line_len = str_byte_len(document.lines[*cursor_y].as_str());
        if *cursor_x > line_len {
            *cursor_x = line_len;
        }
    }

    /// Scrolls one page down (not past the last line) and puts the cursor
    /// on the first visible line.
    pub fn scroll_page_down(
        &mut self,
        cursor_y: &mut usize,
        cursor_x: &mut usize,
        document: &Document,
        last_action_was_kill: &mut bool,
    )
        ensures
            final(self).row_offset == page_down_row(old(self).row_offset, old(self).screen_rows, document.lines.len()),
            *final(cursor_y) == final(self).row_offset,
            *final(cursor_x) == clamped_x(*old(cursor_x), *final(cursor_y), document.text()),
            !*final(last_action_was_kill),
            final(self).col_offset == old(self).col_offset,
            final(self).screen_rows == old(self).screen_rows,
            final(self).screen_cols == old(self).screen_cols,
    {
        *last_action_was_kill = false;
        let page_height = self.screen_rows.saturating_sub(STATUS_BAR_HEIGHT).max(1);
        self.row_offset = self.row_offset.saturating_add(page_height);
        self.row_offset = self.row_offset.min(document.lines.len().saturating_sub(1));
        *cursor_y = self.row_offset;
        self.clamp_cursor_x(cursor_x, cursor_y, document);
    }

    /// Scrolls one page up (not before the first line) and puts the cursor
    /// on the first visible line.
    pub fn scroll_page_up(
        &mut self,
        cursor_y: &mut usize,
        cursor_x: &mut usize,
        document: &Document,
        last_action_was_kill: &mut bool,
    )
        ensures
            final(self).row_offset == sat_sub(old(self).row_offset, page_height(old(self).screen_rows)),
            *final(cursor_y) == final(self).row_offset,
            *final(cursor_x) == clamped_x(*old(cursor_x), *final(cursor_y), document.text()),
            !*final(last_action_was_kill),
            final(self).col_offset == old(self).col_offset,
            final(self).screen_rows == old(self).screen_rows,
            final(self).screen_cols == old(self).screen_cols,
    {
        *last_action_was_kill = false;
        let page_height = self.screen_rows.saturating_sub(STATUS_BAR_HEIGHT).max(1);
        self.row_offset = self.row_offset.saturating_sub(page_height);
        *cursor_y = self.row_offset;
        self.clamp_cursor_x(cursor_x, cursor_y, document);
    }

    /// Moves the cursor and the view to the start of the document.
    pub fn go_to_start_of_file(
        &mut self,
        cursor_y: &mut usize,
        cursor_x: &mut usize,
        desired_cursor_x: &mut usize,
        last_action_was_kill: &mut bool,
    )
        ensures
            *final(cursor_y) == 0 && *final(cursor_x) == 0 && *final(desired_cursor_x) == 0,
            final(self).row_offset == 0 && final(self).col_offset == 0,
            !*final(last_action_was_kill),
            final(self).screen_rows == old(self).screen_rows,
            final(self).screen_cols == old(self).screen_cols,
    {
        *last_action_was_kill = false;
        *cursor_y = 0;
        *cursor_x = 0;
        *desired_cursor_x = 0;
        self.row_offset = 0;
        self.col_offset = 0;
    }

    /// Moves the cursor to the end of the last line; the desired column is
    /// the display width of that line, and the view scrolls when the line
    /// is below it.
    pub fn go_to_end_of_file(
        &mut self,
        cursor_y: &mut usize,
        cursor_x: &mut usize,
        desired_cursor_x: &mut usize,
        document: &Document,
        last_action_was_kill: &mut bool,
    )
        requires
            document.lines.len() > 0,
            old(self).row_offset + sat_sub(old(self).screen_rows, 1) <= usize::MAX,
        ensures
            *final(cursor_y) == document.lines.len() - 1,
            *final(cursor_x) == byte_len(document.text()[*final(cursor_y) as int]),
            *final(desired_cursor_x) == display_width(document.text()[*final(cursor_y) as int]),
            final(self).row_offset == end_of_file_row(old(self).row_offset, old(self).screen_rows, *final(cursor_y)),
            !*final(last_action_was_kill),
            final(self).col_offset == old(self).col_offset,
            final(self).screen_rows == old(self).screen_rows,
            final(self).screen_cols == old(self).screen_cols,
    {
        *last_action_was_kill = false;
        *cursor_y = document.lines.len().saturating_sub(1);
        let line = document.lines[*cursor_y].as_str();
        let len = str_byte_len(line);
        *cursor_x = len;
        *desired_cursor_x = self.get_display_width(line, len);
        proof {
            let s = line@;
            assert(s.take(s.len() as int) =~= s);
            crate::text::lemma_byte_len_take_strict(s, 0, s.len() as int);
            assert forall|j: int| 0 <= j < s.len() implies byte_len(#[trigger] s.take(j))
                < byte_len(s) by {
                crate::text::lemma_byte_len_take_strict(s, j, s.len() as int);
            }
            crate::text::lemma_boundary_count_unique(s, byte_len(s) as int, s.len() as int);
        }
        let screen_height = self.screen_rows.saturating_sub(1);
        if *cursor_y >= self.row_offset + screen_height {
            self.row_offset = cursor_y.saturating_sub(screen_height) + 1;
        }
        self.clamp_cursor_x(cursor_x, cursor_y, document);
    }

    /// Moves the cursor one line up, to the column nearest the desired one;
    /// on the first line, to its start.
    pub fn move_cursor_up(
        &mut self,
        cursor_y: &mut usize,
        cursor_x: &mut usize,
        desired_cursor_x: &mut usize,
        document: &Document,
        last_action_was_kill: &mut bool,
    )
        requires
            *old(cursor_y) <= document.lines.len(),
        ensures
            *old(cursor_y) > 0 ==> {
                let line = document.text()[*final(cursor_y) as int];
                &&& *final(cursor_y) == *old(cursor_y) - 1
                &&& *final(cursor_x) == byte_len(
                    line.take(column_stop(line, *old(desired_cursor_x) as int)),
                )
                &&& *final(desired_cursor_x) == *old(desired_cursor_x)
            },
            *old(cursor_y) == 0 ==> *final(cursor_y) == 0 && *final(cursor_x) == 0
                && *final(desired_cursor_x) == 0,
            !*final(last_action_was_kill),
            *final(self) == *old(self),
    {
        *last_action_was_kill = false;
        if *cursor_y > 0 {
            *cursor_y -= 1;
            *cursor_x =
                self.get_byte_pos_from_display_width(
                    document.lines[*cursor_y].as_str(),
                    *desired_cursor_x,
                ).0;
        } else {
            *cursor_x = 0;
            *desired_cursor_x = 0;
        }
    }

    /// Moves the cursor one line down, to the column nearest the desired
    /// one; on the last line, to its end.
    pub fn move_cursor_down(
        &mut self,
        cursor_y: &mut usize,
        cursor_x: &mut usize,
        desired_cursor_x: &mut usize,
        document: &Document,
        last_action_was_kill: &mut bool,
    )
        requires
            *old(cursor_y) < document.lines.len(),
        ensures
            *old(cursor_y) + 1 < document.lines.len() ==> {
                let line = document.text()[*final(cursor_y) as int];
                &&& *final(cursor_y) == *old(cursor_y) + 1
                &&& *final(cursor_x) == byte_len(
                    line.take(column_stop(line, *old(desired_cursor_x) as int)),
                )
                &&& *final(desired_cursor_x) == *old(desired_cursor_x)
            },
            *old(cursor_y) + 1 >= document.lines.len() ==> {
                let line = document.text()[*old(cursor_y) as int];
                &&& *final(cursor_y) == *old(cursor_y)
                &&& *final(cursor_x) == byte_len(line)
                &&& *final(desired_cursor_x) == width_before(line, byte_len(line) as int)
            },
            !*final(last_action_was_kill),
            *final(self) == *old(self),
    {
        *last_action_was_kill = false;
        if *cursor_y < document.lines.len().saturating_sub(1) {
            *cursor_y += 1;
            *cursor_x =
                self.get_byte_pos_from_display_width(
                    document.lines[*cursor_y].as_str(),
                    *desired_cursor_x,
                ).0;
        } else {
            *cursor_x = str_byte_len(document.lines[*cursor_y].as_str());
            *desired_cursor_x = self.get_display_width(
                document.lines[*cursor_y].as_str(),
                *cursor_x,
            );
        }
    }

    /// Moves the cursor one character left, or to the end of the previous
    /// line from the start of a line.
    pub fn move_cursor_left(
        &mut self,
        cursor_y: &mut usize,
        cursor_x: &mut usize,
        desired_cursor_x: &mut usize,
        document: &Document,
        last_action_was_kill: &mut bool,
    )
        requires
            *old(cursor_y) < document.lines.len(),
        ensures
            *old(cursor_x) > 0 ==> {
                let line = document.text()[*old(cursor_y) as int];
                &&& *final(cursor_y) == *old(cursor_y)
                &&& *final(cursor_x) == prev_boundary(line, *old(cursor_x) as int)
                &&& *final(desired_cursor_x) == width_before(line, *final(cursor_x) as int)
            },
            *old(cursor_x) == 0 && *old(cursor_y) > 0 ==> {
                let line = document.text()[*final(cursor_y) as int];
                &&& *final(cursor_y) == *old(cursor_y) - 1
                &&& *final(cursor_x) == byte_len(line)
                &&& *final(desired_cursor_x) == width_before(line, byte_len(line) as int)
            },
            *old(cursor_x) == 0 && *old(cursor_y) == 0 ==> *final(cursor_x) == 0
                && *final(cursor_y) == 0 && *final(desired_cursor_x) == *old(desired_cursor_x),
            !*final(last_action_was_kill),
            *final(self) == *old(self),
    {
        *last_action_was_kill = false;
        if *cursor_x > 0 {
            let line = document.line_chars(*cursor_y);
            *cursor_x = prev_boundary_of(&line, *cursor_x);
            *desired_cursor_x = width_until(&line, *cursor_x);
        } else if *cursor_y > 0 {
            *cursor_y -= 1;
            let line = document.line_chars(*cursor_y);
            *cursor_x = crate::text::chars_byte_len(&line);
            *desired_cursor_x = width_until(&line, *cursor_x);
        }
    }

    /// Moves the cursor one character right, or to the start of the next
    /// line from the end of a line.
    pub fn move_cursor_right(
        &mut self,
        cursor_y: &mut usize,
        cursor_x: &mut usize,
        desired_cursor_x: &mut usize,
        document: &Document,
        last_action_was_kill: &mut bool,
    )
        requires
            *old(cursor_y) < document.lines.len(),
        ensures
            ({
                let line = document.text()[*old(cursor_y) as int];
                if *old(cursor_x) < byte_len(line) {
                    &&& *final(cursor_y) == *old(cursor_y)
                    &&& *final(cursor_x) == next_boundary(line, *old(cursor_x) + 1)
                    &&& *final(desired_cursor_x) == width_before(line, *final(cursor_x) as int)
                } else if *old(cursor_y) + 1 < document.lines.len() {
                    &&& *final(cursor_y) == *old(cursor_y) + 1
                    &&& *final(cursor_x) == 0
                    &&& *final(desired_cursor_x) == 0
                } else {
                    &&& *final(cursor_y) == *old(cursor_y)
                    &&& *final(cursor_x) == *old(cursor_x)
                    &&& *final(desired_cursor_x) == *old(desired_cursor_x)
                }
            }),
            !*final(last_action_was_kill),
            *final(self) == *old(self),
    {
        *last_action_was_kill = false;
        let line = document.line_chars(*cursor_y);
        let len = crate::text::chars_byte_len(&line);
        if *cursor_x < len {
            *cursor_x = next_boundary_of(&line, *cursor_x + 1);
            *desired_cursor_x = width_until(&line, *cursor_x);
        } else if *cursor_y < document.lines.len().saturating_sub(1) {
            *cursor_y += 1;
            *cursor_x = 0;
            *desired_cursor_x = 0;
        }
    }
}

} // verus!
