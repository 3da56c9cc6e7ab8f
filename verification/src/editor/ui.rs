//! How lines are shown: separators, checkboxes, the prefix kept in view,
//! and the scroll position that keeps the cursor visible.
use crate::editor::scroll::Scroll;
use crate::editor::state::{Editor, EditorMode};
use crate::lines::{has_prefix, has_prefix_at, leading_ws, leading_ws_count, lemma_leading_ws_facts,
    trim_start, trim_start_of};
use crate::text::{byte_len, byte_offset_of, chars_eq, chars_of, char_width, unicode_width,
    width_before};
use vstd::prelude::*;

pub use crate::editor::scroll::STATUS_BAR_HEIGHT;

verus! {

/// The index of the first `c` in `s` from index `i` on.
pub open spec fn first_index_from(s: Seq<char>, c: char, i: int) -> Option<int>
    decreases s.len() - i,
{
    if i < 0 || i >= s.len() {
        None
    } else if s[i] == c {
        Some(i)
    } else {
        first_index_from(s, c, i + 1)
    }
}

/// The bytes of a line's marker after its indentation and comment sign:
/// a task box, a list dash, or a `/command` with the space after it.
pub open spec fn marker_bytes(content: Seq<char>) -> int {
    if has_prefix(content, seq!['-', ' ', '[', ' ', ']', ' ']) || has_prefix(
        content,
        seq!['-', ' ', '[', 'x', ']', ' '],
    ) {
        6
    } else if has_prefix(content, seq!['-', ' ']) {
        2
    } else if content.len() > 0 && content[0] == '/' {
        match first_index_from(content, ' ', 0) {
            Some(k) => (byte_len(content.take(k)) + 1) as int,
            None => 0,
        }
    } else {
        0
    }
}

/// The bytes of a line that stay in view when it scrolls sideways: the
/// indentation, a `# ` comment sign, and a marker.
pub open spec fn prefix_len(line: Seq<char>) -> int {
    let lw = leading_ws(line);
    let after = line.skip(lw);
    let cp: int = if has_prefix(after, seq!['#', ' ']) {
        2
    } else {
        0
    };
    byte_len(line.take(lw)) + cp + marker_bytes(after.skip(cp))
}

/// The first visible row that keeps row `y` among `visible` rows.
pub open spec fn row_offset_for(row_offset: usize, y: usize, visible: usize) -> int {
    let r = if y < row_offset {
        y as int
    } else {
        row_offset as int
    };
    if y >= r + visible {
        y - visible + 1
    } else {
        r
    }
}

/// The first visible column of the content after the prefix, for a cursor
/// `cx` columns into the content, `avail` columns wide, an ellipsis of
/// `ell` columns, and the current offset `col_offset`.
pub open spec fn col_offset_for(col_offset: int, cx: int, avail: int, ell: int) -> int {
    let margin: int = 10;
    let m = if margin < avail {
        margin
    } else {
        avail
    };
    let will_scroll = col_offset > 0 || cx >= avail - m;
    let ac = if will_scroll {
        if avail >= ell {
            avail - ell
        } else {
            0
        }
    } else {
        avail
    };
    let desired = if ac > margin {
        ac - margin
    } else {
        ac
    };
    if will_scroll {
        if cx >= desired {
            cx - desired
        } else {
            0
        }
    } else {
        0
    }
}

/// The characters of a marker (see `marker_bytes`).
pub open spec fn marker_chars(content: Seq<char>) -> int {
    if has_prefix(content, seq!['-', ' ', '[', ' ', ']', ' ']) || has_prefix(
        content,
        seq!['-', ' ', '[', 'x', ']', ' '],
    ) {
        6
    } else if has_prefix(content, seq!['-', ' ']) {
        2
    } else if content.len() > 0 && content[0] == '/' {
        match first_index_from(content, ' ', 0) {
            Some(k) => k + 1,
            None => 0,
        }
    } else {
        0
    }
}

/// The characters of the prefix of a line (see `prefix_len`).
pub open spec fn prefix_chars(line: Seq<char>) -> int {
    let lw = leading_ws(line);
    let after = line.skip(lw);
    let cp: int = if has_prefix(after, seq!['#', ' ']) {
        2
    } else {
        0
    };
    lw + cp + marker_chars(after.skip(cp))
}

proof fn lemma_first_index_from(s: Seq<char>, c: char, i: int)
    requires
        0 <= i,
    ensures
        first_index_from(s, c, i) matches Some(k) ==> i <= k < s.len() && s[k] == c,
    decreases s.len() - i,
{
    if i < s.len() && s[i] != c {
        lemma_first_index_from(s, c, i + 1);
    }
}

proof fn lemma_ascii_bytes(s: Seq<char>)
    requires
        forall|j: int| 0 <= j < s.len() ==> (s[j] as u32) < 0x80,
    ensures
        byte_len(s) == s.len(),
    decreases s.len(),
{
    if s.len() > 0 {
        lemma_ascii_bytes(s.drop_last());
    }
}

/// The prefix of a line is made of whole characters: its bytes are those
/// of its first `prefix_chars` characters.
pub proof fn lemma_prefix_chars(line: Seq<char>)
    ensures
        0 <= prefix_chars(line) <= line.len(),
        byte_len(line.take(prefix_chars(line))) == prefix_len(line),
{
    let lw = leading_ws(line);
    lemma_leading_ws_facts(line);
    let after = line.skip(lw);
    let cp: int = if has_prefix(after, seq!['#', ' ']) {
        2
    } else {
        0
    };
    let content = after.skip(cp);
    let mc = marker_chars(content);
    if content.len() > 0 && content[0] == '/' {
        lemma_first_index_from(content, ' ', 0);
    }
    assert(0 <= mc <= content.len()) by {
        if has_prefix(content, seq!['-', ' ', '[', ' ', ']', ' ']) || has_prefix(
            content,
            seq!['-', ' ', '[', 'x', ']', ' '],
        ) {
        } else if has_prefix(content, seq!['-', ' ']) {
        }
    }
    assert(line.take(lw + cp + mc) =~= line.take(lw) + after.take(cp) + content.take(mc));
    crate::text::lemma_byte_len_concat(line.take(lw) + after.take(cp), content.take(mc));
    crate::text::lemma_byte_len_concat(line.take(lw), after.take(cp));
    if cp == 2 {
        assert(after.take(2) =~= seq!['#', ' ']);
        lemma_ascii_bytes(seq!['#', ' ']);
    } else {
        assert(after.take(0) =~= Seq::<char>::empty());
    }
    if has_prefix(content, seq!['-', ' ', '[', ' ', ']', ' ']) {
        assert(content.take(6) =~= seq!['-', ' ', '[', ' ', ']', ' ']);
        lemma_ascii_bytes(seq!['-', ' ', '[', ' ', ']', ' ']);
    } else if has_prefix(content, seq!['-', ' ', '[', 'x', ']', ' ']) {
        assert(content.take(6) =~= seq!['-', ' ', '[', 'x', ']', ' ']);
        lemma_ascii_bytes(seq!['-', ' ', '[', 'x', ']', ' ']);
    } else if has_prefix(content, seq!['-', ' ']) {
        assert(content.take(2) =~= seq!['-', ' ']);
        lemma_ascii_bytes(seq!['-', ' ']);
    } else if content.len() > 0 && content[0] == '/' {
        match first_index_from(content, ' ', 0) {
            Some(k) => {
                assert(content.take(k + 1) =~= content.take(k) + seq![' ']);
                crate::text::lemma_byte_len_concat(content.take(k), seq![' ']);
                lemma_ascii_bytes(seq![' ']);
            },
            None => {
                assert(content.take(0) =~= Seq::<char>::empty());
            },
        }
    } else {
        assert(content.take(0) =~= Seq::<char>::empty());
    }
}

fn first_space(v: &Vec<char>) -> (r: Option<usize>)
    ensures
        match r {
            Some(k) => first_index_from(v@, ' ', 0) == Some(k as int) && k < v.len(),
            None => first_index_from(v@, ' ', 0) is None,
        },
{
    let mut i: usize = 0;
    while i < v.len()
        invariant
            i <= v.len(),
            first_index_from(v@, ' ', 0) == first_index_from(v@, ' ', i as int),
        decreases v.len() - i,
    {
        if v[i] == ' ' {
            return Some(i);
        }
        i = i + 1;
    }
    None
}

impl Editor {
    /// A line that is exactly `---`.
    pub fn is_separator_line(line: &str) -> (r: bool)
        ensures
            r == (line@ == seq!['-', '-', '-']),
    {
        let v = chars_of(line);
        let d = vec!['-', '-', '-'];
        assert(d@ =~= seq!['-', '-', '-']);
        chars_eq(&v, &d)
    }

    /// After its indentation, the line starts with `- [ ]`.
    pub fn is_unchecked_checkbox(line: &str) -> (r: bool)
        ensures
            r == has_prefix(trim_start(line@), seq!['-', ' ', '[', ' ', ']']),
    {
        let t = trim_start_of(&chars_of(line));
        let p = vec!['-', ' ', '[', ' ', ']'];
        assert(p@ =~= seq!['-', ' ', '[', ' ', ']']);
        assert(t@.skip(0) =~= t@);
        has_prefix_at(&t, 0, &p)
    }

    /// After its indentation, the line starts with `- [x]`.
    pub fn is_checked_checkbox(line: &str) -> (r: bool)
        ensures
            r == has_prefix(trim_start(line@), seq!['-', ' ', '[', 'x', ']']),
    {
        let t = trim_start_of(&chars_of(line));
        let p = vec!['-', ' ', '[', 'x', ']'];
        assert(p@ =~= seq!['-', ' ', '[', 'x', ']']);
        assert(t@.skip(0) =~= t@);
        has_prefix_at(&t, 0, &p)
    }

    /// The bytes and the columns of the prefix of `line` that stays in
    /// view.
    pub fn get_prefix_info(&self, line: &str) -> (r: (usize, usize))
        requires
            byte_len(line@) + 8 <= usize::MAX,
        ensures
            r.0 == prefix_len(line@),
            r.1 == width_before(line@, r.0 as int),
    {
        let v = chars_of(line);
        let _ = crate::text::str_byte_len(line);
        let lw = leading_ws_count(&v);
        proof {
            lemma_leading_ws_facts(v@);
            crate::text::lemma_byte_len_take_strict(v@, lw as int, v.len() as int);
            assert(v@ =~= v@.take(lw as int) + v@.skip(lw as int));
            crate::text::lemma_byte_len_concat(v@.take(lw as int), v@.skip(lw as int));
        }
        let byte_pos = byte_offset_of(&v, lw);
        let after = chars_of(crate::text::string_of_range(&v, lw, v.len()).as_str());
        assert(after@ =~= v@.skip(lw as int));
        let hash = vec!['#', ' '];
        assert(hash@ =~= seq!['#', ' ']);
        assert(after@.skip(0) =~= after@);
        let cp: usize = if has_prefix_at(&after, 0, &hash) {
            2
        } else {
            0
        };
        proof {
            if cp == 2 {
                assert(after@.take(2) =~= seq!['#', ' ']);
            }
        }
        let content = chars_of(crate::text::string_of_range(&after, if cp <= after.len() {
            cp
        } else {
            after.len()
        }, after.len()).as_str());
        assert(content@ =~= after@.skip(cp as int));
        let a = vec!['-', ' ', '[', ' ', ']', ' '];
        let b = vec!['-', ' ', '[', 'x', ']', ' '];
        let p = vec!['-', ' '];
        assert(a@ =~= seq!['-', ' ', '[', ' ', ']', ' ']);
        assert(b@ =~= seq!['-', ' ', '[', 'x', ']', ' ']);
        assert(p@ =~= seq!['-', ' ']);
        assert(content@.skip(0) =~= content@);
        proof {
            crate::text::lemma_byte_len_take_strict(after@, cp as int, after.len() as int);
            assert(after@ =~= after@.take(cp as int) + after@.skip(cp as int));
            crate::text::lemma_byte_len_concat(after@.take(cp as int), after@.skip(cp as int));
        }
        let marker: usize = if has_prefix_at(&content, 0, &a) || has_prefix_at(&content, 0, &b) {
            6
        } else if has_prefix_at(&content, 0, &p) {
            2
        } else if content.len() > 0 && content[0] == '/' {
            match first_space(&content) {
                Some(k) => {
                    proof {
                        crate::text::lemma_byte_len_take_strict(content@, k as int, content.len() as int);
                    }
                    byte_offset_of(&content, k) + 1
                },
                None => 0,
            }
        } else {
            0
        };
        let len = byte_pos + cp + marker;
        let w = self.scroll.get_display_width(line, len);
        (len, w)
    }

    /// Scrolls so that the cursor is visible: rows keep the cursor line on
    /// screen (above the task list in task selection), and columns keep
    /// the cursor ten columns from the right edge once the line scrolls;
    /// the prefix of the line never scrolls.
    pub fn scroll(&mut self)
        requires
            old(self).cursor_y < old(self).document.lines.len(),
            old(self).scroll.row_offset + old(self).scroll.screen_rows <= usize::MAX,
            byte_len(old(self).text()[old(self).cursor_y as int]) + 8 <= usize::MAX,
        ensures
            scroll_done(*old(self), *final(self)),
    {
        let (r, c) = self.scroll_target();
        self.scroll.row_offset = r;
        self.scroll.col_offset = c;
    }

    fn scroll_target(&self) -> (t: (usize, usize))
        requires
            self.cursor_y < self.document.lines.len(),
            self.scroll.row_offset + self.scroll.screen_rows <= usize::MAX,
            byte_len(self.text()[self.cursor_y as int]) + 8 <= usize::MAX,
        ensures
            t.0 == scrolled_row_offset(*self),
            t.1 == scrolled_col_offset(*self),
    {
        let mut row_offset = self.scroll.row_offset;
        let rows = self.scroll.screen_rows;
        let base = if rows >= 2 {
            rows - 2
        } else {
            0
        };
        let visible = if self.mode == EditorMode::TaskSelection {
            let h = self.task_ui_height();
            if base >= h {
                base - h
            } else {
                0
            }
        } else {
            base
        };
        let cy = self.cursor_y;
        if cy < row_offset {
            row_offset = cy;
        }
        if cy >= row_offset + visible {
            row_offset = cy - visible + 1;
        }
        let scroll_margin: usize = 10;
        let screen_width = self.scroll.screen_cols;
        let (prefix_byte_len, prefix_display_width) = self.get_prefix_info(
            self.document.lines[cy].as_str(),
        );
        let display_cursor_x = self.scroll.get_display_width(
            self.document.lines[cy].as_str(),
            self.cursor_x,
        );
        let col_offset = if self.cursor_x < prefix_byte_len {
            0
        } else {
            let content_x = if display_cursor_x >= prefix_display_width {
                display_cursor_x - prefix_display_width
            } else {
                0
            };
            let available_width = if screen_width >= prefix_display_width {
                screen_width - prefix_display_width
            } else {
                0
            };
            let m = if scroll_margin < available_width {
                scroll_margin
            } else {
                available_width
            };
            let will_be_scrolled = self.scroll.col_offset > 0 || content_x >= available_width - m;
            let ellipsis_width = if will_be_scrolled {
                match char_width('\u{2026}') {
                    Some(w) => w,
                    None => 0,
                }
            } else {
                0
            };
            let available_content_width = if available_width >= ellipsis_width {
                available_width - ellipsis_width
            } else {
                0
            };
            let desired = if available_content_width > scroll_margin {
                available_content_width - scroll_margin
            } else {
                available_content_width
            };
            if will_be_scrolled {
                if content_x >= desired {
                    content_x - desired
                } else {
                    0
                }
            } else {
                0
            }
        };
        (row_offset, col_offset)
    }
}

/// What `Editor::scroll` does.
/// The first visible row once `e` scrolls to its cursor: the cursor line
/// stays on screen (above the task list in task selection mode).
pub open spec fn scrolled_row_offset(e: Editor) -> int {
    let rows = e.scroll.screen_rows;
    let base: int = if rows >= 2 {
        rows - 2
    } else {
        0
    };
    let h = crate::editor::task::task_list_height(rows);
    let visible: int = if e.mode == EditorMode::TaskSelection {
        if base >= h {
            base - h
        } else {
            0
        }
    } else {
        base
    };
    row_offset_for(e.scroll.row_offset, e.cursor_y, visible as usize)
}

/// The columns of the cursor line's content scrolled out of view once `e`
/// scrolls to its cursor: none while the cursor is in the prefix, and
/// otherwise what keeps the cursor ten columns from the right edge.
pub open spec fn scrolled_col_offset(e: Editor) -> int {
    let line = e.text()[e.cursor_y as int];
    let pb = prefix_len(line);
    let pw = width_before(line, pb) as int;
    let dx = width_before(line, e.cursor_x as int) as int;
    let cx: int = if dx >= pw {
        dx - pw
    } else {
        0
    };
    let cols = e.scroll.screen_cols as int;
    let avail: int = if cols >= pw {
        cols - pw
    } else {
        0
    };
    let ell = match unicode_width('\u{2026}') {
        Some(w) => w as int,
        None => 0,
    };
    if e.cursor_x < pb {
        0
    } else {
        col_offset_for(e.scroll.col_offset as int, cx, avail, ell)
    }
}

/// What `Editor::scroll` does: only the scroll position changes.
pub open spec fn scroll_done(before: Editor, after: Editor) -> bool {
    after == (Editor {
        scroll: Scroll {
            row_offset: scrolled_row_offset(before) as usize,
            col_offset: scrolled_col_offset(before) as usize,
            ..before.scroll
        },
        ..before
    })
}

} // verus!
