//! What the screen shows: the cells of a frame, each a piece of text or a
//! line-drawing character at a row and a column, and where the cursor is.
//! Painting the cells is left to the terminal.
use crate::editor::scroll::STATUS_BAR_HEIGHT;
use crate::editor::state::Editor;
use crate::editor::selection::ordered_range;
use crate::editor::fuzzy_search::FuzzySearch;
use crate::editor::state::EditorMode;
use crate::editor::task::task_list_height;
use crate::editor::ui::{lemma_prefix_chars, prefix_chars, prefix_len, scroll_done};
use crate::lines::{has_prefix, trim_start};
use crate::text::{
    byte_len, char_columns, char_index, char_index_of, char_utf8_width, char_width, column_stop,
    columns_of, decimal, decimal_string, display_width, position_for_column, saturate,
    unicode_width, utf8_width, width_before,
};
use vstd::prelude::*;

verus! {

broadcast use vstd::string::group_string_axioms;

/// How a piece of the screen is drawn.
#[derive(Clone, Copy, PartialEq, Eq, Structural, Debug)]
pub struct Look {
    pub dim: bool,
    pub bold: bool,
    pub reverse: bool,
}

/// What a cell holds: text, or the horizontal line character.
#[derive(Clone, Debug)]
pub enum Glyph {
    Text(String),
    HLine,
}

/// A glyph put on the screen at a row and a column.
#[derive(Clone, Debug)]
pub struct Cell {
    pub row: usize,
    pub col: usize,
    pub glyph: Glyph,
    pub look: Look,
}

/// A cell as a value: its text is `None` for the horizontal line.
pub struct CellView {
    pub row: int,
    pub col: int,
    pub text: Option<Seq<char>>,
    pub look: Look,
}

impl View for Cell {
    type V = CellView;

    open spec fn view(&self) -> CellView {
        CellView {
            row: self.row as int,
            col: self.col as int,
            text: match self.glyph {
                Glyph::Text(s) => Some(s@),
                Glyph::HLine => None,
            },
            look: self.look,
        }
    }
}

/// The views of a sequence of cells.
pub open spec fn cells_view(v: Seq<Cell>) -> Seq<CellView> {
    Seq::new(v.len(), |i: int| v[i]@)
}

/// What the screen shows: cells painted in order (a later one over an
/// earlier one), and the cursor's row and column.
pub struct Frame {
    pub cells: Vec<Cell>,
    pub cursor: (usize, usize),
}

/// The plain look.
pub open spec fn plain() -> Look {
    Look { dim: false, bold: false, reverse: false }
}

/// A cell of text.
pub open spec fn text_cell(row: int, col: int, text: Seq<char>, look: Look) -> CellView {
    CellView { row, col, text: Some(text), look }
}

/// A horizontal line character.
pub open spec fn hline_cell(row: int, col: int, look: Look) -> CellView {
    CellView { row, col, text: None, look }
}

/// The horizontal line across columns `0..cols` of `row`.
pub open spec fn hline_row(row: int, cols: int, look: Look) -> Seq<CellView> {
    Seq::new(cols as nat, |i: int| hline_cell(row, i, look))
}

/// Columns that `unicode-width` gives a string.
pub uninterp spec fn unicode_str_width(s: Seq<char>) -> usize;

/// Display width of a string, by `unicode_width::UnicodeWidthStr::width`.
/// Claimed: the width depends on the string alone.
#[verifier::external_body]
pub(crate) fn str_width(s: &str) -> (w: usize)
    ensures
        w == unicode_str_width(s@),
{
    unicode_width::UnicodeWidthStr::width(s)
}

/// Columns of a text counted character by character, a character without
/// a width counting none (up to the largest `usize`).
pub open spec fn plain_width(s: Seq<char>) -> nat
    decreases s.len(),
{
    if s.len() == 0 {
        0
    } else {
        let w = plain_width(s.drop_last()) + match unicode_width(s.last()) {
            Some(n) => n as nat,
            None => 0,
        };
        if w > usize::MAX {
            usize::MAX as nat
        } else {
            w
        }
    }
}

fn plain_width_of(s: &str) -> (w: usize)
    ensures
        w == plain_width(s@),
{
    let v = crate::text::chars_of(s);
    let mut w: usize = 0;
    let mut i: usize = 0;
    assert(v@.take(0) =~= Seq::<char>::empty());
    while i < v.len()
        invariant
            i <= v.len(),
            w == plain_width(v@.take(i as int)),
        decreases v.len() - i,
    {
        let n = match char_width(v[i]) {
            Some(n) => n,
            None => 0,
        };
        assert(v@.take(i + 1).drop_last() =~= v@.take(i as int));
        w = w.saturating_add(n);
        i = i + 1;
    }
    assert(v@.take(v.len() as int) =~= v@);
    w
}

/// The name shown in the status bar: the file name, or `[No Name]`, with a
/// `*` when the document is dirty.
pub open spec fn shown_name(e: Editor) -> Seq<char> {
    let name = match e.document.filename {
        Some(f) => f@,
        None => "[No Name]"@,
    };
    let dirty = e.document.filename is None || e.document.text() != e.document.original_lines();
    name + if dirty {
        "*"@
    } else {
        ""@
    }
}

/// The status bar: the name in bold, the number of lines after it, the
/// status message at the right end, and a dim line under them.
pub open spec fn status_cells(e: Editor, cols: int) -> Seq<CellView> {
    let name = shown_name(e);
    let bold = Look { dim: false, bold: true, reverse: false };
    let dim = Look { dim: true, bold: false, reverse: false };
    let count = " - "@ + decimal(e.document.lines@.len()) + " lines"@;
    let msg = e.status_message@;
    let msg_col = if cols >= plain_width(msg) {
        cols - plain_width(msg)
    } else {
        0
    };
    seq![text_cell(0, 0, name, bold)] + hline_row(STATUS_BAR_HEIGHT - 1, cols, dim) + seq![
        text_cell(0, plain_width(name) as int, count, plain()),
    ] + if msg.len() > 0 {
        seq![text_cell(0, msg_col, msg, plain())]
    } else {
        Seq::empty()
    }
}

/// The look of a line: dim for a comment or a checked task, bold for an
/// unchecked task.
pub open spec fn line_look(line: Seq<char>) -> Look {
    let t = trim_start(line);
    Look {
        dim: (t.len() > 0 && t[0] == '#') || has_prefix(t, seq!['-', ' ', '[', 'x', ']']),
        bold: has_prefix(t, seq!['-', ' ', '[', ' ', ']']),
        reverse: false,
    }
}

/// The byte at offset `byte` of line `index` is part of a search match.
pub open spec fn is_highlighted(e: Editor, index: int, byte: int) -> bool {
    &&& e.search.mode
    &&& exists|j: int|
        0 <= j < e.search.results@.len() && (#[trigger] e.search.results@[j]).0 == index
            && e.search.results@[j].1 <= byte < e.search.results@[j].1 + byte_len(
            e.search.query@,
        )
}

/// The byte at offset `byte` of line `index` is in the selection.
pub open spec fn is_selected(e: Editor, index: int, byte: int) -> bool {
    match e.selection.marker_pos {
        None => false,
        Some(m) => {
            let (s, t) = ordered_range(m, (e.cursor_x, e.cursor_y));
            if s.1 <= index <= t.1 {
                if index == s.1 && index == t.1 {
                    s.0 <= byte < t.0
                } else if index == s.1 {
                    byte >= s.0
                } else if index == t.1 {
                    byte < t.0
                } else {
                    true
                }
            } else {
                false
            }
        },
    }
}

/// What a character is drawn as when it takes `cw` columns: a tab as
/// spaces, any other character as itself.
pub open spec fn glyph_text(ch: char, cw: nat) -> Seq<char> {
    if ch == '\t' {
        Seq::new(cw, |i: int| ' ')
    } else {
        seq![ch]
    }
}

/// How a line is laid out on its row.
pub struct LineCtx {
    pub row: int,
    pub index: int,
    /// Bytes of the prefix, which never scrolls.
    pub pb: int,
    /// The columns of content scrolled out of view.
    pub off: int,
    /// The first byte of content shown.
    pub start: int,
    pub cols: int,
    /// The ellipsis shown where content is scrolled out, and its width.
    pub ell: Seq<char>,
    pub ell_w: int,
    pub look: Look,
}

/// The cells of the characters of `s` from the `k`-th on, starting at byte
/// `byte`, screen column `sx` and display column `cur`; `ell_done` says
/// whether the ellipsis was placed. Drawing stops at the right edge.
pub open spec fn line_from(
    e: Editor,
    s: Seq<char>,
    k: int,
    byte: int,
    sx: int,
    cur: nat,
    ell_done: bool,
    c: LineCtx,
) -> Seq<CellView>
    decreases s.len() - k,
{
    if k < 0 || k >= s.len() || sx >= c.cols {
        Seq::empty()
    } else {
        let ch = s[k];
        let in_prefix = byte < c.pb;
        let ell_now = !in_prefix && !ell_done && c.off > 0;
        let fits = ell_now && sx + c.ell_w <= c.cols;
        let ell_cells = if fits {
            seq![text_cell(c.row, sx, c.ell, c.look)]
        } else {
            Seq::empty()
        };
        let sx1 = if fits {
            sx + c.ell_w
        } else {
            sx
        };
        let draw = in_prefix || byte >= c.start;
        let cw = char_columns(ch, cur);
        if draw && sx1 + cw > c.cols {
            ell_cells
        } else {
            let rev = is_highlighted(e, c.index, byte) || is_selected(e, c.index, byte);
            let me = if draw {
                seq![
                    text_cell(
                        c.row,
                        sx1,
                        glyph_text(ch, cw),
                        Look { dim: c.look.dim, bold: c.look.bold, reverse: rev },
                    ),
                ]
            } else {
                Seq::empty()
            };
            ell_cells + me + line_from(
                e,
                s,
                k + 1,
                byte + utf8_width(ch),
                if draw {
                    sx1 + cw
                } else {
                    sx1
                },
                saturate(cur + cw),
                ell_done || ell_now,
                c,
            )
        }
    }
}

/// The layout of line `index` on `row`, `cols` columns wide, with `off`
/// columns of its content scrolled out of view.
pub open spec fn line_ctx(e: Editor, index: int, row: int, cols: int, off: int) -> LineCtx {
    let s = e.text()[index];
    let pb = prefix_len(s);
    let content = s.skip(prefix_chars(s));
    let k = column_stop(content, off);
    let cb = byte_len(content.take(k)) as int;
    let wide = off > 0 && display_width(content.take(k)) < off;
    let start = pb + cb + if wide && k < content.len() {
        utf8_width(content[k]) as int
    } else {
        0
    };
    let ell = if wide {
        "\u{2026} "@
    } else {
        "\u{2026}"@
    };
    LineCtx {
        row,
        index,
        pb,
        off,
        start,
        cols,
        ell,
        ell_w: unicode_str_width(ell) as int,
        look: line_look(s),
    }
}

/// The cells of line `index` drawn on `row`: a separator line `---` as a
/// horizontal line (dim after its first three columns), any other line
/// character by character.
pub open spec fn line_cells(e: Editor, index: int, row: int, cols: int, off: int) -> Seq<CellView> {
    let s = e.text()[index];
    if s == seq!['-', '-', '-'] {
        Seq::new(
            cols as nat,
            |i: int|
                hline_cell(
                    row,
                    i,
                    if i < 3 {
                        plain()
                    } else {
                        Look { dim: true, bold: false, reverse: false }
                    },
                ),
        )
    } else {
        line_from(e, s, 0, 0, 0, 0, false, line_ctx(e, index, row, cols, off))
    }
}

/// `a - b`, or 0 when `b` is larger.
pub open spec fn sub0(a: int, b: int) -> int {
    if a >= b {
        a - b
    } else {
        0
    }
}

/// The smaller of two integers.
pub open spec fn min_of(a: int, b: int) -> int {
    if a <= b {
        a
    } else {
        b
    }
}

/// The first match shown in the fuzzy search list when `sel` is selected,
/// `h` rows fit, and `off` was the first shown: the list moves just enough
/// to show the selection.
pub open spec fn fuzzy_first(sel: usize, off: usize, h: int) -> int {
    let o1: int = if sel < off {
        sel as int
    } else {
        off as int
    };
    if sel >= o1 + h {
        sel - h + 1
    } else {
        o1
    }
}

/// The row of the fuzzy search list for match `i`, on screen row `row`:
/// its line number (from 1), a colon and the line, reversed when selected.
pub open spec fn fuzzy_row(e: Editor, i: int, row: int) -> CellView {
    let m = e.fuzzy_search.matches@[i];
    text_cell(
        row,
        0,
        decimal(saturate((m.1 + 1) as nat)) + ": "@ + m.0@,
        Look { dim: false, bold: false, reverse: i == e.fuzzy_search.selected_index },
    )
}

/// The first `n` rows of the fuzzy search list.
pub open spec fn fuzzy_rows(e: Editor, n: int) -> Seq<CellView>
    decreases n,
{
    if n <= 0 {
        Seq::empty()
    } else {
        fuzzy_rows(e, n - 1) + seq![fuzzy_row(e, e.fuzzy_search.scroll_offset + n - 1, n - 1)]
    }
}

/// The prompt of the fuzzy search.
pub open spec fn fuzzy_prompt(e: Editor) -> Seq<char> {
    "FUZZY SEARCH: "@ + e.fuzzy_search.query@
}

/// How many matches of the fuzzy search list are shown on `rows` rows.
pub open spec fn fuzzy_shown(e: Editor, rows: int) -> int {
    let off = e.fuzzy_search.scroll_offset as int;
    let len = e.fuzzy_search.matches@.len() as int;
    if off < len {
        min_of(rows - 1, len - off)
    } else {
        0
    }
}

/// The fuzzy search screen: the list of matches and, on the last row, the
/// prompt.
pub open spec fn fuzzy_cells(e: Editor, rows: int) -> Seq<CellView> {
    fuzzy_rows(e, fuzzy_shown(e, rows)) + seq![text_cell(rows - 1, 0, fuzzy_prompt(e), plain())]
}

/// The first screen row of the task list on a screen of `rows` rows.
pub open spec fn task_top(e: Editor, rows: int) -> int {
    sub0(rows, task_list_height(e.scroll.screen_rows) as int)
}

/// The first `n` rows of the task list, from the first shown task on,
/// starting at screen row `top`.
pub open spec fn task_rows(e: Editor, top: int, n: int) -> Seq<CellView>
    decreases n,
{
    if n <= 0 {
        Seq::empty()
    } else {
        let i = e.task.task_display_offset + n - 1;
        task_rows(e, top, n - 1) + seq![
            text_cell(
                top + n - 1,
                0,
                e.task.tasks@[i].1@,
                Look { dim: false, bold: false, reverse: e.task.selected_task_index == Some(i as usize) },
            ),
        ]
    }
}

/// How many tasks the task list shows.
pub open spec fn tasks_shown(e: Editor) -> int {
    let off = e.task.task_display_offset as int;
    let len = e.task.tasks@.len() as int;
    if off < len {
        min_of(task_list_height(e.scroll.screen_rows) as int, len - off)
    } else {
        0
    }
}

/// In task selection mode, the task list at the bottom of the screen with a
/// dim line above it; nothing otherwise.
pub open spec fn task_cells(e: Editor, rows: int, cols: int) -> Seq<CellView> {
    if e.mode == EditorMode::TaskSelection {
        let top = task_top(e, rows);
        task_rows(e, top, tasks_shown(e)) + if top >= 1 {
            hline_row(top - 1, cols, Look { dim: true, bold: false, reverse: false })
        } else {
            Seq::empty()
        }
    } else {
        Seq::empty()
    }
}

/// The screen rows below which the document is not drawn.
pub open spec fn doc_end(e: Editor, rows: int) -> int {
    if e.mode == EditorMode::TaskSelection {
        sub0(task_top(e, rows), 1)
    } else {
        rows
    }
}

/// The columns of line `index` scrolled out of view: only the cursor line
/// scrolls sideways.
pub open spec fn line_offset(e: Editor, index: int) -> int {
    if index == e.cursor_y {
        e.scroll.col_offset as int
    } else {
        0
    }
}

/// The first `n` lines of the document shown, from the first visible line
/// on, below the status bar.
pub open spec fn doc_rows(e: Editor, cols: int, n: int) -> Seq<CellView>
    decreases n,
{
    if n <= 0 {
        Seq::empty()
    } else {
        let index = e.scroll.row_offset + n - 1;
        doc_rows(e, cols, n - 1) + line_cells(
            e,
            index,
            STATUS_BAR_HEIGHT + n - 1,
            cols,
            line_offset(e, index),
        )
    }
}

/// How many lines of the document are shown on `rows` rows.
pub open spec fn lines_shown(e: Editor, rows: int) -> int {
    let ro = e.scroll.row_offset as int;
    let len = e.document.lines@.len() as int;
    if ro < len {
        min_of(len - ro, sub0(doc_end(e, rows), STATUS_BAR_HEIGHT as int))
    } else {
        0
    }
}

/// The screen column of the cursor: within the prefix, its display column;
/// in the content, after the prefix, the ellipsis and the scrolled-out
/// columns.
pub open spec fn cursor_col(e: Editor) -> int {
    let line = e.text()[e.cursor_y as int];
    let pb = prefix_len(line);
    let pw = width_before(line, pb) as int;
    let dx = width_before(line, e.cursor_x as int) as int;
    if e.cursor_x < pb {
        dx
    } else {
        let off = e.scroll.col_offset as int;
        let content = line.skip(prefix_chars(line));
        let dp = display_width(content.take(column_stop(content, off))) as int;
        let wide = off > 0 && dp < off;
        let eff = if wide {
            off + 1
        } else {
            off
        };
        let ell: int = if off > 0 {
            if wide {
                2
            } else {
                1
            }
        } else {
            0
        };
        saturate((pw + ell + sub0(sub0(dx, pw), eff)) as nat) as int
    }
}

/// The frame of an editor not in fuzzy search mode, on a screen of `rows`
/// rows and `cols` columns.
pub open spec fn normal_frame(e: Editor, rows: int, cols: int) -> (Seq<CellView>, (int, int)) {
    (
        task_cells(e, rows, cols) + doc_rows(e, cols, lines_shown(e, rows)) + status_cells(e, cols),
        (
            saturate((sub0(e.cursor_y as int, e.scroll.row_offset as int) + STATUS_BAR_HEIGHT) as nat)
                as int,
            cursor_col(e),
        ),
    )
}

/// Every line of the document and its position fit in a `usize` with room
/// to spare.
pub open spec fn lines_fit(e: Editor) -> bool {
    forall|i: int| 0 <= i < e.text().len() ==> byte_len(#[trigger] e.text()[i]) + 8 <= usize::MAX
}

fn push_hline_row(cells: &mut Vec<Cell>, row: usize, cols: usize, look: Look)
    ensures
        cells_view(final(cells)@) == cells_view(old(cells)@) + hline_row(row as int, cols as int, look),
{
    let ghost start = cells_view(cells@);
    let mut i: usize = 0;
    while i < cols
        invariant
            i <= cols,
            cells_view(cells@) == start + hline_row(row as int, i as int, look),
        decreases cols - i,
    {
        let ghost before = cells@;
        cells.push(Cell { row, col: i, glyph: Glyph::HLine, look });
        assert(cells_view(cells@) =~= cells_view(before) + seq![hline_cell(row as int, i as int, look)]);
        assert(hline_row(row as int, i + 1, look) =~= hline_row(row as int, i as int, look) + seq![
            hline_cell(row as int, i as int, look),
        ]);
        i = i + 1;
    }
}

fn push_text(cells: &mut Vec<Cell>, row: usize, col: usize, text: String, look: Look)
    ensures
        cells_view(final(cells)@) == cells_view(old(cells)@) + seq![
            text_cell(row as int, col as int, text@, look),
        ],
{
    let ghost before = cells@;
    cells.push(Cell { row, col, glyph: Glyph::Text(text), look });
    assert(cells_view(cells@) =~= cells_view(before) + seq![
        text_cell(row as int, col as int, text@, look),
    ]);
}

fn spaces(n: usize) -> (r: String)
    ensures
        r@ == Seq::new(n as nat, |i: int| ' '),
{
    let mut r = String::new();
    let mut i: usize = 0;
    while i < n
        invariant
            i <= n,
            r@ == Seq::new(i as nat, |j: int| ' '),
        decreases n - i,
    {
        crate::text::push_char(&mut r, ' ');
        assert(r@ =~= Seq::new((i + 1) as nat, |j: int| ' '));
        i = i + 1;
    }
    r
}

impl Editor {
    fn is_highlighted_at(&self, index: usize, byte: usize) -> (r: bool)
        ensures
            r == is_highlighted(*self, index as int, byte as int),
    {
        if !self.search.mode {
            return false;
        }
        let q = crate::text::str_byte_len(self.search.query.as_str());
        let mut j: usize = 0;
        while j < self.search.results.len()
            invariant
                j <= self.search.results@.len(),
                self.search.mode,
                q == byte_len(self.search.query@),
                forall|i: int|
                    0 <= i < j ==> !((#[trigger] self.search.results@[i]).0 == index
                        && self.search.results@[i].1 <= byte < self.search.results@[i].1 + q),
            decreases self.search.results.len() - j,
        {
            let (r, c) = self.search.results[j];
            if r == index && c <= byte && byte - c < q {
                assert(self.search.results@[j as int].0 == index);
                assert(self.search.results@[j as int].1 <= byte < self.search.results@[j as int].1 + q);
                return true;
            }
            j = j + 1;
        }
        false
    }

    fn is_selected_at(&self, index: usize, byte: usize) -> (r: bool)
        ensures
            r == is_selected(*self, index as int, byte as int),
    {
        match self.selection.get_selection_range((self.cursor_x, self.cursor_y)) {
            None => false,
            Some((s, t)) => {
                if s.1 <= index && index <= t.1 {
                    if index == s.1 && index == t.1 {
                        s.0 <= byte && byte < t.0
                    } else if index == s.1 {
                        byte >= s.0
                    } else if index == t.1 {
                        byte < t.0
                    } else {
                        true
                    }
                } else {
                    false
                }
            },
        }
    }

    fn line_look_of(v: &Vec<char>, line: &str) -> (l: Look)
        requires
            v@ == line@,
        ensures
            l == line_look(line@),
    {
        let t = crate::lines::trim_start_of(v);
        let comment = t.len() > 0 && t[0] == '#';
        let checked = Editor::is_checked_checkbox(line);
        let unchecked = Editor::is_unchecked_checkbox(line);
        Look { dim: comment || checked, bold: unchecked, reverse: false }
    }

    /// Puts the cells of line `index` on `row`.
    #[verifier::rlimit(40)]
    fn push_line(&self, cells: &mut Vec<Cell>, index: usize, row: usize, cols: usize, off: usize)
        requires
            index < self.document.lines.len(),
            byte_len(self.text()[index as int]) + 8 <= usize::MAX,
        ensures
            cells_view(final(cells)@) == cells_view(old(cells)@) + line_cells(
                *self,
                index as int,
                row as int,
                cols as int,
                off as int,
            ),
    {
        let line = self.document.lines[index].as_str();
        let v = self.document.line_chars(index);
        let ghost s = v@;
        let ghost base = cells_view(cells@);
        if Editor::is_separator_line(line) {
            let mut i: usize = 0;
            while i < cols
                invariant
                    i <= cols,
                    cells_view(cells@) == base + Seq::new(
                        i as nat,
                        |j: int|
                            hline_cell(
                                row as int,
                                j,
                                if j < 3 {
                                    plain()
                                } else {
                                    Look { dim: true, bold: false, reverse: false }
                                },
                            ),
                    ),
                decreases cols - i,
            {
                let look = if i < 3 {
                    Look { dim: false, bold: false, reverse: false }
                } else {
                    Look { dim: true, bold: false, reverse: false }
                };
                let ghost before = cells@;
                cells.push(Cell { row, col: i, glyph: Glyph::HLine, look });
                assert(cells_view(cells@) =~= cells_view(before) + seq![
                    hline_cell(row as int, i as int, look),
                ]);
                i = i + 1;
                assert(cells_view(cells@) =~= base + Seq::new(
                    i as nat,
                    |j: int|
                        hline_cell(
                            row as int,
                            j,
                            if j < 3 {
                                plain()
                            } else {
                                Look { dim: true, bold: false, reverse: false }
                            },
                        ),
                ));
            }
            return;
        }
        let (pb, _) = self.get_prefix_info(line);
        proof {
            lemma_prefix_chars(s);
            crate::text::lemma_char_index_unique(s, prefix_chars(s));
        }
        let pc = char_index_of(&v, pb).unwrap();
        let content = crate::document::copy_range(&v, pc, v.len());
        assert(content@ =~= s.skip(prefix_chars(s)));
        proof {
            assert(s =~= s.take(pc as int) + content@);
            crate::text::lemma_byte_len_concat(s.take(pc as int), content@);
        }
        let (cb, dp) = position_for_column(&content, off);
        let ghost kk = column_stop(content@, off as int);
        proof {
            crate::text::lemma_char_index_unique(content@, kk);
            crate::text::lemma_byte_len_take_strict(content@, kk, content@.len() as int);
        }
        let k = char_index_of(&content, cb).unwrap();
        assert(k == kk);
        let wide = off > 0 && dp < off;
        let start = if wide && k < content.len() {
            proof {
                crate::text::lemma_byte_len_take_succ(content@, k as int);
                crate::text::lemma_byte_len_take_strict(content@, k + 1, content@.len() as int);
            }
            pb + cb + char_utf8_width(content[k])
        } else {
            pb + cb
        };
        let ell: &str = if wide {
            "\u{2026} "
        } else {
            "\u{2026}"
        };
        let ell_w = str_width(ell);
        let look = Editor::line_look_of(&v, line);
        let ghost c = line_ctx(*self, index as int, row as int, cols as int, off as int);
        assert(c.pb == pb && c.start == start && c.ell == ell@ && c.ell_w == ell_w && c.look == look);
        let ghost total = line_from(*self, s, 0, 0, 0, 0, false, c);
        let mut i: usize = 0;
        let mut byte: usize = 0;
        let mut sx: usize = 0;
        let mut cur: usize = 0;
        let mut ell_done = false;
        assert(s.take(0) =~= Seq::<char>::empty());
        loop
            invariant
                i <= v.len(),
                s == v@,
                s == self.text()[index as int],
                byte_len(s) + 8 <= usize::MAX,
                byte == byte_len(s.take(i as int)),
                sx <= cols,
                c == line_ctx(*self, index as int, row as int, cols as int, off as int),
                c.pb == pb && c.start == start && c.ell == ell@ && c.ell_w == ell_w && c.look
                    == look,
                c.off == off && c.cols == cols && c.row == row && c.index == index,
                line_cells(*self, index as int, row as int, cols as int, off as int) == total,
                cells_view(cells@) + line_from(*self, s, i as int, byte as int, sx as int, cur as nat, ell_done, c)
                    == base + total,
            ensures
                cells_view(cells@) == base + total,
            decreases v.len() - i,
        {
            if i >= v.len() || sx >= cols {
                assert(line_from(*self, s, i as int, byte as int, sx as int, cur as nat, ell_done, c) =~= Seq::<CellView>::empty());
                assert(cells_view(cells@) =~= base + total);
                break;
            }
            let ghost st = line_from(*self, s, i as int, byte as int, sx as int, cur as nat, ell_done, c);
            let ghost cells0 = cells_view(cells@);
            let ch = v[i];
            let in_prefix = byte < pb;
            let ell_now = !in_prefix && !ell_done && off > 0;
            let fits = ell_now && ell_w <= cols && sx <= cols - ell_w;
            if fits {
                push_text(cells, row, sx, ell.to_string(), look);
                sx = sx + ell_w;
            }
            let ghost cells1 = cells_view(cells@);
            if ell_now {
                ell_done = true;
            }
            let draw = in_prefix || byte >= start;
            let cw = columns_of(ch, cur);
            if draw && (cw > cols || sx > cols - cw) {
                assert(cells_view(cells@) =~= base + total);
                break;
            }
            proof {
                crate::text::lemma_byte_len_take_succ(s, i as int);
                crate::text::lemma_byte_len_take_strict(s, i + 1, s.len() as int);
            }
            if draw {
                let rev = self.is_highlighted_at(index, byte) || self.is_selected_at(index, byte);
                let text = if ch == '\t' {
                    spaces(cw)
                } else {
                    crate::text::string_of(&vec![ch])
                };
                assert(text@ =~= glyph_text(ch, cw as nat));
                push_text(cells, row, sx, text, Look { dim: look.dim, bold: look.bold, reverse: rev });
                sx = sx + cw;
            }
            cur = cur.saturating_add(cw);
            byte = byte + char_utf8_width(ch);
            i = i + 1;
            assert(cells_view(cells@) + line_from(*self, s, i as int, byte as int, sx as int, cur as nat, ell_done, c)
                =~= base + total);
        }
    }
}

impl Editor {
    fn push_fuzzy_rows(&self, cells: &mut Vec<Cell>, n: usize)
        requires
            n == 0 || self.fuzzy_search.scroll_offset + n <= self.fuzzy_search.matches.len(),
        ensures
            cells_view(final(cells)@) == cells_view(old(cells)@) + fuzzy_rows(*self, n as int),
    {
        let ghost base = cells_view(cells@);
        let mut j: usize = 0;
        while j < n
            invariant
                j <= n,
                n == 0 || self.fuzzy_search.scroll_offset + n <= self.fuzzy_search.matches.len(),
                cells_view(cells@) == base + fuzzy_rows(*self, j as int),
            decreases n - j,
        {
            let i = self.fuzzy_search.scroll_offset + j;
            let number = decimal_string(self.fuzzy_search.matches[i].1.saturating_add(1));
            let a = crate::text::concat_strings(number.as_str(), ": ");
            let text = crate::text::concat_strings(a.as_str(), self.fuzzy_search.matches[i].0.as_str());
            push_text(
                cells,
                j,
                0,
                text,
                Look { dim: false, bold: false, reverse: i == self.fuzzy_search.selected_index },
            );
            j = j + 1;
        }
    }

    fn push_task_rows(&self, cells: &mut Vec<Cell>, top: usize, n: usize)
        requires
            n == 0 || self.task.task_display_offset + n <= self.task.tasks.len(),
            top + n <= usize::MAX,
        ensures
            cells_view(final(cells)@) == cells_view(old(cells)@) + task_rows(*self, top as int, n as int),
    {
        let ghost base = cells_view(cells@);
        let mut j: usize = 0;
        while j < n
            invariant
                j <= n,
                n == 0 || self.task.task_display_offset + n <= self.task.tasks.len(),
                top + n <= usize::MAX,
                cells_view(cells@) == base + task_rows(*self, top as int, j as int),
            decreases n - j,
        {
            let i = self.task.task_display_offset + j;
            let selected = match self.task.selected_task_index {
                Some(s) => s == i,
                None => false,
            };
            push_text(
                cells,
                top + j,
                0,
                self.task.tasks[i].1.clone(),
                Look { dim: false, bold: false, reverse: selected },
            );
            j = j + 1;
        }
    }

    fn push_doc_rows(&self, cells: &mut Vec<Cell>, cols: usize, n: usize)
        requires
            self.scroll.row_offset + n <= self.document.lines.len(),
            n + STATUS_BAR_HEIGHT <= usize::MAX,
            lines_fit(*self),
        ensures
            cells_view(final(cells)@) == cells_view(old(cells)@) + doc_rows(*self, cols as int, n as int),
    {
        let ghost base = cells_view(cells@);
        let mut j: usize = 0;
        while j < n
            invariant
                j <= n,
                self.scroll.row_offset + n <= self.document.lines.len(),
                n + STATUS_BAR_HEIGHT <= usize::MAX,
                lines_fit(*self),
                cells_view(cells@) == base + doc_rows(*self, cols as int, j as int),
            decreases n - j,
        {
            let index = self.scroll.row_offset + j;
            let off = if index == self.cursor_y {
                self.scroll.col_offset
            } else {
                0
            };
            assert(byte_len(self.text()[index as int]) + 8 <= usize::MAX);
            self.push_line(cells, index, STATUS_BAR_HEIGHT + j, cols, off);
            j = j + 1;
        }
    }

    fn cursor_column(&self) -> (c: usize)
        requires
            self.cursor_y < self.document.lines.len(),
            byte_len(self.text()[self.cursor_y as int]) + 8 <= usize::MAX,
        ensures
            c == cursor_col(*self),
    {
        let line = self.document.lines[self.cursor_y].as_str();
        let (pb, pw) = self.get_prefix_info(line);
        let dx = self.scroll.get_display_width(line, self.cursor_x);
        if self.cursor_x < pb {
            return dx;
        }
        let v = self.document.line_chars(self.cursor_y);
        let ghost s = v@;
        proof {
            lemma_prefix_chars(s);
            crate::text::lemma_char_index_unique(s, prefix_chars(s));
        }
        let pc = char_index_of(&v, pb).unwrap();
        let content = crate::document::copy_range(&v, pc, v.len());
        assert(content@ =~= s.skip(prefix_chars(s)));
        proof {
            assert(s =~= s.take(pc as int) + content@);
            crate::text::lemma_byte_len_concat(s.take(pc as int), content@);
        }
        let off = self.scroll.col_offset;
        let (_, dp) = position_for_column(&content, off);
        let wide = off > 0 && dp < off;
        let eff = if wide {
            off.saturating_add(1)
        } else {
            off
        };
        let ell: usize = if off > 0 {
            if wide {
                2
            } else {
                1
            }
        } else {
            0
        };
        let content_x = if dx >= pw {
            dx - pw
        } else {
            0
        };
        let shown = if content_x >= eff {
            content_x - eff
        } else {
            0
        };
        pw.saturating_add(ell).saturating_add(shown)
    }
}

impl Editor {
    fn push_status_bar(&self, cells: &mut Vec<Cell>, cols: usize)
        ensures
            cells_view(final(cells)@) == cells_view(old(cells)@) + status_cells(*self, cols as int),
    {
        let name = match &self.document.filename {
            Some(f) => f.clone(),
            None => "[No Name]".to_string(),
        };
        let dirty = self.document.is_dirty();
        let shown = if dirty {
            crate::text::concat_strings(name.as_str(), "*")
        } else {
            crate::text::concat_strings(name.as_str(), "")
        };
        proof {
            reveal_strlit("");
        }
        assert(shown@ == shown_name(*self));
        let name_width = plain_width_of(shown.as_str());
        push_text(cells, 0, 0, shown, Look { dim: false, bold: true, reverse: false });
        push_hline_row(cells, STATUS_BAR_HEIGHT - 1, cols, Look { dim: true, bold: false, reverse: false });
        let count = crate::text::concat_strings(
            crate::text::concat_strings(" - ", decimal_string(self.document.lines.len()).as_str()).as_str(),
            " lines",
        );
        push_text(cells, 0, name_width, count, Look { dim: false, bold: false, reverse: false });
        if crate::text::str_byte_len(self.status_message.as_str()) > 0 {
            let w = plain_width_of(self.status_message.as_str());
            let col = if cols >= w {
                cols - w
            } else {
                0
            };
            push_text(cells, 0, col, self.status_message.clone(), Look { dim: false, bold: false, reverse: false });
        }
        proof {
            crate::text::lemma_byte_len_bounds(self.status_message@);
        }
    }
}

impl Editor {
    /// The screen of `rows` rows and `cols` columns that the editor shows:
    /// in fuzzy search mode the list of matches, scrolled to show the
    /// selected one, and the prompt; otherwise, once scrolled to the cursor,
    /// the task list in task selection mode, the visible lines and the
    /// status bar.
    pub fn render(&mut self, rows: usize, cols: usize) -> (f: Frame)
        requires
            rows >= 2,
            old(self).mode != EditorMode::FuzzySearch ==> old(self).cursor_y < old(
                self,
            ).document.lines.len() && old(self).scroll.row_offset + old(self).scroll.screen_rows
                <= usize::MAX && lines_fit(*old(self)),
        ensures
            old(self).mode == EditorMode::FuzzySearch ==> {
                let fs = old(self).fuzzy_search;
                &&& *final(self) == (Editor {
                    fuzzy_search: FuzzySearch {
                        scroll_offset: fuzzy_first(
                            fs.selected_index,
                            fs.scroll_offset,
                            rows - 1,
                        ) as usize,
                        ..fs
                    },
                    ..*old(self)
                })
                &&& cells_view(f.cells@) == fuzzy_cells(*final(self), rows as int)
                &&& f.cursor == (
                    (rows - 1) as usize,
                    unicode_str_width(fuzzy_prompt(*final(self))),
                )
            },
            old(self).mode != EditorMode::FuzzySearch ==> {
                &&& scroll_done(*old(self), *final(self))
                &&& (cells_view(f.cells@), (f.cursor.0 as int, f.cursor.1 as int)) == normal_frame(
                    *final(self),
                    rows as int,
                    cols as int,
                )
            },
    {
        let mut cells: Vec<Cell> = Vec::new();
        if self.mode == EditorMode::FuzzySearch {
            let h = rows - 1;
            let sel = self.fuzzy_search.selected_index;
            let mut off = self.fuzzy_search.scroll_offset;
            if sel < off {
                off = sel;
            }
            if sel - off >= h {
                off = sel - (h - 1);
            }
            self.fuzzy_search.scroll_offset = off;
            let len = self.fuzzy_search.matches.len();
            let n = if off < len {
                if h <= len - off {
                    h
                } else {
                    len - off
                }
            } else {
                0
            };
            assert(cells_view(cells@) =~= Seq::<CellView>::empty());
            self.push_fuzzy_rows(&mut cells, n);
            let prompt = crate::text::concat_strings("FUZZY SEARCH: ", self.fuzzy_search.query.as_str());
            let w = str_width(prompt.as_str());
            push_text(&mut cells, rows - 1, 0, prompt, Look { dim: false, bold: false, reverse: false });
            return Frame { cells, cursor: (rows - 1, w) };
        }
        self.scroll();
        assert(cells_view(cells@) =~= Seq::<CellView>::empty());
        let mut doc_end = rows;
        if self.mode == EditorMode::TaskSelection {
            let h = self.task_ui_height();
            let top = if rows >= h {
                rows - h
            } else {
                0
            };
            let off = self.task.task_display_offset;
            let len = self.task.tasks.len();
            let n = if off < len {
                if h <= len - off {
                    h
                } else {
                    len - off
                }
            } else {
                0
            };
            self.push_task_rows(&mut cells, top, n);
            if top >= 1 {
                push_hline_row(&mut cells, top - 1, cols, Look { dim: true, bold: false, reverse: false });
            }
            doc_end = if top >= 1 {
                top - 1
            } else {
                0
            };
        }
        let ro = self.scroll.row_offset;
        let len = self.document.lines.len();
        let avail = if doc_end >= STATUS_BAR_HEIGHT {
            doc_end - STATUS_BAR_HEIGHT
        } else {
            0
        };
        let n = if ro < len {
            if len - ro <= avail {
                len - ro
            } else {
                avail
            }
        } else {
            0
        };
        self.push_doc_rows(&mut cells, cols, n);
        self.push_status_bar(&mut cells, cols);
        let row = if self.cursor_y >= ro {
            self.cursor_y - ro
        } else {
            0
        };
        let col = self.cursor_column();
        Frame { cells, cursor: (row.saturating_add(STATUS_BAR_HEIGHT), col) }
    }

    /// Tests what `render` needs outside fuzzy search mode: the cursor on a
    /// line, and the scroll position and the lines within bounds.
    pub fn drawable(&self) -> (r: bool)
        ensures
            r == (self.cursor_y < self.document.lines.len() && self.scroll.row_offset
                + self.scroll.screen_rows <= usize::MAX && lines_fit(*self)),
    {
        if self.cursor_y >= self.document.lines.len() {
            return false;
        }
        if self.scroll.row_offset > usize::MAX - self.scroll.screen_rows {
            return false;
        }
        let mut i: usize = 0;
        while i < self.document.lines.len()
            invariant
                i <= self.document.lines@.len(),
                forall|j: int| 0 <= j < i ==> byte_len(#[trigger] self.text()[j]) + 8 <= usize::MAX,
            decreases self.document.lines.len() - i,
        {
            if crate::text::str_byte_len(self.document.lines[i].as_str()) > usize::MAX - 8 {
                assert(byte_len(self.text()[i as int]) + 8 > usize::MAX);
                return false;
            }
            i = i + 1;
        }
        true
    }
}

} // verus!
