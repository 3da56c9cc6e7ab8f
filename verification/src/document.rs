//! The text buffer and the reversible edits (`ActionDiff`) applied to it.
use crate::error::{DmacsError, Result};
use crate::text::{
    byte_len, bytes_between, char_index, lemma_boundary_concat_left, lemma_boundary_concat_mid,
    lemma_byte_len_concat, lemma_boundary_ends, char_index_of, chars_of, concat_chars, concat_strings, insert_at, is_boundary,
    lemma_boundary, lemma_byte_len_take_strict, remove_between, skip_bytes, str_eq, string_of,
    string_of_range, take_bytes, str_byte_len, chars_eq,
};
use vstd::prelude::*;

verus! {

/// One reversible edit: the text `old` between `(start_x, start_y)` and
/// `(end_x, end_y)` is replaced by `new`, and the cursor moves from
/// `(cursor_start_x, cursor_start_y)` to `(cursor_end_x, cursor_end_y)`.
/// Columns are byte offsets.
#[derive(Clone, Debug)]
pub struct ActionDiff {
    pub cursor_start_x: usize,
    pub cursor_start_y: usize,
    pub cursor_end_x: usize,
    pub cursor_end_y: usize,
    pub start_x: usize,
    pub start_y: usize,
    pub end_x: usize,
    pub end_y: usize,
    pub old: Vec<String>,
    pub new: Vec<String>,
}

/// The characters of each string of a sequence.
pub open spec fn view_lines(v: Seq<String>) -> Seq<Seq<char>> {
    Seq::new(v.len(), |i: int| v[i]@)
}

/// The views of a sequence of strings follow its removals.
pub proof fn lemma_view_lines_remove(v: Seq<String>, i: int)
    requires
        0 <= i < v.len(),
    ensures
        view_lines(v.remove(i)) == view_lines(v).remove(i),
{
    assert(view_lines(v.remove(i)) =~= view_lines(v).remove(i));
}

/// The views of a sequence of strings follow its insertions.
pub proof fn lemma_view_lines_insert(v: Seq<String>, i: int, s: String)
    requires
        0 <= i <= v.len(),
    ensures
        view_lines(v.insert(i, s)) == view_lines(v).insert(i, s@),
{
    assert(view_lines(v.insert(i, s)) =~= view_lines(v).insert(i, s@));
}

/// Lines are split at `'\n'`; a line that ends with `'\n'` loses one `'\r'`
/// before it. Returns the finished lines and the unfinished last line.
pub open spec fn scan_lines(s: Seq<char>) -> (Seq<Seq<char>>, Seq<char>)
    decreases s.len(),
{
    if s.len() == 0 {
        (Seq::empty(), Seq::empty())
    } else {
        let (done, cur) = scan_lines(s.drop_last());
        if s.last() == '\n' {
            (done.push(strip_cr(cur)), Seq::empty())
        } else {
            (done, cur.push(s.last()))
        }
    }
}

/// `s` without one trailing `'\r'`.
pub open spec fn strip_cr(s: Seq<char>) -> Seq<char> {
    if s.len() > 0 && s.last() == '\r' {
        s.drop_last()
    } else {
        s
    }
}

/// The lines of a text, as `str::lines` gives them: no final empty line
/// after a closing `'\n'`, and no line at all for the empty text.
pub open spec fn lines_of(s: Seq<char>) -> Seq<Seq<char>> {
    let (done, cur) = scan_lines(s);
    if cur.len() > 0 {
        done.push(cur)
    } else {
        done
    }
}

/// The lines joined by `'\n'`, with a final `'\n'`.
pub open spec fn joined_with_newline(lines: Seq<Seq<char>>) -> Seq<char>
    decreases lines.len(),
{
    if lines.len() == 0 {
        seq!['\n']
    } else if lines.len() == 1 {
        lines[0].push('\n')
    } else {
        joined_with_newline(lines.drop_last()).drop_last().push('\n') + lines.last().push('\n')
    }
}

/// Removal of the text between `(sx, sy)` and `(ex, ey)`.
pub open spec fn spec_delete(lines: Seq<Seq<char>>, sx: int, sy: int, ex: int, ey: int) -> Seq<
    Seq<char>,
> {
    if sy == ey {
        if sy < lines.len() {
            lines.update(sy, remove_between(lines[sy], sx, ex))
        } else {
            lines
        }
    } else {
        lines.take(sy) + seq![take_bytes(lines[sy], sx) + skip_bytes(lines[ey], ex)] + lines.skip(
            if sy > ey {
                sy
            } else {
                ey
            } + 1,
        )
    }
}

/// Insertion of the lines `r` at `(sx, sy)`: the first joins the text
/// before the position, the last the text after it.
pub open spec fn spec_insert(lines: Seq<Seq<char>>, sx: int, sy: int, r: Seq<Seq<char>>) -> Seq<
    Seq<char>,
> {
    if r.len() == 0 {
        lines
    } else if r.len() == 1 {
        if sy < lines.len() {
            lines.update(sy, insert_at(lines[sy], sx, r[0]))
        } else {
            lines.insert(sy, r[0])
        }
    } else {
        lines.take(sy) + seq![take_bytes(lines[sy], sx) + r[0]] + r.subrange(1, r.len() - 1) + seq![
            r.last() + skip_bytes(lines[sy], sx),
        ] + lines.skip(sy + 1)
    }
}

/// A removal at these positions is possible in `lines`.
pub open spec fn delete_ok(lines: Seq<Seq<char>>, sx: int, sy: int, ex: int, ey: int) -> bool {
    if sy == ey {
        sy < lines.len() ==> sx <= ex && is_boundary(lines[sy], sx) && is_boundary(lines[sy], ex)
    } else {
        &&& 0 <= sy < lines.len()
        &&& 0 <= ey < lines.len()
        &&& is_boundary(lines[sy], sx)
        &&& is_boundary(lines[ey], ex)
    }
}

/// An insertion of `r` at this position is possible in `lines`.
pub open spec fn insert_ok(lines: Seq<Seq<char>>, sx: int, sy: int, r: Seq<Seq<char>>) -> bool {
    if r.len() == 0 {
        true
    } else if r.len() == 1 {
        &&& 0 <= sy <= lines.len()
        &&& sy < lines.len() ==> is_boundary(lines[sy], sx)
    } else {
        &&& 0 <= sy < lines.len()
        &&& is_boundary(lines[sy], sx)
    }
}

/// The content of an `ActionDiff`, with its texts as character sequences.
pub struct DiffView {
    pub cursor_start_x: usize,
    pub cursor_start_y: usize,
    pub cursor_end_x: usize,
    pub cursor_end_y: usize,
    pub start_x: usize,
    pub start_y: usize,
    pub end_x: usize,
    pub end_y: usize,
    pub old: Seq<Seq<char>>,
    pub new: Seq<Seq<char>>,
}

impl View for ActionDiff {
    type V = DiffView;

    open spec fn view(&self) -> DiffView {
        DiffView {
            cursor_start_x: self.cursor_start_x,
            cursor_start_y: self.cursor_start_y,
            cursor_end_x: self.cursor_end_x,
            cursor_end_y: self.cursor_end_y,
            start_x: self.start_x,
            start_y: self.start_y,
            end_x: self.end_x,
            end_y: self.end_y,
            old: view_lines(self.old@),
            new: view_lines(self.new@),
        }
    }
}

impl DiffView {

    /// The lines that replace the range when applied in this direction.
    pub open spec fn replacement(&self, is_undo: bool) -> Seq<Seq<char>> {
        if is_undo {
            self.old
        } else {
            self.new
        }
    }

    /// Whether the range is removed before the replacement is inserted:
    /// a pure insertion or a pure deletion only inserts.
    pub open spec fn removes_range(&self, is_undo: bool) -> bool {
        let rep = self.replacement(is_undo);
        let is_insertion = self.old.len() == 0 && rep.len() > 0;
        let is_deletion = self.new.len() == 0 && rep.len() > 0;
        !is_insertion && !is_deletion
    }

    /// The lines after the removal step.
    pub open spec fn after_removal(&self, lines: Seq<Seq<char>>, is_undo: bool) -> Seq<Seq<char>> {
        if self.removes_range(is_undo) {
            spec_delete(
                lines,
                self.start_x as int,
                self.start_y as int,
                self.end_x as int,
                self.end_y as int,
            )
        } else {
            lines
        }
    }

    /// The lines after applying the edit in the given direction.
    pub open spec fn apply_to(&self, lines: Seq<Seq<char>>, is_undo: bool) -> Seq<Seq<char>> {
        spec_insert(
            self.after_removal(lines, is_undo),
            self.start_x as int,
            self.start_y as int,
            self.replacement(is_undo),
        )
    }

    /// The edit can be applied to `lines` in the given direction.
    pub open spec fn applicable(&self, lines: Seq<Seq<char>>, is_undo: bool) -> bool {
        &&& self.removes_range(is_undo) ==> delete_ok(
            lines,
            self.start_x as int,
            self.start_y as int,
            self.end_x as int,
            self.end_y as int,
        )
        &&& insert_ok(
            self.after_removal(lines, is_undo),
            self.start_x as int,
            self.start_y as int,
            self.replacement(is_undo),
        )
    }

    /// The cursor position after applying the edit in the given direction.
    pub open spec fn cursor_after(&self, is_undo: bool) -> (usize, usize) {
        if is_undo {
            (self.cursor_start_x, self.cursor_start_y)
        } else {
            (self.cursor_end_x, self.cursor_end_y)
        }
    }
}

/// The text between two positions, line by line.
pub open spec fn text_between(lines: Seq<Seq<char>>, sx: int, sy: int, ex: int, ey: int) -> Seq<
    Seq<char>,
> {
    if sy == ey {
        seq![bytes_between(lines[sy], sx, ex)]
    } else {
        seq![skip_bytes(lines[sy], sx)] + lines.subrange(sy + 1, ey) + seq![
            take_bytes(lines[ey], ex),
        ]
    }
}

/// Where the text `r` ends once inserted at `(sx, sy)`.
pub open spec fn insertion_end(sx: int, sy: int, r: Seq<Seq<char>>) -> (int, int) {
    if r.len() == 1 {
        (sx + byte_len(r[0]), sy)
    } else {
        (byte_len(r.last()) as int, sy + r.len() - 1)
    }
}

impl DiffView {
    /// A pure insertion into an existing line of `lines`, whose range is
    /// the inserted text.
    pub open spec fn inserts_into(&self, lines: Seq<Seq<char>>) -> bool {
        &&& self.old.len() == 0
        &&& self.new.len() > 0
        &&& self.start_y < lines.len()
        &&& is_boundary(lines[self.start_y as int], self.start_x as int)
        &&& (self.end_x as int, self.end_y as int) == insertion_end(
            self.start_x as int,
            self.start_y as int,
            self.new,
        )
    }

    /// A pure deletion of the text of `lines` in its range.
    pub open spec fn deletes_from(&self, lines: Seq<Seq<char>>) -> bool {
        &&& self.new.len() == 0
        &&& self.start_y <= self.end_y < lines.len()
        &&& is_boundary(lines[self.start_y as int], self.start_x as int)
        &&& is_boundary(lines[self.end_y as int], self.end_x as int)
        &&& self.start_y == self.end_y ==> self.start_x <= self.end_x
        &&& self.old == text_between(
            lines,
            self.start_x as int,
            self.start_y as int,
            self.end_x as int,
            self.end_y as int,
        )
    }

    /// The edit is a pure insertion or a pure deletion that matches `lines`.
    pub open spec fn reversible_on(&self, lines: Seq<Seq<char>>) -> bool {
        self.inserts_into(lines) || self.deletes_from(lines)
    }
}

/// Splitting at two boundaries and joining again gives the line back.
pub proof fn lemma_split_three(s: Seq<char>, x: int, y: int)
    requires
        is_boundary(s, x),
        is_boundary(s, y),
        x <= y,
    ensures
        take_bytes(s, x) + bytes_between(s, x, y) + skip_bytes(s, y) == s,
        char_index(s, x) <= char_index(s, y),
{
    lemma_boundary(s, x);
    lemma_boundary(s, y);
    let a = char_index(s, x);
    let b = char_index(s, y);
    if a > b {
        lemma_byte_len_take_strict(s, b, a);
    }
    assert(s.take(a) + s.subrange(a, b) + s.skip(b) =~= s);
}

proof fn lemma_reverts_single_insertion(d: DiffView, lines: Seq<Seq<char>>)
    requires
        d.inserts_into(lines),
        d.new.len() == 1,
    ensures
        d.applicable(lines, false),
        d.applicable(d.apply_to(lines, false), true),
        d.apply_to(d.apply_to(lines, false), true) == lines,
{
    let sx = d.start_x as int;
    let sy = d.start_y as int;
    let ex = d.end_x as int;
    let r = d.new;
    let line = lines[sy];
    let t = take_bytes(line, sx);
    let u = skip_bytes(line, sx);
    lemma_boundary(line, sx);
    let after = d.apply_to(lines, false);
    let nl = t + r[0] + u;
    assert(after == lines.update(sy, nl));
    lemma_byte_len_concat(t, r[0]);
    lemma_boundary_concat_mid(t, r[0]);
    lemma_boundary_concat_mid(t + r[0], u);
    lemma_boundary_ends(t);
    lemma_boundary_concat_left(t, r[0], sx);
    lemma_boundary_concat_left(t + r[0], u, sx);
    assert(take_bytes(nl, sx) == t);
    assert(skip_bytes(nl, ex) == u);
    assert(d.after_removal(after, true) =~= lines);
}

proof fn lemma_reverts_multi_insertion(d: DiffView, lines: Seq<Seq<char>>)
    requires
        d.inserts_into(lines),
        d.new.len() >= 2,
    ensures
        d.applicable(lines, false),
        d.applicable(d.apply_to(lines, false), true),
        d.apply_to(d.apply_to(lines, false), true) == lines,
{
    let sx = d.start_x as int;
    let sy = d.start_y as int;
    let ey = d.end_y as int;
    let r = d.new;
    let line = lines[sy];
    let t = take_bytes(line, sx);
    let u = skip_bytes(line, sx);
    lemma_boundary(line, sx);
    let after = d.apply_to(lines, false);
    let n = r.len() as int;
    let first = t + r[0];
    let last = r.last() + u;
    assert(after =~= lines.take(sy) + seq![first] + r.subrange(1, n - 1) + seq![last] + lines.skip(
        sy + 1,
    ));
    lemma_boundary_concat_mid(t, r[0]);
    lemma_boundary_concat_mid(r.last(), u);
    assert(after[sy] == first);
    assert(after[ey] == last);
    assert(d.after_removal(after, true) =~= lines);
}

proof fn lemma_reverts_single_deletion(d: DiffView, lines: Seq<Seq<char>>)
    requires
        d.deletes_from(lines),
        d.start_y == d.end_y,
    ensures
        d.applicable(lines, false),
        d.applicable(d.apply_to(lines, false), true),
        d.apply_to(d.apply_to(lines, false), true) == lines,
{
    let sx = d.start_x as int;
    let sy = d.start_y as int;
    let ex = d.end_x as int;
    let o = d.old;
    let line = lines[sy];
    lemma_split_three(line, sx, ex);
    lemma_boundary(line, sx);
    let t = take_bytes(line, sx);
    let v = skip_bytes(line, ex);
    let after = d.apply_to(lines, false);
    assert(after == lines.update(sy, t + v));
    lemma_boundary_concat_mid(t, v);
    assert(d.apply_to(after, true) == after.update(sy, t + o[0] + v));
    assert(d.apply_to(after, true) =~= lines);
}

proof fn lemma_reverts_multi_deletion(d: DiffView, lines: Seq<Seq<char>>)
    requires
        d.deletes_from(lines),
        d.start_y < d.end_y,
    ensures
        d.applicable(lines, false),
        d.applicable(d.apply_to(lines, false), true),
        d.apply_to(d.apply_to(lines, false), true) == lines,
{
    let sx = d.start_x as int;
    let sy = d.start_y as int;
    let ex = d.end_x as int;
    let ey = d.end_y as int;
    let o = d.old;
    let n = o.len() as int;
    let t = take_bytes(lines[sy], sx);
    let v = skip_bytes(lines[ey], ex);
    lemma_boundary(lines[sy], sx);
    lemma_boundary(lines[ey], ex);
    let after = d.apply_to(lines, false);
    assert(after =~= lines.take(sy) + seq![t + v] + lines.skip(ey + 1));
    lemma_boundary_concat_mid(t, v);
    assert(after[sy] == t + v);
    assert(o.subrange(1, n - 1) =~= lines.subrange(sy + 1, ey));
    assert(d.apply_to(after, true) =~= lines);
}

/// Undoing an edit right after applying it gives the lines back, and
/// redoing it then gives the edited lines again: each pure insertion or
/// pure deletion that matches the lines is reversible.
pub proof fn lemma_undo_reverts_apply(d: DiffView, lines: Seq<Seq<char>>)
    requires
        d.reversible_on(lines),
    ensures
        d.applicable(lines, false),
        d.applicable(d.apply_to(lines, false), true),
        d.apply_to(d.apply_to(lines, false), true) == lines,
        d.applicable(d.apply_to(d.apply_to(lines, false), true), false),
        d.apply_to(d.apply_to(d.apply_to(lines, false), true), false) == d.apply_to(lines, false),
{
    if d.inserts_into(lines) {
        if d.new.len() == 1 {
            lemma_reverts_single_insertion(d, lines);
        } else {
            lemma_reverts_multi_insertion(d, lines);
        }
    } else if d.start_y == d.end_y {
        lemma_reverts_single_deletion(d, lines);
    } else {
        lemma_reverts_multi_deletion(d, lines);
    }
}

/// The text of a file being edited.
#[derive(Clone)]
pub struct Document {
    pub lines: Vec<String>,
    pub filename: Option<String>,
    /// The content last read from or written to the file.
    pub original_content: Option<String>,
}

impl Document {
    /// The lines, as character sequences.
    pub open spec fn text(&self) -> Seq<Seq<char>> {
        view_lines(self.lines@)
    }

    /// The content last read from or written to the file.
    pub open spec fn original(&self) -> Option<Seq<char>> {
        match self.original_content {
            Some(s) => Some(s@),
            None => None,
        }
    }

    /// `self` is `before` after its lines were written to its file, if it
    /// has one: the original content is then the lines joined by `'\n'`,
    /// with a final `'\n'`.
    pub open spec fn saved_from(&self, before: Document) -> bool {
        &&& self.lines == before.lines
        &&& self.filename == before.filename
        &&& self.original() == if before.filename is Some {
            Some(joined_with_newline(before.text()))
        } else {
            before.original()
        }
    }

    /// The lines of the content last read from or written to the file.
    pub open spec fn original_lines(&self) -> Seq<Seq<char>> {
        match self.original() {
            Some(s) => lines_of(s),
            None => Seq::empty(),
        }
    }

    /// The characters of line `y`.
    pub fn line_chars(&self, y: usize) -> (v: Vec<char>)
        requires
            y < self.lines.len(),
        ensures
            v@ == self.text()[y as int],
            byte_len(v@) <= usize::MAX,
    {
        let _ = str_byte_len(self.lines[y].as_str());
        chars_of(self.lines[y].as_str())
    }

    /// A document made of one empty line, with no file.
    pub fn new_empty() -> (d: Self)
        ensures
            d.text() == seq![Seq::<char>::empty()],
            d.filename is None,
            d.original() is None,
    {
        let d = Self { lines: vec![String::new()], filename: None, original_content: None };
        assert(d.text() =~= seq![Seq::<char>::empty()]);
        d
    }

    /// The document of a file with the given content.
    pub fn from_file_content(filename: String, content: String) -> (d: Self)
        ensures
            d.text() == lines_of(content@),
            d.filename == Some(filename),
            d.original() == Some(content@),
    {
        let lines = split_lines(content.as_str());
        Self { lines, filename: Some(filename), original_content: Some(content) }
    }

    /// Whether the lines differ from those last read from or written to the
    /// file; a document with no file name always is.
    pub fn is_dirty(&self) -> (r: bool)
        ensures
            r == (self.filename is None || self.text() != self.original_lines()),
    {
        if self.filename.is_none() {
            return true;
        }
        let original_lines: Vec<String> = match &self.original_content {
            Some(s) => split_lines(s.as_str()),
            None => Vec::new(),
        };
        proof {
            if self.original_content is None {
                assert(view_lines(original_lines@) =~= Seq::<Seq<char>>::empty());
            }
        }
        !lines_equal(&self.lines, &original_lines)
    }

    /// Records that the lines were just written to the file: the original
    /// content becomes the lines joined by `'\n'`, with a final `'\n'`.
    pub fn mark_saved(&mut self)
        ensures
            final(self).original() == Some(joined_with_newline(old(self).text())),
            final(self).lines == old(self).lines,
            final(self).filename == old(self).filename,
    {
        let content = join_with_newline(&self.lines);
        self.original_content = Some(content);
    }

    /// Applies the edit forwards (`is_undo == false`, the range gets `new`)
    /// or backwards (`is_undo == true`, the range gets `old`) and returns the
    /// cursor position that goes with that direction.
    pub fn apply_action_diff(&mut self, action_diff: &ActionDiff, is_undo: bool) -> (r: Result<
        (usize, usize),
    >)
        requires
            action_diff@.applicable(old(self).text(), is_undo),
        ensures
            final(self).text() == action_diff@.apply_to(old(self).text(), is_undo),
            r == Ok::<(usize, usize), DmacsError>(action_diff@.cursor_after(is_undo)),
            final(self).filename == old(self).filename,
            final(self).original() == old(self).original(),
    {
        let replacement = if is_undo {
            &action_diff.old
        } else {
            &action_diff.new
        };
        let is_insertion = action_diff.old.len() == 0 && replacement.len() > 0;
        let is_deletion = action_diff.new.len() == 0 && replacement.len() > 0;
        if !is_insertion && !is_deletion {
            self.delete_range(
                action_diff.start_x,
                action_diff.start_y,
                action_diff.end_x,
                action_diff.end_y,
            );
        }
        if replacement.len() > 0 {
            self.insert_lines(action_diff.start_x, action_diff.start_y, replacement);
        }
        if is_undo {
            Ok((action_diff.cursor_start_x, action_diff.cursor_start_y))
        } else {
            Ok((action_diff.cursor_end_x, action_diff.cursor_end_y))
        }
    }

    fn delete_range(&mut self, sx: usize, sy: usize, ex: usize, ey: usize)
        requires
            delete_ok(old(self).text(), sx as int, sy as int, ex as int, ey as int),
        ensures
            final(self).text() == spec_delete(
                old(self).text(),
                sx as int,
                sy as int,
                ex as int,
                ey as int,
            ),
            final(self).filename == old(self).filename,
            final(self).original() == old(self).original(),
    {
        let ghost l0 = self.text();
        if sy == ey {
            if sy < self.lines.len() {
                let line = chars_of(self.lines[sy].as_str());
                let a = char_index_of(&line, sx).unwrap();
                let b = char_index_of(&line, ex).unwrap();
                proof {
                    lemma_boundary(line@, sx as int);
                    lemma_boundary(line@, ex as int);
                    if a > b {
                        lemma_byte_len_take_strict(line@, b as int, a as int);
                    }
                }
                let left = string_of_range(&line, 0, a);
                let right = string_of_range(&line, b, line.len());
                let joined = concat_strings(left.as_str(), right.as_str());
                self.lines.set(sy, joined);
                assert(line@.subrange(0, a as int) =~= line@.take(a as int));
                assert(line@.subrange(b as int, line@.len() as int) =~= line@.skip(b as int));
                assert(self.text() =~= spec_delete(l0, sx as int, sy as int, ex as int, ey as int));
            }
        } else {
            let first = chars_of(self.lines[sy].as_str());
            let last = chars_of(self.lines[ey].as_str());
            let a = char_index_of(&first, sx).unwrap();
            let b = char_index_of(&last, ex).unwrap();
            proof {
                lemma_boundary(first@, sx as int);
                lemma_boundary(last@, ex as int);
            }
            let left = string_of_range(&first, 0, a);
            let right = string_of_range(&last, b, last.len());
            let joined = concat_strings(left.as_str(), right.as_str());
            assert(first@.subrange(0, a as int) =~= first@.take(a as int));
            assert(last@.subrange(b as int, last@.len() as int) =~= last@.skip(b as int));
            self.lines.set(sy, joined);
            let ghost l1 = self.text();
            assert(l1 =~= l0.update(sy as int, take_bytes(l0[sy as int], sx as int) + skip_bytes(
                l0[ey as int],
                ex as int,
            )));
            if sy < ey {
                let mut removed: usize = 0;
                while removed < ey - sy
                    invariant
                        sy < ey < l0.len(),
                        removed <= ey - sy,
                        self.lines.len() == l0.len() - removed,
                        self.text() =~= l1.take(sy + 1) + l1.skip(sy + 1 + removed),
                        l1.len() == l0.len(),
                        self.filename == old(self).filename,
                        self.original() == old(self).original(),
                    decreases ey - sy - removed,
                {
                    let ghost before = self.lines@;
                    self.lines.remove(sy + 1);
                    proof {
                        lemma_view_lines_remove(before, sy + 1);
                    }
                    removed = removed + 1;
                    assert(self.text() =~= l1.take(sy + 1) + l1.skip(sy + 1 + removed));
                }
                assert(self.text() =~= spec_delete(l0, sx as int, sy as int, ex as int, ey as int));
            } else {
                assert(self.text() =~= spec_delete(l0, sx as int, sy as int, ex as int, ey as int));
            }
        }
    }

    fn insert_lines(&mut self, sx: usize, sy: usize, r: &Vec<String>)
        requires
            r.len() > 0,
            insert_ok(old(self).text(), sx as int, sy as int, view_lines(r@)),
        ensures
            final(self).text() == spec_insert(
                old(self).text(),
                sx as int,
                sy as int,
                view_lines(r@),
            ),
            final(self).filename == old(self).filename,
            final(self).original() == old(self).original(),
    {
        let ghost l0 = self.text();
        let ghost rv = view_lines(r@);
        let n = r.len();
        if n == 1 {
            if sy < self.lines.len() {
                let line = chars_of(self.lines[sy].as_str());
                let a = char_index_of(&line, sx).unwrap();
                let left = string_of_range(&line, 0, a);
                let right = string_of_range(&line, a, line.len());
                let l = concat_strings(left.as_str(), r[0].as_str());
                let joined = concat_strings(l.as_str(), right.as_str());
                self.lines.set(sy, joined);
                assert(line@.subrange(0, a as int) =~= line@.take(a as int));
                assert(line@.subrange(a as int, line@.len() as int) =~= line@.skip(a as int));
                assert(self.text() =~= spec_insert(l0, sx as int, sy as int, rv));
            } else {
                self.lines.insert(sy, r[0].clone());
                assert(self.text() =~= spec_insert(l0, sx as int, sy as int, rv));
            }
        } else {
            let line = chars_of(self.lines[sy].as_str());
            let a = char_index_of(&line, sx).unwrap();
            let left = string_of_range(&line, 0, a);
            let right = string_of_range(&line, a, line.len());
            assert(line@.subrange(0, a as int) =~= line@.take(a as int));
            assert(line@.subrange(a as int, line@.len() as int) =~= line@.skip(a as int));
            let first = concat_strings(left.as_str(), r[0].as_str());
            self.lines.set(sy, first);
            let ghost l1 = self.text();
            let mut i: usize = 1;
            while i < n - 1
                invariant
                    1 <= i <= n - 1,
                    n == r.len(),
                    n >= 2,
                    rv == view_lines(r@),
                    sy < l0.len(),
                    l1 == l0.update(sy as int, take_bytes(l0[sy as int], sx as int) + rv[0]),
                    self.lines.len() == l0.len() + i - 1,
                    self.text() =~= l1.take(sy + 1) + rv.subrange(1, i as int) + l1.skip(sy + 1),
                    self.filename == old(self).filename,
                    self.original() == old(self).original(),
                decreases n - 1 - i,
            {
                let ghost before = self.lines@;
                let item = r[i].clone();
                self.lines.insert(sy + i, item);
                proof {
                    lemma_view_lines_insert(before, sy + i, item);
                }
                i = i + 1;
                assert(self.text() =~= l1.take(sy + 1) + rv.subrange(1, i as int) + l1.skip(
                    sy + 1,
                ));
            }
            let last = concat_strings(r[n - 1].as_str(), right.as_str());
            let ghost before = self.lines@;
            self.lines.insert(sy + (n - 1), last);
            proof {
                lemma_view_lines_insert(before, sy + (n - 1), last);
            }
            assert(self.text() =~= spec_insert(l0, sx as int, sy as int, rv));
        }
    }
}

impl ActionDiff {
    /// A copy of the edit.
    pub fn duplicate(&self) -> (r: Self)
        ensures
            r@ == self@,
    {
        ActionDiff {
            cursor_start_x: self.cursor_start_x,
            cursor_start_y: self.cursor_start_y,
            cursor_end_x: self.cursor_end_x,
            cursor_end_y: self.cursor_end_y,
            start_x: self.start_x,
            start_y: self.start_y,
            end_x: self.end_x,
            end_y: self.end_y,
            old: copy_lines(&self.old),
            new: copy_lines(&self.new),
        }
    }
}

/// A copy of a list of strings.
pub fn copy_lines(v: &Vec<String>) -> (r: Vec<String>)
    ensures
        view_lines(r@) == view_lines(v@),
{
    let mut r: Vec<String> = Vec::new();
    let mut i: usize = 0;
    while i < v.len()
        invariant
            i <= v.len(),
            r.len() == i,
            forall|j: int| 0 <= j < i ==> (#[trigger] r@[j])@ == v@[j]@,
        decreases v.len() - i,
    {
        let item = v[i].clone();
        r.push(item);
        i = i + 1;
    }
    assert(view_lines(r@) =~= view_lines(v@));
    r
}

impl Default for Document {
    fn default() -> (d: Self)
        ensures
            d.text() == seq![Seq::<char>::empty()],
            d.filename is None,
    {
        Self::new_empty()
    }
}

/// Whether two lists of strings hold the same texts.
pub fn lines_equal(a: &Vec<String>, b: &Vec<String>) -> (r: bool)
    ensures
        r == (view_lines(a@) == view_lines(b@)),
{
    if a.len() != b.len() {
        proof {
            assert(view_lines(a@).len() != view_lines(b@).len());
        }
        return false;
    }
    let mut i: usize = 0;
    while i < a.len()
        invariant
            i <= a.len() == b.len(),
            forall|j: int| 0 <= j < i ==> a@[j]@ == b@[j]@,
        decreases a.len() - i,
    {
        if !str_eq(a[i].as_str(), b[i].as_str()) {
            proof {
                assert(view_lines(a@)[i as int] != view_lines(b@)[i as int]);
            }
            return false;
        }
        i = i + 1;
    }
    assert(view_lines(a@) =~= view_lines(b@));
    true
}

/// The lines of a text, as `str::lines` gives them.
pub fn split_lines(s: &str) -> (v: Vec<String>)
    ensures
        view_lines(v@) == lines_of(s@),
{
    let chars = chars_of(s);
    let mut done: Vec<String> = Vec::new();
    let mut cur: Vec<char> = Vec::new();
    let mut i: usize = 0;
    assert(chars@.take(0) =~= Seq::<char>::empty());
    while i < chars.len()
        invariant
            i <= chars.len(),
            (view_lines(done@), cur@) == scan_lines(chars@.take(i as int)),
        decreases chars.len() - i,
    {
        let c = chars[i];
        assert(chars@.take(i + 1).drop_last() =~= chars@.take(i as int));
        if c == '\n' {
            let n = cur.len();
            let line = if n > 0 && cur[n - 1] == '\r' {
                string_of_range(&cur, 0, n - 1)
            } else {
                string_of(&cur)
            };
            proof {
                if n > 0 && cur@[n - 1] == '\r' {
                    assert(cur@.subrange(0, n - 1) =~= cur@.drop_last());
                }
            }
            done.push(line);
            cur = Vec::new();
        } else {
            cur.push(c);
        }
        i = i + 1;
        assert(view_lines(done@) =~= scan_lines(chars@.take(i as int)).0);
        assert(cur@ =~= scan_lines(chars@.take(i as int)).1);
    }
    assert(chars@.take(chars.len() as int) =~= chars@);
    if cur.len() > 0 {
        done.push(string_of(&cur));
    }
    assert(view_lines(done@) =~= lines_of(s@));
    done
}

/// The lines joined by `'\n'`, with a final `'\n'`.
pub fn join_with_newline(lines: &Vec<String>) -> (s: String)
    ensures
        s@ == joined_with_newline(view_lines(lines@)),
{
    let mut acc: Vec<char> = Vec::new();
    let mut i: usize = 0;
    while i < lines.len()
        invariant
            i <= lines.len(),
            i == 0 ==> acc@ == Seq::<char>::empty(),
            i > 0 ==> acc@ == joined_with_newline(view_lines(lines@).take(i as int)).drop_last(),
        decreases lines.len() - i,
    {
        let line = chars_of(lines[i].as_str());
        let ghost prev = acc@;
        if i > 0 {
            acc.push('\n');
        }
        acc = concat_chars(&acc, &line);
        proof {
            let t = view_lines(lines@).take(i + 1);
            assert(t.drop_last() =~= view_lines(lines@).take(i as int));
            if i == 0 {
                assert(acc@ =~= joined_with_newline(t).drop_last());
            } else {
                assert(acc@ =~= joined_with_newline(t).drop_last());
            }
        }
        i = i + 1;
    }
    acc.push('\n');
    proof {
        assert(view_lines(lines@).take(lines.len() as int) =~= view_lines(lines@));
        if lines.len() == 0 {
            assert(acc@ =~= seq!['\n']);
        } else {
            let j = joined_with_newline(view_lines(lines@));
            assert(j.len() > 0);
            assert(j.drop_last().push('\n') =~= j);
        }
    }
    string_of(&acc)
}

impl DiffView {
    /// The edit is reversible on `lines`, its first cursor is on a line of
    /// `lines`, and its last cursor on a line of the edited lines.
    pub open spec fn well_placed(&self, lines: Seq<Seq<char>>) -> bool {
        &&& self.reversible_on(lines)
        &&& self.cursor_start_y < lines.len()
        &&& self.cursor_end_y < self.apply_to(lines, false).len()
    }
}

/// Line count after an edit that is reversible on `lines`.
pub proof fn lemma_apply_len(d: DiffView, lines: Seq<Seq<char>>)
    requires
        d.reversible_on(lines),
    ensures
        d.inserts_into(lines) ==> d.apply_to(lines, false).len() == lines.len() + d.new.len() - 1,
        d.deletes_from(lines) ==> d.apply_to(lines, false).len() == lines.len() - (d.end_y
            - d.start_y),
{
}

impl Document {
    /// Whether `d` is well placed on the lines of the document.
    pub fn is_well_placed(&self, d: &ActionDiff) -> (r: bool)
        ensures
            r == d@.well_placed(self.text()),
    {
        let len = self.lines.len();
        let sx = d.start_x;
        let sy = d.start_y;
        let ex = d.end_x;
        let ey = d.end_y;
        proof {
            if d@.reversible_on(self.text()) {
                lemma_apply_len(d@, self.text());
            }
        }
        if d.cursor_start_y >= len {
            return false;
        }
        if d.old.len() == 0 && d.new.len() > 0 {
            // a pure insertion
            if sy >= len {
                return false;
            }
            let line = self.line_chars(sy);
            if char_index_of(&line, sx).is_none() {
                return false;
            }
            let n = d.new.len();
            let ok_end = if n == 1 {
                let bl = str_byte_len(d.new[0].as_str());
                ey == sy && ex >= sx && ex - sx == bl
            } else {
                let bl = str_byte_len(d.new[n - 1].as_str());
                ey >= sy && ey - sy == n - 1 && ex == bl
            };
            if !ok_end {
                assert(!d@.deletes_from(self.text()));
                return false;
            }
            assert(d@.inserts_into(self.text()));
            return d.cursor_end_y < n - 1 || d.cursor_end_y - (n - 1) < len;
        }
        if d.new.len() != 0 || d.old.len() == 0 {
            proof {
                if d@.deletes_from(self.text()) {
                    assert(d@.old.len() >= 1);
                }
            }
            return false;
        }
        // a pure deletion
        if !(sy <= ey && ey < len) {
            return false;
        }
        if sy == ey && sx > ex {
            return false;
        }
        let first = self.line_chars(sy);
        let last = self.line_chars(ey);
        let a = match char_index_of(&first, sx) {
            Some(a) => a,
            None => {
                return false;
            },
        };
        let b = match char_index_of(&last, ex) {
            Some(b) => b,
            None => {
                return false;
            },
        };
        let ghost text = self.text();
        let matches = if sy == ey {
            if d.old.len() != 1 {
                false
            } else {
                proof {
                    lemma_boundary(first@, sx as int);
                    lemma_boundary(first@, ex as int);
                    if a > b {
                        lemma_byte_len_take_strict(first@, b as int, a as int);
                    }
                }
                let mid = copy_range(&first, a, b);
                let o = chars_of(d.old[0].as_str());
                let same = chars_eq(&o, &mid);
                proof {
                    let tb = text_between(text, sx as int, sy as int, ex as int, ey as int);
                    assert(tb == seq![first@.subrange(a as int, b as int)]);
                    if same {
                        assert(d@.old =~= tb);
                    } else {
                        assert(d@.old[0] != tb[0]);
                    }
                }
                same
            }
        } else {
            let n = d.old.len();
            if n != ey - sy + 1 {
                false
            } else {
                let head = copy_range(&first, a, first.len());
                let tail = copy_range(&last, 0, b);
                let o0 = chars_of(d.old[0].as_str());
                let ol = chars_of(d.old[n - 1].as_str());
                let mut ok = chars_eq(&o0, &head) && chars_eq(&ol, &tail);
                assert(first@.subrange(a as int, first@.len() as int) =~= first@.skip(a as int));
                assert(last@.subrange(0, b as int) =~= last@.take(b as int));
                let mut i: usize = 1;
                while i < n - 1 && ok
                    invariant
                        1 <= i <= n - 1,
                        n == d.old.len(),
                        n == ey - sy + 1,
                        ey < len == self.lines.len(),
                        text == self.text(),
                        ok ==> forall|j: int| 1 <= j < i ==> d@.old[j] == text[sy + j],
                        ok ==> d@.old[0] == first@.skip(a as int) && d@.old[n - 1] == last@.take(
                            b as int,
                        ),
                        !ok ==> (i == 1 && (d@.old[0] != first@.skip(a as int) || d@.old[n - 1]
                            != last@.take(b as int))) || (i > 1 && d@.old[i - 1] != text[sy + i
                            - 1]),
                    decreases n - i,
                {
                    ok = str_eq(d.old[i].as_str(), self.lines[sy + i].as_str());
                    proof {
                        if ok {
                            assert(d@.old[i as int] == text[sy + i]);
                        } else {
                            assert(d@.old[i as int] != text[sy + i]);
                        }
                    }
                    i = i + 1;
                }
                proof {
                    assert(first@.subrange(a as int, first@.len() as int) =~= first@.skip(a as int));
                    assert(last@.subrange(0, b as int) =~= last@.take(b as int));
                    let tb = text_between(text, sx as int, sy as int, ex as int, ey as int);
                    assert(tb.len() == n);
                    assert(tb[0] == first@.skip(a as int));
                    assert(tb[n - 1] == last@.take(b as int));
                    assert(forall|j: int| 1 <= j < n - 1 ==> tb[j] == text[sy + j]);
                    if ok {
                        assert(d@.old =~= text_between(
                            text,
                            sx as int,
                            sy as int,
                            ex as int,
                            ey as int,
                        )) by {
                            assert(first@.subrange(a as int, first@.len() as int) =~= first@.skip(
                                a as int,
                            ));
                            assert(last@.subrange(0, b as int) =~= last@.take(b as int));
                        }
                    } else if d@.old == text_between(
                        text,
                        sx as int,
                        sy as int,
                        ex as int,
                        ey as int,
                    ) {
                        assert(first@.subrange(a as int, first@.len() as int) =~= first@.skip(
                            a as int,
                        ));
                        assert(last@.subrange(0, b as int) =~= last@.take(b as int));
                        if i == n - 1 {
                            assert(d@.old[0] == skip_bytes(text[sy as int], sx as int));
                            assert(d@.old[n - 1] == take_bytes(text[ey as int], ex as int));
                        } else {
                            assert(d@.old[i - 1] == text[sy + i - 1]);
                        }
                    }
                }
                ok
            }
        };
        if !matches {
            return false;
        }
        assert(d@.deletes_from(self.text()));
        d.cursor_end_y < len - (ey - sy)
    }
}

/// A copy of `v[from..to]`.
pub fn copy_range(v: &Vec<char>, from: usize, to: usize) -> (r: Vec<char>)
    requires
        from <= to <= v.len(),
    ensures
        r@ == v@.subrange(from as int, to as int),
{
    let mut r: Vec<char> = Vec::new();
    let mut i = from;
    while i < to
        invariant
            from <= i <= to <= v.len(),
            r@ == v@.subrange(from as int, i as int),
        decreases to - i,
    {
        r.push(v[i]);
        assert(v@.subrange(from as int, i + 1) =~= v@.subrange(from as int, i as int).push(
            v@[i as int],
        ));
        i = i + 1;
    }
    r
}

/// A line that a file can hold as one line: no `'\n'` in it, and no
/// `'\r'` at its end.
pub open spec fn plain_line(l: Seq<char>) -> bool {
    &&& !l.contains('\n')
    &&& l.len() > 0 ==> l.last() != '\r'
}

proof fn lemma_scan_without_newline(c: Seq<char>)
    requires
        !c.contains('\n'),
    ensures
        scan_lines(c) == (Seq::<Seq<char>>::empty(), c),
    decreases c.len(),
{
    if c.len() > 0 {
        assert(!c.drop_last().contains('\n')) by {
            if c.drop_last().contains('\n') {
                let k = choose|k: int| 0 <= k < c.drop_last().len() && c.drop_last()[k] == '\n';
                assert(c[k] == '\n');
            }
        }
        lemma_scan_without_newline(c.drop_last());
        assert(c.last() != '\n') by {
            assert(c[c.len() - 1] == c.last());
        }
        assert(c.drop_last().push(c.last()) =~= c);
    }
}

proof fn lemma_scan_concat(a: Seq<char>, b: Seq<char>)
    requires
        scan_lines(a).1 == Seq::<char>::empty(),
    ensures
        scan_lines(a + b) == (scan_lines(a).0 + scan_lines(b).0, scan_lines(b).1),
    decreases b.len(),
{
    if b.len() == 0 {
        assert(a + b =~= a);
        assert(scan_lines(a).0 + Seq::<Seq<char>>::empty() =~= scan_lines(a).0);
    } else {
        lemma_scan_concat(a, b.drop_last());
        assert((a + b).drop_last() =~= a + b.drop_last());
        assert((a + b).last() == b.last());
        let (d, c) = scan_lines(b.drop_last());
        if b.last() == '\n' {
            assert(scan_lines(a).0 + d.push(strip_cr(c)) =~= (scan_lines(a).0 + d).push(
                strip_cr(c),
            ));
        }
    }
}

proof fn lemma_scan_joined(ls: Seq<Seq<char>>)
    requires
        ls.len() > 0,
        forall|i: int| 0 <= i < ls.len() ==> plain_line(#[trigger] ls[i]),
    ensures
        scan_lines(joined_with_newline(ls)) == (ls, Seq::<char>::empty()),
    decreases ls.len(),
{
    let l = ls.last();
    assert(plain_line(ls[ls.len() - 1]));
    lemma_scan_without_newline(l);
    assert(l.push('\n').drop_last() =~= l);
    assert(scan_lines(l.push('\n')) == (seq![strip_cr(l)], Seq::<char>::empty()));
    assert(strip_cr(l) == l);
    if ls.len() == 1 {
        assert(seq![l] =~= ls);
    } else {
        let rest = ls.drop_last();
        assert forall|i: int| 0 <= i < rest.len() implies plain_line(#[trigger] rest[i]) by {
            assert(rest[i] == ls[i]);
        }
        lemma_scan_joined(rest);
        let j = joined_with_newline(rest);
        lemma_joined_ends_with_newline(rest);
        assert(j.drop_last().push('\n') =~= j);
        lemma_scan_concat(j, l.push('\n'));
        assert(rest + seq![l] =~= ls);
    }
}

proof fn lemma_joined_ends_with_newline(ls: Seq<Seq<char>>)
    ensures
        joined_with_newline(ls).len() > 0,
        joined_with_newline(ls).last() == '\n',
    decreases ls.len(),
{
    if ls.len() > 1 {
        lemma_joined_ends_with_newline(ls.drop_last());
    }
}

/// Reading back the content that saving writes gives the lines again, as
/// long as there is a line and each line is one a file can hold.
pub proof fn law_saved_content_reads_back(ls: Seq<Seq<char>>)
    requires
        ls.len() > 0,
        forall|i: int| 0 <= i < ls.len() ==> plain_line(#[trigger] ls[i]),
    ensures
        lines_of(joined_with_newline(ls)) == ls,
{
    lemma_scan_joined(ls);
}

/// A saved document with a file is not dirty: the content last written
/// reads back as its lines, when each of them is one a file can hold.
pub proof fn law_saved_document_is_clean(before: Document, after: Document)
    requires
        after.saved_from(before),
        before.filename is Some,
        before.text().len() > 0,
        forall|i: int| 0 <= i < before.text().len() ==> plain_line(#[trigger] before.text()[i]),
    ensures
        after.original_lines() == after.text(),
{
    law_saved_content_reads_back(before.text());
}

} // verus!
