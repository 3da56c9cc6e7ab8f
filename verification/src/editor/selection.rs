//! The marker, and the text between it and the cursor.
use crate::document::{
    lemma_undo_reverts_apply, spec_delete, text_between, view_lines, ActionDiff, DiffView, Document,
};
use crate::error::Result;
use crate::lines::{join_lines, join_sep};
use crate::text::{byte_len, char_index_of, is_boundary, lemma_char_index_monotone, string_of_range};
use vstd::prelude::*;

verus! {

/// Position `a` comes before position `b`; positions are `(x, y)`.
pub open spec fn pos_before(a: (usize, usize), b: (usize, usize)) -> bool {
    a.1 < b.1 || (a.1 == b.1 && a.0 < b.0)
}

/// The range between the marker and the cursor, in document order.
pub open spec fn ordered_range(marker: (usize, usize), cursor: (usize, usize)) -> (
    (usize, usize),
    (usize, usize),
) {
    if pos_before(marker, cursor) {
        (marker, cursor)
    } else {
        (cursor, marker)
    }
}

/// The range from `s` to `e` lies in `lines`, at character boundaries.
pub open spec fn range_in(lines: Seq<Seq<char>>, s: (usize, usize), e: (usize, usize)) -> bool {
    &&& s.1 <= e.1 < lines.len()
    &&& is_boundary(lines[s.1 as int], s.0 as int)
    &&& is_boundary(lines[e.1 as int], e.0 as int)
    &&& s.1 == e.1 ==> s.0 <= e.0
}

/// The text of a range, its lines joined with `'\n'`.
pub open spec fn range_text(lines: Seq<Seq<char>>, s: (usize, usize), e: (usize, usize)) -> Seq<
    char,
> {
    join_sep(text_between(lines, s.0 as int, s.1 as int, e.0 as int, e.1 as int))
}

/// The marker that, with the cursor, delimits the selection.
pub struct Selection {
    pub marker_pos: Option<(usize, usize)>,
}

impl Default for Selection {
    fn default() -> (s: Self)
        ensures
            s.marker_pos is None,
    {
        Self::new()
    }
}

/// The lines of the text between two positions of the document.
pub fn text_in_range(document: &Document, s: (usize, usize), e: (usize, usize)) -> (r: Vec<
    String,
>)
    requires
        range_in(document.text(), s, e),
    ensures
        view_lines(r@) == text_between(document.text(), s.0 as int, s.1 as int, e.0 as int, e.1 as int),
{
    let ghost t = document.text();
    let first = document.line_chars(s.1);
    let ks = char_index_of(&first, s.0).unwrap();
    let mut r: Vec<String> = Vec::new();
    if s.1 == e.1 {
        let ke = char_index_of(&first, e.0).unwrap();
        proof {
            lemma_char_index_monotone(first@, s.0 as int, e.0 as int);
        }
        r.push(string_of_range(&first, ks, ke));
        assert(view_lines(r@) =~= text_between(t, s.0 as int, s.1 as int, e.0 as int, e.1 as int));
        return r;
    }
    r.push(string_of_range(&first, ks, first.len()));
    assert(first@.subrange(ks as int, first.len() as int) =~= first@.skip(ks as int));
    let mut y = s.1 + 1;
    while y < e.1
        invariant
            s.1 < y <= e.1 < document.lines.len(),
            t == document.text(),
            view_lines(r@) == seq![crate::text::skip_bytes(t[s.1 as int], s.0 as int)] + t.subrange(
                s.1 + 1,
                y as int,
            ),
        decreases e.1 - y,
    {
        let ghost r0 = r@;
        let item = document.lines[y].clone();
        assert(item@ == t[y as int]);
        r.push(item);
        assert(view_lines(r@) =~= view_lines(r0).push(t[y as int]));
        assert(t.subrange(s.1 + 1, y + 1) =~= t.subrange(s.1 + 1, y as int).push(t[y as int]));
        y = y + 1;
        assert(view_lines(r@) =~= seq![crate::text::skip_bytes(t[s.1 as int], s.0 as int)]
            + t.subrange(s.1 + 1, y as int));
    }
    let last = document.line_chars(e.1);
    let ke = char_index_of(&last, e.0).unwrap();
    r.push(string_of_range(&last, 0, ke));
    assert(last@.subrange(0, ke as int) =~= last@.take(ke as int));
    assert(view_lines(r@) =~= text_between(t, s.0 as int, s.1 as int, e.0 as int, e.1 as int));
    r
}

impl Selection {
    pub fn new() -> (s: Self)
        ensures
            s.marker_pos is None,
    {
        Self { marker_pos: None }
    }

    pub fn set_marker(&mut self, cursor_pos: (usize, usize))
        ensures
            final(self).marker_pos == Some(cursor_pos),
    {
        self.marker_pos = Some(cursor_pos);
    }

    pub fn clear_marker(&mut self)
        ensures
            final(self).marker_pos is None,
    {
        self.marker_pos = None;
    }

    pub fn is_selection_active(&self) -> (r: bool)
        ensures
            r == self.marker_pos is Some,
    {
        self.marker_pos.is_some()
    }

    /// The selected range in document order: from the earlier to the later
    /// of the marker and the cursor.
    pub fn get_selection_range(&self, cursor_pos: (usize, usize)) -> (r: Option<
        ((usize, usize), (usize, usize)),
    >)
        ensures
            r == match self.marker_pos {
                Some(m) => Some(ordered_range(m, cursor_pos)),
                None => None,
            },
    {
        match self.marker_pos {
            Some(marker) => {
                if marker.1 < cursor_pos.1 || (marker.1 == cursor_pos.1 && marker.0 < cursor_pos.0) {
                    Some((marker, cursor_pos))
                } else {
                    Some((cursor_pos, marker))
                }
            },
            None => None,
        }
    }

    /// Removes the selected text from the document and returns it; the
    /// marker is cleared. With no marker, the document stays as it is and
    /// the text is empty.
    pub fn cut_selection(&mut self, document: &mut Document, cursor_pos: (usize, usize)) -> (r:
        Result<String>)
        requires
            old(self).marker_pos matches Some(m) ==> ({
                let (s, e) = ordered_range(m, cursor_pos);
                range_in(old(document).text(), s, e)
            }),
        ensures
            final(self).marker_pos is None,
            final(document).filename == old(document).filename,
            final(document).original() == old(document).original(),
            r matches Ok(text) && (match old(self).marker_pos {
                Some(m) => {
                    let (s, e) = ordered_range(m, cursor_pos);
                    &&& text@ == range_text(old(document).text(), s, e)
                    &&& final(document).text() == spec_delete(
                        old(document).text(),
                        s.0 as int,
                        s.1 as int,
                        e.0 as int,
                        e.1 as int,
                    )
                },
                None => {
                    &&& text@ == Seq::<char>::empty()
                    &&& final(document).text() == old(document).text()
                },
            }),
    {
        let (text, diff) = match self.cut_selection_edit(document, cursor_pos) {
            Ok(p) => p,
            Err(e) => {
                return Err(e);
            },
        };
        if let Some(d) = diff {
            proof {
                lemma_undo_reverts_apply(d@, document.text());
            }
            let _ = document.apply_action_diff(&d, false);
        }
        Ok(text)
    }

    /// The selected text and the edit that removes it from the document;
    /// the marker is cleared. With no marker, an empty text and no edit.
    pub fn cut_selection_edit(&mut self, document: &Document, cursor_pos: (usize, usize)) -> (r: Result<
        (String, Option<ActionDiff>),
    >)
        requires
            old(self).marker_pos matches Some(m) ==> ({
                let (s, e) = ordered_range(m, cursor_pos);
                range_in(document.text(), s, e)
            }),
        ensures
            final(self).marker_pos is None,
            r matches Ok((text, diff)) && (match old(self).marker_pos {
                Some(m) => {
                    let (s, e) = ordered_range(m, cursor_pos);
                    &&& text@ == range_text(document.text(), s, e)
                    &&& diff matches Some(d) && d@ == (DiffView {
                        cursor_start_x: cursor_pos.0,
                        cursor_start_y: cursor_pos.1,
                        cursor_end_x: s.0,
                        cursor_end_y: s.1,
                        start_x: s.0,
                        start_y: s.1,
                        end_x: e.0,
                        end_y: e.1,
                        old: text_between(
                            document.text(),
                            s.0 as int,
                            s.1 as int,
                            e.0 as int,
                            e.1 as int,
                        ),
                        new: Seq::empty(),
                    })
                },
                None => text@ == Seq::<char>::empty() && diff is None,
            }),
    {
        match self.get_selection_range(cursor_pos) {
            Some((s, e)) => {
                let old_lines = text_in_range(document, s, e);
                let killed_text = join_lines(&old_lines);
                let new_lines: Vec<String> = Vec::new();
                let d = ActionDiff {
                    cursor_start_x: cursor_pos.0,
                    cursor_start_y: cursor_pos.1,
                    cursor_end_x: s.0,
                    cursor_end_y: s.1,
                    start_x: s.0,
                    start_y: s.1,
                    end_x: e.0,
                    end_y: e.1,
                    old: old_lines,
                    new: new_lines,
                };
                assert(view_lines(d.new@) =~= Seq::<Seq<char>>::empty());
                self.clear_marker();
                Ok((killed_text, Some(d)))
            },
            None => Ok((String::new(), None)),
        }
    }

    /// The selected text; the marker is cleared. With no marker, an empty
    /// text.
    pub fn copy_selection(&mut self, document: &Document, cursor_pos: (usize, usize)) -> (r: Result<
        String,
    >)
        requires
            old(self).marker_pos matches Some(m) ==> ({
                let (s, e) = ordered_range(m, cursor_pos);
                range_in(document.text(), s, e)
            }),
        ensures
            final(self).marker_pos is None,
            r matches Ok(text) && (match old(self).marker_pos {
                Some(m) => {
                    let (s, e) = ordered_range(m, cursor_pos);
                    text@ == range_text(document.text(), s, e)
                },
                None => text@ == Seq::<char>::empty(),
            }),
    {
        match self.get_selection_range(cursor_pos) {
            Some((s, e)) => {
                let lines = text_in_range(document, s, e);
                let copied = join_lines(&lines);
                self.clear_marker();
                Ok(copied)
            },
            None => Ok(String::new()),
        }
    }
}

} // verus!
