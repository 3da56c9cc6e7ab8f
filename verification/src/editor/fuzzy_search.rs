//! Jumping to a line chosen by fuzzy matching.
use crate::document::{view_lines, Document};
use crate::editor::input::Input;
use crate::editor::state::{Editor, EditorMode};
use crate::text::push_char;
use fuzzy_matcher::skim::SkimMatcherV2;
use fuzzy_matcher::FuzzyMatcher;
use vstd::prelude::*;

verus! {

/// The score that `fuzzy_matcher`'s default skim matcher gives `choice` for
/// `pattern`, or `None` when the pattern does not match.
pub uninterp spec fn skim_fuzzy_match(choice: Seq<char>, pattern: Seq<char>) -> Option<i64>;

/// Matches `choice` against `pattern` with
/// `fuzzy_matcher::skim::SkimMatcherV2::default().fuzzy_match`. The result is
/// a function of the two texts; an empty pattern matches with score 0.
#[verifier::external_body]
pub fn fuzzy_match(choice: &str, pattern: &str) -> (r: Option<i64>)
    ensures
        r == skim_fuzzy_match(choice@, pattern@),
        pattern@.len() == 0 ==> r == Some(0i64),
{
    SkimMatcherV2::default().fuzzy_match(choice, pattern)
}

/// The lines of `lines` that `query` matches, each with its index.
pub open spec fn matching_lines(lines: Seq<Seq<char>>, query: Seq<char>) -> Seq<(Seq<char>, usize)>
    decreases lines.len(),
{
    if lines.len() == 0 {
        Seq::empty()
    } else {
        let rest = matching_lines(lines.drop_last(), query);
        if query.len() == 0 || skim_fuzzy_match(lines.last(), query) is Some {
            rest.push((lines.last(), (lines.len() - 1) as usize))
        } else {
            rest
        }
    }
}

/// The matches, as character sequences with line indices.
pub open spec fn matches_view(m: Seq<(String, usize)>) -> Seq<(Seq<char>, usize)> {
    Seq::new(m.len(), |i: int| (m[i].0@, m[i].1))
}

/// The query, the lines it matches, and the highlighted one.
pub struct FuzzySearch {
    pub query: String,
    pub matches: Vec<(String, usize)>,
    pub selected_index: usize,
    pub scroll_offset: usize,
}

impl Default for FuzzySearch {
    fn default() -> (f: Self)
        ensures
            f.query@ == Seq::<char>::empty(),
            f.matches@.len() == 0,
            f.selected_index == 0,
            f.scroll_offset == 0,
    {
        Self::new()
    }
}

impl FuzzySearch {
    pub fn new() -> (f: Self)
        ensures
            f.query@ == Seq::<char>::empty(),
            f.matches@.len() == 0,
            f.selected_index == 0,
            f.scroll_offset == 0,
    {
        Self { query: String::new(), matches: Vec::new(), selected_index: 0, scroll_offset: 0 }
    }

    pub fn reset(&mut self)
        ensures
            final(self).query@ == Seq::<char>::empty(),
            final(self).matches@.len() == 0,
            final(self).selected_index == 0,
            final(self).scroll_offset == 0,
    {
        self.query = String::new();
        self.matches = Vec::new();
        self.selected_index = 0;
        self.scroll_offset = 0;
    }

    /// Every line when the query is empty, otherwise the lines that the
    /// query matches, in order; the first is selected.
    pub fn update_matches(&mut self, document: &Document)
        ensures
            matches_view(final(self).matches@) == matching_lines(document.text(), old(self).query@),
            final(self).selected_index == 0,
            final(self).query == old(self).query,
            final(self).scroll_offset == old(self).scroll_offset,
    {
        let ghost t = document.text();
        let empty_query = crate::text::str_byte_len(self.query.as_str()) == 0;
        proof {
            crate::text::lemma_byte_len_bounds(self.query@);
        }
        let mut m: Vec<(String, usize)> = Vec::new();
        let mut i: usize = 0;
        assert(t.take(0) =~= Seq::<Seq<char>>::empty());
        while i < document.lines.len()
            invariant
                i <= document.lines.len(),
                t == document.text(),
                empty_query == (self.query@.len() == 0),
                matches_view(m@) == matching_lines(t.take(i as int), self.query@),
            decreases document.lines.len() - i,
        {
            assert(t.take(i + 1).drop_last() =~= t.take(i as int));
            let keep = empty_query || fuzzy_match(document.lines[i].as_str(), self.query.as_str()).is_some();
            if keep {
                let line = document.lines[i].clone();
                let ghost m0 = m@;
                m.push((line, i));
                assert(matches_view(m@) =~= matches_view(m0).push((t[i as int], i)));
            }
            i = i + 1;
        }
        assert(t.take(document.lines.len() as int) =~= t);
        self.matches = m;
        self.selected_index = 0;
    }

    /// Handles a key: Esc leaves, Enter jumps to the selected line and
    /// leaves, Backspace and characters edit the query, Up and Down move the
    /// selection round the list. Returns whether the search goes on.
    pub fn handle_input(
        &mut self,
        key: Input,
        cursor_y: &mut usize,
        cursor_x: &mut usize,
        document: &Document,
    ) -> (r: bool)
        ensures
            key == Input::Character('\x1b') ==> !r && final(self).query@.len() == 0
                && final(self).matches@.len() == 0 && *final(cursor_y) == *old(cursor_y)
                && *final(cursor_x) == *old(cursor_x),
            key == Input::Character('\n') ==> !r && final(self).query@.len() == 0
                && final(self).matches@.len() == 0 && (if old(self).selected_index < old(
                self,
            ).matches@.len() {
                *final(cursor_y) == old(self).matches@[old(self).selected_index as int].1
                    && *final(cursor_x) == 0
            } else {
                *final(cursor_y) == *old(cursor_y) && *final(cursor_x) == *old(cursor_x)
            }),
            key != Input::Character('\x1b') && key != Input::Character('\n') ==> r
                && *final(cursor_y) == *old(cursor_y) && *final(cursor_x) == *old(cursor_x),
            (key == Input::KeyBackspace || key == Input::KeyDC || key == Input::Character('\x7f')
                || key == Input::Character('\x08')) ==> final(self).query@ == (if old(
                self,
            ).query@.len() == 0 {
                old(self).query@
            } else {
                old(self).query@.drop_last()
            }) && matches_view(final(self).matches@) == matching_lines(
                document.text(),
                final(self).query@,
            ) && final(self).selected_index == 0,
            (key matches Input::Character(c) && c != '\x1b' && c != '\n' && c != '\x7f' && c
                != '\x08') ==> final(self).query@ == old(self).query@.push(key->Character_0)
                && matches_view(final(self).matches@) == matching_lines(
                document.text(),
                final(self).query@,
            ) && final(self).selected_index == 0,
            key == Input::KeyUp ==> final(self).query == old(self).query && final(self).matches
                == old(self).matches && final(self).selected_index == (if old(self).matches@.len()
                == 0 {
                old(self).selected_index
            } else if old(self).selected_index > 0 {
                (old(self).selected_index - 1) as usize
            } else {
                (old(self).matches@.len() - 1) as usize
            }),
            key == Input::KeyDown ==> final(self).query == old(self).query && final(self).matches
                == old(self).matches && final(self).selected_index == (if old(self).matches@.len()
                == 0 {
                old(self).selected_index
            } else if old(self).selected_index < old(self).matches@.len() - 1 {
                (old(self).selected_index + 1) as usize
            } else {
                0usize
            }),
    {
        match key {
            Input::Character('\x1b') => {
                self.reset();
                return false;
            },
            Input::Character('\n') => {
                if self.selected_index < self.matches.len() {
                    *cursor_y = self.matches[self.selected_index].1;
                    *cursor_x = 0;
                }
                self.reset();
                return false;
            },
            Input::KeyBackspace | Input::KeyDC | Input::Character('\x7f') | Input::Character(
                '\x08',
            ) => {
                self.query = crate::text::without_last_char(self.query.as_str());
                self.update_matches(document);
            },
            Input::Character(c) => {
                push_char(&mut self.query, c);
                self.update_matches(document);
            },
            Input::KeyUp => {
                if self.matches.len() > 0 {
                    if self.selected_index > 0 {
                        self.selected_index = self.selected_index - 1;
                    } else {
                        self.selected_index = self.matches.len() - 1;
                    }
                }
            },
            Input::KeyDown => {
                if self.matches.len() > 0 {
                    if self.selected_index < self.matches.len() - 1 {
                        self.selected_index = self.selected_index + 1;
                    } else {
                        self.selected_index = 0;
                    }
                }
            },
            _ => {},
        }
        true
    }
}

impl Editor {
    /// Starts fuzzy search, listing every line.
    pub fn enter_fuzzy_search_mode(&mut self)
        ensures
            enter_fuzzy_search_mode_done(*old(self), *final(self)),
    {
        self.mode = EditorMode::FuzzySearch;
        self.fuzzy_search.update_matches(&self.document);
    }

    /// Hands a key to the fuzzy search; when the search ends, the editor
    /// goes back to normal mode.
    pub fn handle_fuzzy_search_input(&mut self, key: Input)
        ensures
            handle_fuzzy_search_input_done(*old(self), *final(self), key),
    {
        let go_on = self.fuzzy_search.handle_input(
            key,
            &mut self.cursor_y,
            &mut self.cursor_x,
            &self.document,
        );
        if !go_on {
            self.mode = EditorMode::Normal;
            self.fuzzy_search.reset();
        }
    }
}

/// What `Editor::enter_fuzzy_search_mode` does.
pub open spec fn enter_fuzzy_search_mode_done(before: Editor, after: Editor) -> bool {
    &&& after.mode == EditorMode::FuzzySearch
    &&& matches_view(after.fuzzy_search.matches@) == matching_lines(
            before.text(),
            before.fuzzy_search.query@,
        )
    &&& after.fuzzy_search.selected_index == 0
    &&& after.fuzzy_search.query == before.fuzzy_search.query
    &&& after.document == before.document
    &&& after.undo_redo == before.undo_redo
    &&& after.cursor_x == before.cursor_x
    &&& after.cursor_y == before.cursor_y
    &&& after.clipboard == before.clipboard
}

/// What `Editor::handle_fuzzy_search_input` does.
pub open spec fn handle_fuzzy_search_input_done(before: Editor, after: Editor, key: Input) -> bool {
    &&& (key == Input::Character('\x1b') || key == Input::Character('\n')) ==> {
            &&& after.mode == EditorMode::Normal
            &&& after.fuzzy_search.query@.len() == 0
            &&& after.fuzzy_search.matches@.len() == 0
        }
    &&& key == Input::Character('\n') && before.fuzzy_search.selected_index < before.fuzzy_search.matches@.len() ==> {
            &&& after.cursor_y == before.fuzzy_search.matches@[before.fuzzy_search.selected_index as int].1
            &&& after.cursor_x == 0
        }
    &&& !(key == Input::Character('\x1b') || key == Input::Character('\n')) ==> {
            &&& after.mode == before.mode
            &&& after.cursor_x == before.cursor_x
            &&& after.cursor_y == before.cursor_y
        }
    &&& after.document == before.document
    &&& after.undo_redo == before.undo_redo
    &&& after.clipboard == before.clipboard
}

} // verus!
