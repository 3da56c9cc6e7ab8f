//! Incremental search for a text in the document.
use crate::editor::input::Input;
use crate::editor::state::Editor;
use crate::text::{byte_len, byte_offset_of, chars_of, concat_strings, push_char, width_before};
use vstd::prelude::*;

verus! {

/// The search query, where it matches, and the current match.
pub struct Search {
    pub mode: bool,
    pub query: String,
    /// The `(line, byte offset)` of each match, in document order.
    pub results: Vec<(usize, usize)>,
    pub current_match_index: Option<usize>,
}

impl Default for Search {
    fn default() -> (s: Self)
        ensures
            !s.mode,
            s.query@ == Seq::<char>::empty(),
            s.results@.len() == 0,
            s.current_match_index is None,
    {
        Self::new()
    }
}

impl Search {
    pub fn new() -> (s: Self)
        ensures
            !s.mode,
            s.query@ == Seq::<char>::empty(),
            s.results@.len() == 0,
            s.current_match_index is None,
    {
        Self { mode: false, query: String::new(), results: Vec::new(), current_match_index: None }
    }
}

broadcast use vstd::string::group_string_axioms;

/// The character indices where `q` occurs in `s` from index `i` on, found
/// left to right without overlaps (as `str::match_indices` finds them).
pub open spec fn match_starts_from(s: Seq<char>, q: Seq<char>, i: int) -> Seq<int>
    decreases s.len() - i,
{
    if q.len() == 0 || i < 0 || i + q.len() > s.len() {
        Seq::empty()
    } else if s.subrange(i, i + q.len()) == q {
        seq![i] + match_starts_from(s, q, i + q.len())
    } else {
        match_starts_from(s, q, i + 1)
    }
}

/// The matches of `q` on line `row`, as `(row, byte offset)`.
pub open spec fn row_matches(lines: Seq<Seq<char>>, row: int, q: Seq<char>) -> Seq<(usize, usize)> {
    let starts = match_starts_from(lines[row], q, 0);
    Seq::new(starts.len(), |k: int| (row as usize, byte_len(lines[row].take(starts[k])) as usize))
}

/// The matches of `q` on the first `n` lines, in document order.
pub open spec fn all_matches(lines: Seq<Seq<char>>, q: Seq<char>, n: int) -> Seq<(usize, usize)>
    decreases n,
{
    if n <= 0 {
        Seq::empty()
    } else {
        all_matches(lines, q, n - 1) + row_matches(lines, n - 1, q)
    }
}

/// A match at or after the position `(cx, cy)`.
pub open spec fn at_or_after(m: (usize, usize), cx: usize, cy: usize) -> bool {
    m.0 > cy || (m.0 == cy && m.1 >= cx)
}

/// The first match at or after the cursor, or the first match when none is
/// after it.
pub open spec fn starting_match(results: Seq<(usize, usize)>, cx: usize, cy: usize) -> Option<usize> {
    if exists|i: int| 0 <= i < results.len() && #[trigger] at_or_after(results[i], cx, cy) {
        Some(
            (choose|i: int|
                0 <= i < results.len() && at_or_after(results[i], cx, cy) && forall|j: int|
                    0 <= j < i ==> !#[trigger] at_or_after(results[j], cx, cy)) as usize,
        )
    } else if results.len() > 0 {
        Some(0usize)
    } else {
        None
    }
}

/// The search status line.
pub open spec fn search_status(query: Seq<char>, no_match: bool) -> Seq<char> {
    "Search: "@ + query + if query.len() > 0 && no_match {
        " (No match)"@
    } else {
        Seq::<char>::empty()
    }
}

impl Editor {
    /// Every match lies on a line of the document.
    pub open spec fn matches_in_document(&self) -> bool {
        forall|i: int|
            0 <= i < self.search.results@.len() ==> (#[trigger] self.search.results@[i]).0
                < self.document.lines.len()
    }

    pub fn enter_search_mode(&mut self)
        ensures
            enter_search_mode_done(*old(self), *final(self)),
    {
        self.search.mode = true;
        self.search.query = String::new();
        self.search.results = Vec::new();
        self.search.current_match_index = None;
        self.status_message = "Search: ".to_string();
    }

    /// Moves the cursor to the current match.
    pub fn move_to_match(&mut self)
        requires
            old(self).matches_in_document(),
        ensures
            match old(self).search.current_match_index {
                Some(i) if i < old(self).search.results@.len() => {
                    let m = old(self).search.results@[i as int];
                    &&& final(self).cursor_y == m.0
                    &&& final(self).cursor_x == m.1
                    &&& final(self).desired_at_cursor()
                },
                _ => {
                    &&& final(self).cursor_x == old(self).cursor_x
                    &&& final(self).cursor_y == old(self).cursor_y
                    &&& final(self).desired_cursor_x == old(self).desired_cursor_x
                },
            },
            final(self).search == old(self).search,
            final(self).document == old(self).document,
            final(self).undo_redo == old(self).undo_redo,
            final(self).clipboard == old(self).clipboard,
            final(self).status_message == old(self).status_message,
            final(self).mode == old(self).mode,
            final(self).selection == old(self).selection,
    {
        match self.search.current_match_index {
            Some(index) => {
                if index < self.search.results.len() {
                    let (row, col) = self.search.results[index];
                    self.cursor_y = row;
                    self.cursor_x = col;
                    self.desired_cursor_x = self.scroll.get_display_width(
                        self.document.lines[row].as_str(),
                        col,
                    );
                }
            },
            None => {},
        }
    }

    /// Finds every match of the query and moves to the first one at or
    /// after the cursor (or to the first one).
    pub fn search(&mut self)
        ensures
            final(self).search.results@ == all_matches(
                old(self).text(),
                old(self).search.query@,
                old(self).text().len() as int,
            ),
            final(self).matches_in_document(),
            final(self).search.current_match_index == if old(self).search.query@.len() == 0 {
                None
            } else {
                starting_match(final(self).search.results@, old(self).cursor_x, old(self).cursor_y)
            },
            match final(self).search.current_match_index {
                Some(i) => {
                    let m = final(self).search.results@[i as int];
                    &&& final(self).cursor_y == m.0
                    &&& final(self).cursor_x == m.1
                    &&& final(self).desired_at_cursor()
                },
                None => {
                    &&& final(self).cursor_x == old(self).cursor_x
                    &&& final(self).cursor_y == old(self).cursor_y
                    &&& final(self).desired_cursor_x == old(self).desired_cursor_x
                },
            },
            final(self).search.query == old(self).search.query,
            final(self).search.mode == old(self).search.mode,
            final(self).document == old(self).document,
            final(self).undo_redo == old(self).undo_redo,
            final(self).clipboard == old(self).clipboard,
            final(self).status_message == old(self).status_message,
            final(self).mode == old(self).mode,
            final(self).selection == old(self).selection,
    {
        let ghost t = self.text();
        let q = chars_of(self.search.query.as_str());
        let ql = q.len();
        let mut results: Vec<(usize, usize)> = Vec::new();
        if ql == 0 {
            assert(all_matches(t, q@, t.len() as int) =~= Seq::<(usize, usize)>::empty()) by {
                lemma_no_matches(t, q@, t.len() as int);
            }
            self.search.results = results;
            self.search.current_match_index = None;
            return;
        }
        let mut row: usize = 0;
        while row < self.document.lines.len()
            invariant
                row <= self.document.lines.len(),
                t == self.text(),
                q@ == self.search.query@,
                ql == q.len() > 0,
                results@ == all_matches(t, q@, row as int),
                forall|i: int| 0 <= i < results@.len() ==> (#[trigger] results@[i]).0 < row,
                self.cursor_x == old(self).cursor_x,
                self.cursor_y == old(self).cursor_y,
                self.desired_cursor_x == old(self).desired_cursor_x,
                self.search == old(self).search,
                self.document == old(self).document,
                self.undo_redo == old(self).undo_redo,
                self.clipboard == old(self).clipboard,
                self.status_message == old(self).status_message,
                self.mode == old(self).mode,
                self.selection == old(self).selection,
            decreases self.document.lines.len() - row,
        {
            let v = self.document.line_chars(row);
            let ghost r0 = results@;
            let ghost starts = match_starts_from(v@, q@, 0);
            let ghost mut found: Seq<int> = Seq::empty();
            let mut i: usize = 0;
            while ql <= v.len() - i
                invariant
                    ql == q.len() > 0,
                    i <= v.len(),
                    byte_len(v@) <= usize::MAX,
                    v@ == t[row as int],
                    starts == match_starts_from(v@, q@, 0),
                    starts == found + match_starts_from(v@, q@, i as int),
                    results@ == r0 + Seq::new(found.len(), |k: int| (row, byte_len(v@.take(found[k])) as usize)),
                    forall|k: int| 0 <= k < found.len() ==> 0 <= #[trigger] found[k] <= v.len(),
                    forall|i: int| 0 <= i < r0.len() ==> (#[trigger] r0[i]).0 < row,
                decreases v.len() - i,
            {
                let mut j: usize = 0;
                let mut same = true;
                while j < ql
                    invariant
                        j <= ql == q.len(),
                        i + ql <= v.len(),
                        same == (forall|m: int| 0 <= m < j ==> v@[i + m] == q@[m]),
                    decreases ql - j,
                {
                    if v[i + j] != q[j] {
                        same = false;
                    }
                    j = j + 1;
                }
                proof {
                    if same {
                        assert(v@.subrange(i as int, i + ql) =~= q@);
                    } else {
                        let m = choose|m: int| 0 <= m < ql && v@[i + m] != q@[m];
                        assert(v@.subrange(i as int, i + ql)[m] != q@[m]);
                    }
                }
                if same {
                    let col = byte_offset_of(&v, i);
                    let ghost f0 = found;
                    results.push((row, col));
                    proof {
                        found = found.push(i as int);
                        assert(found + match_starts_from(v@, q@, i + ql) =~= f0 + (seq![i as int] + match_starts_from(v@, q@, i + ql)));
                        assert(results@ =~= r0 + Seq::new(found.len(), |k: int| (row, byte_len(v@.take(found[k])) as usize)));
                    }
                    i = i + ql;
                } else {
                    i = i + 1;
                }
            }
            proof {
                assert(match_starts_from(v@, q@, i as int) =~= Seq::<int>::empty());
                assert(found =~= starts);
                assert(results@ =~= all_matches(t, q@, row + 1));
            }
            row = row + 1;
        }
        self.search.results = results;
        self.search.current_match_index = None;
        let cy = self.cursor_y;
        let cx = self.cursor_x;
        let mut k: usize = 0;
        while k < self.search.results.len()
            invariant
                k <= self.search.results.len(),
                forall|j: int| 0 <= j < k ==> !#[trigger] at_or_after(self.search.results@[j], cx, cy),
                self.search.current_match_index is None,
                old(self).search.query@.len() > 0,
                self.search.results@ == all_matches(t, old(self).search.query@, t.len() as int),
                self.matches_in_document(),
                t == self.text(),
                cx == self.cursor_x,
                cy == self.cursor_y,
                cx == old(self).cursor_x,
                cy == old(self).cursor_y,
                self.desired_cursor_x == old(self).desired_cursor_x,
                self.search.query == old(self).search.query,
                self.search.mode == old(self).search.mode,
                self.document == old(self).document,
                self.undo_redo == old(self).undo_redo,
                self.clipboard == old(self).clipboard,
                self.status_message == old(self).status_message,
                self.mode == old(self).mode,
                self.selection == old(self).selection,
            decreases self.search.results.len() - k,
        {
            let (r, c) = self.search.results[k];
            if r > cy || (r == cy && c >= cx) {
                self.search.current_match_index = Some(k);
                proof {
                    let r = self.search.results@;
                    assert(at_or_after(r[k as int], cx, cy));
                    assert(0 <= k < r.len() && at_or_after(r[k as int], cx, cy) && forall|j: int|
                        0 <= j < k ==> !#[trigger] at_or_after(r[j], cx, cy));
                    let c = choose|i: int|
                        0 <= i < r.len() && at_or_after(r[i], cx, cy) && forall|j: int|
                            0 <= j < i ==> !#[trigger] at_or_after(r[j], cx, cy);
                    if c < k {
                        assert(!at_or_after(r[c], cx, cy));
                    }
                    if k < c {
                        assert(!at_or_after(r[k as int], cx, cy));
                    }
                    assert(c == k);
                    assert(starting_match(r, cx, cy) == Some(k));
                }
                self.move_to_match();
                return;
            }
            k = k + 1;
        }
        if self.search.results.len() > 0 {
            self.search.current_match_index = Some(0);
            self.move_to_match();
        }
    }

    /// Moves to the next match, round to the first after the last.
    pub fn move_to_next_match(&mut self)
        requires
            old(self).matches_in_document(),
            old(self).search.current_match_index matches Some(c) ==> c < usize::MAX,
        ensures
            old(self).search.results@.len() == 0 ==> final(self).search == old(self).search
                && final(self).cursor_x == old(self).cursor_x && final(self).cursor_y == old(
                self,
            ).cursor_y,
            old(self).search.results@.len() > 0 ==> {
                let n = old(self).search.results@.len();
                let i = match old(self).search.current_match_index {
                    Some(c) => ((c + 1) % (n as int)) as usize,
                    None => 0usize,
                };
                &&& final(self).search.current_match_index == Some(i)
                &&& final(self).cursor_y == old(self).search.results@[i as int].0
                &&& final(self).cursor_x == old(self).search.results@[i as int].1
            },
            final(self).search.results == old(self).search.results,
            final(self).search.query == old(self).search.query,
            final(self).search.mode == old(self).search.mode,
            final(self).document == old(self).document,
            final(self).undo_redo == old(self).undo_redo,
            final(self).clipboard == old(self).clipboard,
            final(self).status_message == old(self).status_message,
            final(self).mode == old(self).mode,
            final(self).selection == old(self).selection,
    {
        if self.search.results.len() == 0 {
            return;
        }
        let next_index = match self.search.current_match_index {
            Some(idx) => (idx + 1) % self.search.results.len(),
            None => 0,
        };
        self.search.current_match_index = Some(next_index);
        self.move_to_match();
    }

    /// Moves to the previous match, round to the last before the first.
    pub fn move_to_prev_match(&mut self)
        requires
            old(self).matches_in_document(),
        ensures
            old(self).search.results@.len() == 0 ==> final(self).search == old(self).search
                && final(self).cursor_x == old(self).cursor_x && final(self).cursor_y == old(
                self,
            ).cursor_y,
            old(self).search.results@.len() > 0 ==> {
                let n = old(self).search.results@.len();
                let i = match old(self).search.current_match_index {
                    Some(c) => if c == 0 {
                        (n - 1) as usize
                    } else {
                        (c - 1) as usize
                    },
                    None => (n - 1) as usize,
                };
                &&& final(self).search.current_match_index == Some(i)
                &&& i < n ==> final(self).cursor_y == old(self).search.results@[i as int].0
                    && final(self).cursor_x == old(self).search.results@[i as int].1
            },
            final(self).search.results == old(self).search.results,
            final(self).search.query == old(self).search.query,
            final(self).search.mode == old(self).search.mode,
            final(self).document == old(self).document,
            final(self).undo_redo == old(self).undo_redo,
            final(self).clipboard == old(self).clipboard,
            final(self).status_message == old(self).status_message,
            final(self).mode == old(self).mode,
            final(self).selection == old(self).selection,
    {
        if self.search.results.len() == 0 {
            return;
        }
        let prev_index = match self.search.current_match_index {
            Some(idx) => {
                if idx == 0 {
                    self.search.results.len() - 1
                } else {
                    idx - 1
                }
            },
            None => self.search.results.len() - 1,
        };
        self.search.current_match_index = Some(prev_index);
        self.move_to_match();
    }

    /// Handles a key in search mode: Esc, Enter or Ctrl-G leave, Ctrl-S
    /// and Ctrl-N go to the next match, Ctrl-R to the previous one,
    /// Backspace and characters edit the query and search again. While the
    /// search goes on, the status shows the query.
    pub fn handle_search_input(&mut self, key: Input)
        requires
            old(self).matches_in_document(),
            old(self).search.current_match_index matches Some(c) ==> c < usize::MAX,
        ensures
            handle_search_input_done(*old(self), *final(self), key),
    {
        match key {
            Input::Character(c) => {
                if c == '\x1b' || c == '\n' || c == '\r' || c == '\x07' {
                    self.search.mode = false;
                    self.search.query = String::new();
                    self.search.results = Vec::new();
                    self.search.current_match_index = None;
                    self.status_message = String::new();
                } else if c == '\x13' || c == '\x0e' {
                    self.move_to_next_match();
                } else if c == '\x12' {
                    self.move_to_prev_match();
                } else if c == '\x7f' || c == '\x08' {
                    self.search.query = crate::text::without_last_char(self.search.query.as_str());
                    self.search();
                } else {
                    push_char(&mut self.search.query, c);
                    self.search();
                }
            },
            _ => {},
        }
        if self.search.mode {
            let a = concat_strings("Search: ", self.search.query.as_str());
            if crate::text::str_byte_len(self.search.query.as_str()) > 0 && self.search.results.len() == 0 {
                proof {
                    crate::text::lemma_byte_len_bounds(self.search.query@);
                }
                self.status_message = concat_strings(a.as_str(), " (No match)");
            } else {
                proof {
                    crate::text::lemma_byte_len_bounds(self.search.query@);
                    assert(a@ + Seq::<char>::empty() =~= a@);
                }
                self.status_message = a;
            }
        }
    }
}

/// The first `n` lines hold no match of an empty query.
proof fn lemma_no_matches(lines: Seq<Seq<char>>, q: Seq<char>, n: int)
    requires
        q.len() == 0,
    ensures
        all_matches(lines, q, n) == Seq::<(usize, usize)>::empty(),
    decreases n,
{
    if n > 0 {
        lemma_no_matches(lines, q, n - 1);
        assert(row_matches(lines, n - 1, q) =~= Seq::<(usize, usize)>::empty());
        assert(all_matches(lines, q, n) =~= Seq::<(usize, usize)>::empty());
    }
}

/// What `Editor::enter_search_mode` does.
pub open spec fn enter_search_mode_done(before: Editor, after: Editor) -> bool {
    &&& after.search.mode
    &&& after.search.query@.len() == 0
    &&& after.search.results@.len() == 0
    &&& after.search.current_match_index is None
    &&& after.status_message@ == "Search: "@
    &&& after.document == before.document
    &&& after.undo_redo == before.undo_redo
    &&& after.cursor_x == before.cursor_x
    &&& after.cursor_y == before.cursor_y
    &&& after.clipboard == before.clipboard
    &&& after.mode == before.mode
    &&& after.selection == before.selection
}

/// What `Editor::handle_search_input` does.
pub open spec fn handle_search_input_done(before: Editor, after: Editor, key: Input) -> bool {
    &&& after.matches_in_document()
    &&& match key {
            Input::Character(c) => if c == '\x1b' || c == '\n' || c == '\r' || c == '\x07' {
                &&& !after.search.mode
                &&& after.search.query@.len() == 0
                &&& after.search.results@.len() == 0
                &&& after.search.current_match_index is None
                &&& after.status_message@.len() == 0
            } else if c == '\x13' || c == '\x0e' || c == '\x12' {
                &&& after.search.query == before.search.query
                &&& after.search.results == before.search.results
            } else {
                &&& after.search.query@ == if c == '\x7f' || c == '\x08' {
                    if before.search.query@.len() == 0 {
                        before.search.query@
                    } else {
                        before.search.query@.drop_last()
                    }
                } else {
                    before.search.query@.push(c)
                }
                &&& after.search.results@ == all_matches(
                    before.text(),
                    after.search.query@,
                    before.text().len() as int,
                )
            },
            _ => {
                &&& after.search.query == before.search.query
                &&& after.search.results == before.search.results
                &&& after.cursor_x == before.cursor_x
                &&& after.cursor_y == before.cursor_y
            },
        }
    &&& after.search.mode ==> after.status_message@ == search_status(
            after.search.query@,
            after.search.results@.len() == 0,
        )
    &&& after.document == before.document
    &&& after.undo_redo == before.undo_redo
    &&& after.clipboard == before.clipboard
    &&& after.mode == before.mode
    &&& after.selection == before.selection
}

} // verus!
