//! Moving lines up and down, and jumping between pages separated by `---`.
use crate::document::{view_lines, ActionDiff, DiffView};
use crate::editor::state::Editor;
use crate::editor::undo::LastActionType;
use crate::text::{byte_len, chars_eq, lemma_boundary_ends, str_byte_len};
use vstd::prelude::*;

verus! {

/// Lines `i` and `i + 1` swapped.
pub open spec fn swap_lines(lines: Seq<Seq<char>>, i: int) -> Seq<Seq<char>> {
    lines.update(i, lines[i + 1]).update(i + 1, lines[i])
}

/// A page separator line.
pub open spec fn is_delimiter(line: Seq<char>) -> bool {
    line == seq!['-', '-', '-']
}

/// The first separator at index `i` or after.
pub open spec fn first_delimiter_from(lines: Seq<Seq<char>>, i: int) -> Option<int>
    decreases lines.len() - i,
{
    if i < 0 || i >= lines.len() {
        None
    } else if is_delimiter(lines[i]) {
        Some(i)
    } else {
        first_delimiter_from(lines, i + 1)
    }
}

/// Where the next page starts, seen from line `y`: after `y` when it is a
/// separator, otherwise after the next separator below it.
pub open spec fn next_page(lines: Seq<Seq<char>>, y: int) -> Option<int> {
    if y < lines.len() && is_delimiter(lines[y]) {
        Some(y + 1)
    } else {
        match first_delimiter_from(lines, y + 1) {
            Some(i) => Some(i + 1),
            None => None,
        }
    }
}

/// The start of the nearest page that starts at line `i` or above: line 0,
/// or a line just after a separator.
pub open spec fn page_start_at_or_above(lines: Seq<Seq<char>>, i: int) -> int
    decreases i,
{
    if i <= 0 {
        0
    } else if is_delimiter(lines[i - 1]) {
        i
    } else {
        page_start_at_or_above(lines, i - 1)
    }
}

/// Where the page before line `y` starts.
pub open spec fn previous_page(lines: Seq<Seq<char>>, y: int) -> int {
    if y == 0 {
        0
    } else {
        page_start_at_or_above(lines, y - 1)
    }
}

/// Whether the line is a page separator.
fn is_delimiter_line(line: &str) -> (r: bool)
    ensures
        r == is_delimiter(line@),
{
    let v = crate::text::chars_of(line);
    let d = vec!['-', '-', '-'];
    assert(d@ =~= seq!['-', '-', '-']);
    chars_eq(&v, &d)
}

impl Editor {
    /// Swaps the cursor line with the line above; the cursor moves with it.
    pub fn move_line_up(&mut self)
        requires
            old(self).inv(),
            old(self).cursor_y < old(self).document.lines.len(),
        ensures
            move_line_up_done(*old(self), *final(self)),
    {
        if self.cursor_y == 0 {
            self.status_message = "Cannot move line up further.".to_string();
            return;
        }
        self.swap_with_next(self.cursor_y - 1, false);
        self.clipboard.last_action_was_kill = false;
    }

    /// Swaps the cursor line with the line below; the cursor moves with it.
    pub fn move_line_down(&mut self)
        requires
            old(self).inv(),
            old(self).cursor_y < old(self).document.lines.len(),
        ensures
            move_line_down_done(*old(self), *final(self)),
    {
        if self.cursor_y == self.document.lines.len() - 1 {
            self.status_message = "Cannot move line down further.".to_string();
            return;
        }
        self.swap_with_next(self.cursor_y, true);
        self.clipboard.last_action_was_kill = false;
    }

    /// Swaps lines `i` and `i + 1` with two edits: removing both lines,
    /// then inserting them the other way round. The cursor keeps its column
    /// and ends on line `i + 1` when `down`, on line `i` otherwise.
    fn swap_with_next(&mut self, i: usize, down: bool)
        requires
            old(self).inv(),
            i + 1 < old(self).document.lines.len(),
            old(self).cursor_y == if down {
                i
            } else {
                (i + 1) as usize
            },
        ensures
            final(self).inv(),
            final(self).text() == swap_lines(old(self).text(), i as int),
            final(self).cursor_x == old(self).cursor_x,
            final(self).cursor_y == if down {
                (i + 1) as usize
            } else {
                i
            },
            final(self).desired_at_cursor(),
            final(self).recorded_edit(old(self), LastActionType::LineMovement),
            final(self).recorded_cursors(
                old(self),
                (old(self).cursor_x, old(self).cursor_y),
                (final(self).cursor_x, final(self).cursor_y),
            ),
            final(self).frame(old(self)),
            final(self).status_message == old(self).status_message,
            final(self).clipboard == old(self).clipboard,
    {
        let x = self.cursor_x;
        let y = self.cursor_y;
        let ghost t = self.text();
        let line0 = self.document.lines[i].clone();
        let line1 = self.document.lines[i + 1].clone();
        let len0 = str_byte_len(line0.as_str());
        let len1 = str_byte_len(line1.as_str());
        let d1 = ActionDiff {
            cursor_start_x: x,
            cursor_start_y: y,
            cursor_end_x: 0,
            cursor_end_y: i,
            start_x: 0,
            start_y: i,
            end_x: len1,
            end_y: i + 1,
            new: Vec::new(),
            old: vec![line0.clone(), line1.clone()],
        };
        proof {
            lemma_boundary_ends(t[i as int]);
            lemma_boundary_ends(t[i + 1]);
            assert(d1@.new =~= Seq::<Seq<char>>::empty());
            assert(d1@.old =~= seq![t[i as int], t[i + 1]]);
            assert(t.subrange(i + 1, i + 1) =~= Seq::<Seq<char>>::empty());
            assert(d1@.old =~= crate::document::text_between(t, 0, i as int, len1 as int, i + 1));
            assert(d1@.deletes_from(t));
            crate::document::lemma_apply_len(d1@, t);
        }
        self.commit(LastActionType::LineMovement, &d1);
        let ghost t1 = self.text();
        assert(t1 =~= t.take(i as int) + seq![Seq::<char>::empty()] + t.skip(i + 2));
        let end_y: usize = if down {
            i + 1
        } else {
            i
        };
        let d2 = ActionDiff {
            cursor_start_x: 0,
            cursor_start_y: i,
            cursor_end_x: x,
            cursor_end_y: end_y,
            start_x: 0,
            start_y: i,
            end_x: len0,
            end_y: i + 1,
            new: vec![line1, line0],
            old: Vec::new(),
        };
        proof {
            lemma_boundary_ends(t1[i as int]);
            assert(d2@.old =~= Seq::<Seq<char>>::empty());
            assert(d2@.new =~= seq![t[i + 1], t[i as int]]);
            assert(d2@.inserts_into(t1));
            assert(d2@.new.subrange(1, 1) =~= Seq::<Seq<char>>::empty());
            assert(Seq::<char>::empty() + t[i + 1] =~= t[i + 1]);
            assert(t[i as int] + Seq::<char>::empty() =~= t[i as int]);
            assert(d2@.apply_to(t1, false) =~= swap_lines(t, i as int));
        }
        self.commit(LastActionType::Ammend, &d2);
    }

    /// Moves to the start of the next page: the line after the cursor line
    /// when that is a separator, otherwise the line after the next
    /// separator below; nothing happens when there is no such line. The
    /// view scrolls so that the line is at its top.
    pub fn move_to_next_delimiter(&mut self)
        ensures
            move_to_next_delimiter_done(*old(self), *final(self)),
    {
        self.clipboard.last_action_was_kill = false;
        let current = self.cursor_y;
        let n = self.document.lines.len();
        let ghost t = self.text();
        if n == 0 {
            return;
        }
        let mut target: Option<usize> = None;
        if current < n && is_delimiter_line(self.document.lines[current].as_str()) {
            target = Some(current + 1);
        } else if current < n - 1 {
            let mut i = current + 1;
            while i < n && !is_delimiter_line(self.document.lines[i].as_str())
                invariant
                    current + 1 <= i <= n == self.document.lines.len(),
                    t == self.text(),
                    first_delimiter_from(t, current + 1) == first_delimiter_from(t, i as int),
                decreases n - i,
            {
                i = i + 1;
            }
            if i < n {
                target = Some(i + 1);
            }
        } else {
            assert(first_delimiter_from(t, current + 1) is None);
        }
        match target {
            Some(new_y) => {
                if new_y >= n {
                    return;
                }
                self.cursor_y = new_y;
                self.cursor_x = 0;
                self.desired_cursor_x = 0;
                self.scroll.row_offset = new_y;
            },
            None => {},
        }
    }

    /// Moves to the start of the page above the cursor line: the nearest
    /// line above that follows a separator, or the first line. The view
    /// scrolls so that the line is at its top.
    pub fn move_to_previous_delimiter(&mut self)
        requires
            old(self).cursor_y <= old(self).document.lines.len(),
        ensures
            move_to_previous_delimiter_done(*old(self), *final(self)),
    {
        self.clipboard.last_action_was_kill = false;
        let current = self.cursor_y;
        let n = self.document.lines.len();
        let ghost t = self.text();
        if n == 0 {
            return;
        }
        let mut target: usize = 0;
        if current > 0 {
            let mut i = current - 1;
            while i > 0 && !is_delimiter_line(self.document.lines[i - 1].as_str())
                invariant
                    i < current <= n == self.document.lines.len(),
                    t == self.text(),
                    previous_page(t, current as int) == page_start_at_or_above(t, i as int),
                decreases i,
            {
                i = i - 1;
            }
            target = i;
        }
        self.cursor_y = target;
        self.cursor_x = 0;
        self.desired_cursor_x = 0;
        self.scroll.row_offset = target;
    }
}

/// What `Editor::move_line_up` does.
pub open spec fn move_line_up_done(before: Editor, after: Editor) -> bool {
    &&& after.inv()
    &&& before.cursor_y == 0 ==> {
            &&& after.document == before.document
            &&& after.undo_redo == before.undo_redo
            &&& after.cursor_x == before.cursor_x
            &&& after.cursor_y == before.cursor_y
            &&& after.clipboard == before.clipboard
            &&& after.status_message@ == "Cannot move line up further."@
        }
    &&& before.cursor_y > 0 ==> {
            &&& after.text() =~= swap_lines(before.text(), before.cursor_y - 1)
            &&& after.cursor_x == before.cursor_x
            &&& after.cursor_y == before.cursor_y - 1
            &&& after.desired_at_cursor()
            &&& after.recorded_edit(&before, LastActionType::LineMovement)
            &&& after.recorded_cursors(
                &before,
                (before.cursor_x, before.cursor_y),
                (after.cursor_x, after.cursor_y),
            )
            &&& !after.clipboard.last_action_was_kill
            &&& after.clipboard.kill_buffer == before.clipboard.kill_buffer
            &&& after.status_message == before.status_message
        }
    &&& after.frame(&before)
}

/// What `Editor::move_line_down` does.
pub open spec fn move_line_down_done(before: Editor, after: Editor) -> bool {
    &&& after.inv()
    &&& before.cursor_y == before.document.lines.len() - 1 ==> {
            &&& after.document == before.document
            &&& after.undo_redo == before.undo_redo
            &&& after.cursor_x == before.cursor_x
            &&& after.cursor_y == before.cursor_y
            &&& after.clipboard == before.clipboard
            &&& after.status_message@ == "Cannot move line down further."@
        }
    &&& before.cursor_y < before.document.lines.len() - 1 ==> {
            &&& after.text() =~= swap_lines(before.text(), before.cursor_y as int)
            &&& after.cursor_x == before.cursor_x
            &&& after.cursor_y == before.cursor_y + 1
            &&& after.desired_at_cursor()
            &&& after.recorded_edit(&before, LastActionType::LineMovement)
            &&& after.recorded_cursors(
                &before,
                (before.cursor_x, before.cursor_y),
                (after.cursor_x, after.cursor_y),
            )
            &&& !after.clipboard.last_action_was_kill
            &&& after.clipboard.kill_buffer == before.clipboard.kill_buffer
            &&& after.status_message == before.status_message
        }
    &&& after.frame(&before)
}

/// What `Editor::move_to_next_delimiter` does.
pub open spec fn move_to_next_delimiter_done(before: Editor, after: Editor) -> bool {
    &&& ({
            let t = before.text();
            match next_page(t, before.cursor_y as int) {
                Some(p) if p < t.len() => {
                    &&& after.cursor_x == 0
                    &&& after.cursor_y == p
                    &&& after.desired_cursor_x == 0
                    &&& after.scroll.row_offset == p
                },
                _ => {
                    &&& after.cursor_x == before.cursor_x
                    &&& after.cursor_y == before.cursor_y
                    &&& after.desired_cursor_x == before.desired_cursor_x
                    &&& after.scroll.row_offset == before.scroll.row_offset
                },
            }
        })
    &&& after.scroll.col_offset == before.scroll.col_offset
    &&& after.moved_from(&before)
}

/// What `Editor::move_to_previous_delimiter` does.
pub open spec fn move_to_previous_delimiter_done(before: Editor, after: Editor) -> bool {
    &&& before.document.lines.len() > 0 ==> {
            let p = previous_page(before.text(), before.cursor_y as int);
            &&& after.cursor_x == 0
            &&& after.cursor_y == p
            &&& after.desired_cursor_x == 0
            &&& after.scroll.row_offset == p
        }
    &&& before.document.lines.len() == 0 ==> after.cursor_x == before.cursor_x
            && after.cursor_y == before.cursor_y && after.scroll.row_offset
            == before.scroll.row_offset
    &&& after.scroll.col_offset == before.scroll.col_offset
    &&& after.moved_from(&before)
}

proof fn lemma_page_start(lines: Seq<Seq<char>>, i: int)
    requires
        0 <= i <= lines.len(),
    ensures
        0 <= page_start_at_or_above(lines, i) <= i,
        page_start_at_or_above(lines, i) == 0 || lines[page_start_at_or_above(lines, i) - 1]
            == seq!['-', '-', '-'],
        forall|j: int|
            page_start_at_or_above(lines, i) < j <= i ==> #[trigger] lines[j - 1] != seq![
                '-',
                '-',
                '-',
            ],
    decreases i,
{
    if i > 0 && !is_delimiter(lines[i - 1]) {
        lemma_page_start(lines, i - 1);
    }
}

proof fn lemma_first_delimiter(lines: Seq<Seq<char>>, i: int)
    requires
        0 <= i,
    ensures
        match first_delimiter_from(lines, i) {
            Some(d) => {
                &&& i <= d < lines.len()
                &&& lines[d] == seq!['-', '-', '-']
                &&& forall|j: int| i <= j < d ==> #[trigger] lines[j] != seq!['-', '-', '-']
            },
            None => forall|j: int|
                i <= j < lines.len() ==> #[trigger] lines[j] != seq!['-', '-', '-'],
        },
    decreases lines.len() - i,
{
    if i < lines.len() && !is_delimiter(lines[i]) {
        lemma_first_delimiter(lines, i + 1);
    }
}

/// Moving to the previous page from below the first line goes up, to the
/// first line or to a line just after a `---` line, with no `---` line
/// between it and the line the cursor was on; the cursor goes to the start
/// of that line, at the top of the view.
pub proof fn law_previous_page_goes_up(before: Editor, after: Editor)
    requires
        move_to_previous_delimiter_done(before, after),
        0 < before.cursor_y <= before.document.lines.len(),
    ensures
        after.cursor_y < before.cursor_y,
        after.cursor_y == 0 || before.text()[after.cursor_y - 1] == seq!['-', '-', '-'],
        forall|j: int|
            after.cursor_y < j < before.cursor_y ==> #[trigger] before.text()[j - 1] != seq![
                '-',
                '-',
                '-',
            ],
        after.cursor_x == 0,
        after.scroll.row_offset == after.cursor_y,
{
    lemma_page_start(before.text(), before.cursor_y - 1);
}

/// Moving to the next page from a line of the text goes down to the line
/// just after the first `---` line at or below the cursor, when a line
/// follows it; with no such `---` line the cursor stays where it is.
pub proof fn law_next_page_goes_down(before: Editor, after: Editor)
    requires
        move_to_next_delimiter_done(before, after),
        before.cursor_y < before.document.lines.len(),
    ensures
        ({
            let t = before.text();
            let y = before.cursor_y as int;
            if exists|i: int| y <= i < t.len() - 1 && #[trigger] t[i] == seq!['-', '-', '-'] {
                &&& y < after.cursor_y < t.len()
                &&& t[after.cursor_y - 1] == seq!['-', '-', '-']
                &&& forall|j: int|
                    y <= j < after.cursor_y - 1 ==> #[trigger] t[j] != seq!['-', '-', '-']
                &&& after.cursor_x == 0
                &&& after.scroll.row_offset == after.cursor_y
            } else {
                &&& after.cursor_x == before.cursor_x
                &&& after.cursor_y == before.cursor_y
            }
        }),
{
    let t = before.text();
    let y = before.cursor_y as int;
    lemma_first_delimiter(t, y + 1);
    if exists|i: int| y <= i < t.len() - 1 && #[trigger] t[i] == seq!['-', '-', '-'] {
        let i = choose|i: int| y <= i < t.len() - 1 && #[trigger] t[i] == seq!['-', '-', '-'];
        if !is_delimiter(t[y]) {
            assert(i > y);
        }
    }
}

} // verus!
