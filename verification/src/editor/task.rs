//! Moving unchecked tasks of the document to the cursor.
use crate::document::{view_lines, ActionDiff, DiffView};
use crate::editor::fuzzy_search::{fuzzy_match, skim_fuzzy_match, FuzzySearch};
use crate::editor::input::Input;
use crate::editor::state::{Editor, EditorMode};
use crate::editor::undo::LastActionType;
use crate::text::{byte_len, lemma_boundary_ends, str_byte_len};
use crate::lines::{has_prefix, trim_start};
use vstd::prelude::*;

verus! {

broadcast use vstd::string::group_string_axioms;

/// The unchecked tasks found below the cursor, and the one selected.
pub struct Task {
    /// The tasks shown, as `(line index, line)`.
    pub tasks: Vec<(usize, String)>,
    /// All the tasks found.
    pub all_tasks: Vec<(usize, String)>,
    pub selected_task_index: Option<usize>,
    pub task_display_offset: usize,
    pub fuzzy_search: FuzzySearch,
}

impl Default for Task {
    fn default() -> (t: Self)
        ensures
            t.tasks@.len() == 0,
            t.all_tasks@.len() == 0,
            t.selected_task_index is None,
            t.task_display_offset == 0,
    {
        Self::new()
    }
}

impl Task {
    pub fn new() -> (t: Self)
        ensures
            t.tasks@.len() == 0,
            t.all_tasks@.len() == 0,
            t.selected_task_index is None,
            t.task_display_offset == 0,
            t.fuzzy_search.query@.len() == 0,
            t.fuzzy_search.matches@.len() == 0,
            t.fuzzy_search.selected_index == 0,
            t.fuzzy_search.scroll_offset == 0,
    {
        Self {
            tasks: Vec::new(),
            all_tasks: Vec::new(),
            selected_task_index: None,
            task_display_offset: 0,
            fuzzy_search: FuzzySearch::new(),
        }
    }
}


/// The marker of an unchecked task.
pub open spec fn open_task_marker() -> Seq<char> {
    seq!['-', ' ', '[', ' ', ']', ' ']
}

/// A line holding an unchecked task, maybe indented.
pub open spec fn is_open_task(line: Seq<char>) -> bool {
    has_prefix(trim_start(line), open_task_marker())
}

/// The unchecked tasks of `lines` below line `y`, with their line indices.
pub open spec fn tasks_after(lines: Seq<Seq<char>>, y: int) -> Seq<(usize, Seq<char>)>
    decreases lines.len(),
{
    if lines.len() == 0 {
        Seq::empty()
    } else {
        let rest = tasks_after(lines.drop_last(), y);
        let i = lines.len() - 1;
        if i > y && is_open_task(lines.last()) {
            rest.push((i as usize, lines.last()))
        } else {
            rest
        }
    }
}

/// The tasks, with their lines as character sequences.
pub open spec fn tasks_view(v: Seq<(usize, String)>) -> Seq<(usize, Seq<char>)> {
    Seq::new(v.len(), |i: int| (v[i].0, v[i].1@))
}

/// Whether the line holds an unchecked task.
pub fn is_open_task_line(line: &str) -> (r: bool)
    ensures
        r == is_open_task(line@),
{
    let v = crate::text::chars_of(line);
    let t = crate::lines::trim_start_of(&v);
    let marker = vec!['-', ' ', '[', ' ', ']', ' '];
    assert(marker@ =~= open_task_marker());
    let r = crate::lines::has_prefix_at(&t, 0, &marker);
    assert(t@.skip(0) =~= t@);
    r
}

impl Editor {
    /// Collects the unchecked tasks below the cursor and selects the first;
    /// the status message tells how many there are.
    pub fn find_unchecked_tasks(&mut self)
        ensures
            tasks_view(final(self).task.all_tasks@) == tasks_after(
                old(self).text(),
                old(self).cursor_y as int,
            ),
            tasks_view(final(self).task.tasks@) == tasks_view(final(self).task.all_tasks@),
            final(self).task.selected_task_index == if final(self).task.tasks@.len() == 0 {
                None
            } else {
                Some(0usize)
            },
            final(self).task.task_display_offset == 0,
            final(self).task.fuzzy_search.query@.len() == 0,
            final(self).task.fuzzy_search.matches@.len() == 0,
            final(self).status_message@ == if final(self).task.tasks@.len() == 0 {
                "No unchecked tasks found below current line."@
            } else {
                "Found "@ + crate::text::decimal(final(self).task.tasks@.len()) + " unchecked tasks. Use Up/Down to select, SPACE to move, ESC/ENTER to exit."@
            },
            final(self).document == old(self).document,
            final(self).undo_redo == old(self).undo_redo,
            final(self).cursor_x == old(self).cursor_x,
            final(self).cursor_y == old(self).cursor_y,
            final(self).desired_cursor_x == old(self).desired_cursor_x,
            final(self).clipboard == old(self).clipboard,
            final(self).mode == old(self).mode,
            final(self).selection == old(self).selection,
            final(self).search == old(self).search,
            final(self).scroll == old(self).scroll,
            final(self).fuzzy_search == old(self).fuzzy_search,
            final(self).keymap == old(self).keymap,
            final(self).should_quit == old(self).should_quit,
    {
        self.task.fuzzy_search.reset();
        let ghost t = self.text();
        let mut found: Vec<(usize, String)> = Vec::new();
        let mut i: usize = 0;
        assert(t.take(0) =~= Seq::<Seq<char>>::empty());
        while i < self.document.lines.len()
            invariant
                i <= self.document.lines.len(),
                t == self.text(),
                tasks_view(found@) == tasks_after(t.take(i as int), self.cursor_y as int),
            decreases self.document.lines.len() - i,
        {
            assert(t.take(i + 1).drop_last() =~= t.take(i as int));
            if i > self.cursor_y && is_open_task_line(self.document.lines[i].as_str()) {
                let ghost f0 = found@;
                found.push((i, self.document.lines[i].clone()));
                assert(tasks_view(found@) =~= tasks_view(f0).push((i, t[i as int])));
            }
            i = i + 1;
        }
        assert(t.take(self.document.lines.len() as int) =~= t);
        self.task.all_tasks = clone_tasks(&found);
        self.task.tasks = found;
        self.task.task_display_offset = 0;
        if self.task.tasks.len() > 0 {
            self.task.selected_task_index = Some(0);
            let n = crate::text::decimal_string(self.task.tasks.len());
            let a = crate::text::concat_strings("Found ", n.as_str());
            self.status_message = crate::text::concat_strings(
                a.as_str(),
                " unchecked tasks. Use Up/Down to select, SPACE to move, ESC/ENTER to exit.",
            );
        } else {
            self.task.selected_task_index = None;
            self.status_message = "No unchecked tasks found below current line.".to_string();
        }
    }
}

/// A copy of a task list.
pub fn clone_tasks(v: &Vec<(usize, String)>) -> (r: Vec<(usize, String)>)
    ensures
        tasks_view(r@) == tasks_view(v@),
{
    let mut r: Vec<(usize, String)> = Vec::new();
    let mut i: usize = 0;
    while i < v.len()
        invariant
            i <= v.len(),
            tasks_view(r@) == tasks_view(v@).take(i as int),
        decreases v.len() - i,
    {
        let ghost r0 = r@;
        r.push((v[i].0, v[i].1.clone()));
        assert(tasks_view(r@) =~= tasks_view(r0).push(tasks_view(v@)[i as int]));
        i = i + 1;
        assert(tasks_view(v@).take(i as int) =~= tasks_view(v@).take(i - 1).push(tasks_view(v@)[i - 1]));
    }
    assert(tasks_view(v@).take(v.len() as int) =~= tasks_view(v@));
    r
}

/// An empty query keeps every task.
proof fn lemma_match_all(all: Seq<(usize, Seq<char>)>)
    ensures
        matching_tasks(all, Seq::<char>::empty()) == all,
    decreases all.len(),
{
    if all.len() > 0 {
        lemma_match_all(all.drop_last());
        assert(all.drop_last().push(all.last()) =~= all);
    }
}

/// The tasks of `all` that the query matches (all of them for an empty
/// query), in order.
pub open spec fn matching_tasks(all: Seq<(usize, Seq<char>)>, q: Seq<char>) -> Seq<(usize, Seq<char>)>
    decreases all.len(),
{
    if all.len() == 0 {
        Seq::empty()
    } else {
        let rest = matching_tasks(all.drop_last(), q);
        if q.len() == 0 || skim_fuzzy_match(all.last().1, q) is Some {
            rest.push(all.last())
        } else {
            rest
        }
    }
}

/// The height of the task list: four tenths of the screen rows, rounded.
pub open spec fn task_list_height(screen_rows: usize) -> nat {
    ((4 * screen_rows + 5) / 10) as nat
}

/// The shown tasks after the selected one was moved to the line at `y`
/// from line `o`: it is gone, and the tasks above `o` are one line lower.
pub open spec fn tasks_after_move(tasks: Seq<(usize, Seq<char>)>, sel: int, o: usize) -> Seq<
    (usize, Seq<char>),
> {
    let rest = tasks.remove(sel);
    Seq::new(
        rest.len(),
        |i: int|
            if rest[i].0 < o {
                ((rest[i].0 + 1) as usize, rest[i].1)
            } else {
                rest[i]
            },
    )
}

/// The tasks without those on line `o`.
pub open spec fn without_line(tasks: Seq<(usize, Seq<char>)>, o: usize) -> Seq<(usize, Seq<char>)>
    decreases tasks.len(),
{
    if tasks.len() == 0 {
        Seq::empty()
    } else {
        let rest = without_line(tasks.drop_last(), o);
        if tasks.last().0 != o {
            rest.push(tasks.last())
        } else {
            rest
        }
    }
}

/// The task list without the tasks on line `o`.
fn remove_line_tasks(v: &Vec<(usize, String)>, o: usize) -> (r: Vec<(usize, String)>)
    ensures
        tasks_view(r@) == without_line(tasks_view(v@), o),
{
    let ghost all = tasks_view(v@);
    let mut r: Vec<(usize, String)> = Vec::new();
    let mut i: usize = 0;
    assert(all.take(0) =~= Seq::<(usize, Seq<char>)>::empty());
    while i < v.len()
        invariant
            i <= v.len(),
            all == tasks_view(v@),
            tasks_view(r@) == without_line(all.take(i as int), o),
        decreases v.len() - i,
    {
        assert(all.take(i + 1).drop_last() =~= all.take(i as int));
        if v[i].0 != o {
            let ghost r0 = r@;
            r.push((v[i].0, v[i].1.clone()));
            assert(tasks_view(r@) =~= tasks_view(r0).push(all[i as int]));
        }
        i = i + 1;
    }
    assert(all.take(v.len() as int) =~= all);
    r
}

impl Editor {
    /// The rows of the task list: four tenths of the screen, rounded.
    pub fn task_ui_height(&self) -> (h: usize)
        ensures
            h == task_list_height(self.scroll.screen_rows),
    {
        let r = self.scroll.screen_rows;
        let h = (r / 5) * 2 + ((r % 5) * 4 + 5) / 10;
        assert(h == (4 * r + 5) / 10) by (nonlinear_arith)
            requires
                h == (r / 5) * 2 + ((r % 5) * 4 + 5) / 10,
        ;
        h
    }

    /// Shows the tasks that the task query matches and selects the first.
    fn update_task_matches(&mut self)
        ensures
            tasks_view(final(self).task.tasks@) == matching_tasks(
                tasks_view(old(self).task.all_tasks@),
                old(self).task.fuzzy_search.query@,
            ),
            final(self).task.selected_task_index == if final(self).task.tasks@.len() == 0 {
                None
            } else {
                Some(0usize)
            },
            final(self).task.task_display_offset == 0,
            final(self).task.all_tasks == old(self).task.all_tasks,
            final(self).task.fuzzy_search == old(self).task.fuzzy_search,
            final(self).document == old(self).document,
            final(self).undo_redo == old(self).undo_redo,
            final(self).cursor_x == old(self).cursor_x,
            final(self).cursor_y == old(self).cursor_y,
            final(self).clipboard == old(self).clipboard,
            final(self).mode == old(self).mode,
            final(self).status_message == old(self).status_message,
    {
        let ghost all = tasks_view(self.task.all_tasks@);
        let empty_query = str_byte_len(self.task.fuzzy_search.query.as_str()) == 0;
        proof {
            crate::text::lemma_byte_len_bounds(self.task.fuzzy_search.query@);
        }
        let mut shown: Vec<(usize, String)> = Vec::new();
        let mut i: usize = 0;
        assert(all.take(0) =~= Seq::<(usize, Seq<char>)>::empty());
        while i < self.task.all_tasks.len()
            invariant
                i <= self.task.all_tasks.len(),
                all == tasks_view(self.task.all_tasks@),
                empty_query == (self.task.fuzzy_search.query@.len() == 0),
                tasks_view(shown@) == matching_tasks(all.take(i as int), self.task.fuzzy_search.query@),
            decreases self.task.all_tasks.len() - i,
        {
            assert(all.take(i + 1).drop_last() =~= all.take(i as int));
            let keep = empty_query || fuzzy_match(
                self.task.all_tasks[i].1.as_str(),
                self.task.fuzzy_search.query.as_str(),
            ).is_some();
            if keep {
                let ghost s0 = shown@;
                shown.push((self.task.all_tasks[i].0, self.task.all_tasks[i].1.clone()));
                assert(tasks_view(shown@) =~= tasks_view(s0).push(all[i as int]));
            }
            i = i + 1;
        }
        assert(all.take(self.task.all_tasks.len() as int) =~= all);
        self.task.tasks = shown;
        if self.task.tasks.len() == 0 {
            self.task.selected_task_index = None;
        } else {
            self.task.selected_task_index = Some(0);
        }
        self.task.task_display_offset = 0;
    }

    /// Moves the selected task's line to the cursor line: the task line is
    /// removed (its text added to the kill buffer) and the task inserted
    /// above the cursor line; the cursor goes to the start of the line after
    /// it. The tasks above the removed line move one line down.
    #[verifier::spinoff_prover]
    #[verifier::rlimit(40)]
    fn move_selected_task(&mut self, sel: usize)
        requires
            old(self).inv(),
            sel < old(self).task.tasks@.len(),
            old(self).cursor_y < old(self).task.tasks@[sel as int].0,
            old(self).task.tasks@[sel as int].0 < old(self).document.lines.len(),
        ensures
            ({
                let t = old(self).text();
                let (o, c) = old(self).task.tasks@[sel as int];
                let cy = old(self).cursor_y as int;
                &&& final(self).inv()
                &&& final(self).text() == t.remove(o as int).insert(cy, c@)
                &&& final(self).cursor_x == 0
                &&& final(self).cursor_y == cy + 1
                &&& final(self).desired_at_cursor()
                &&& final(self).recorded_edit(old(self), LastActionType::Other)
                &&& final(self).recorded_cursors(
                    old(self),
                    (old(self).cursor_x, old(self).cursor_y),
                    (final(self).cursor_x, final(self).cursor_y),
                )
                &&& final(self).clipboard.kill_buffer@ == old(self).clipboard.kill_buffer@ + t[o as int]
                &&& tasks_view(final(self).task.tasks@) == tasks_after_move(
                    tasks_view(old(self).task.tasks@),
                    sel as int,
                    o,
                )
                &&& tasks_view(final(self).task.all_tasks@) == without_line(
                    tasks_view(old(self).task.all_tasks@),
                    o,
                )
            }),
            final(self).clipboard.last_action_was_kill == old(self).clipboard.last_action_was_kill,
            final(self).clipboard.clipboard_enabled == old(self).clipboard.clipboard_enabled,
            final(self).mode == old(self).mode,
            final(self).status_message == old(self).status_message,
            final(self).task.selected_task_index == old(self).task.selected_task_index,
            final(self).task.task_display_offset == old(self).task.task_display_offset,
            final(self).task.fuzzy_search == old(self).task.fuzzy_search,
            final(self).frame_but_scroll_task(old(self)),
    {
        let ghost t = self.text();
        let o = self.task.tasks[sel].0;
        let content = self.task.tasks[sel].1.clone();
        let cy = self.cursor_y;
        let cx = self.cursor_x;
        self.cursor_x = 0;
        self.cursor_y = o;
        let killed = self.document.lines[o].clone();
        let len = str_byte_len(killed.as_str());
        self.clipboard.kill_buffer = crate::text::concat_strings(
            self.clipboard.kill_buffer.as_str(),
            killed.as_str(),
        );
        let d1 = ActionDiff {
            cursor_start_x: cx,
            cursor_start_y: cy,
            cursor_end_x: 0,
            cursor_end_y: o,
            start_x: 0,
            start_y: o,
            end_x: len,
            end_y: o,
            new: Vec::new(),
            old: vec![killed],
        };
        proof {
            lemma_boundary_ends(t[o as int]);
            assert(d1@.new =~= Seq::<Seq<char>>::empty());
            assert(d1@.old =~= seq![t[o as int].subrange(0, t[o as int].len() as int)]);
            crate::editor::state::lemma_line_deletion(d1@, t, o as int, 0, t[o as int].len() as int);
            assert(t[o as int].take(0) + t[o as int].skip(t[o as int].len() as int) =~= Seq::<char>::empty());
        }
        self.commit(LastActionType::Other, &d1);
        let ghost t1 = self.text();
        let prev_len = str_byte_len(self.document.lines[o - 1].as_str());
        let d2 = ActionDiff {
            cursor_start_x: 0,
            cursor_start_y: o,
            cursor_end_x: prev_len,
            cursor_end_y: o - 1,
            start_x: prev_len,
            start_y: o - 1,
            end_x: 0,
            end_y: o,
            new: Vec::new(),
            old: vec![String::new(), String::new()],
        };
        proof {
            assert(d2@.new =~= Seq::<Seq<char>>::empty());
            assert(d2@.old =~= seq![Seq::<char>::empty(), Seq::<char>::empty()]);
            crate::editor::state::lemma_join_diff(d2@, t1, o - 1);
            assert(crate::editor::state::join_with_next(t1, o - 1) =~= t.remove(o as int)) by {
                assert(t[o - 1] + Seq::<char>::empty() =~= t[o - 1]);
            }
        }
        self.commit(LastActionType::Ammend, &d2);
        let ghost t2 = self.text();
        self.cursor_y = cy;
        self.cursor_x = cx;
        let ghost cv = content@;
        let d3 = ActionDiff {
            cursor_start_x: 0,
            cursor_start_y: cy,
            cursor_end_x: 0,
            cursor_end_y: cy + 1,
            start_x: 0,
            start_y: cy,
            end_x: 0,
            end_y: cy + 1,
            new: vec![content, String::new()],
            old: Vec::new(),
        };
        proof {
            lemma_boundary_ends(t2[cy as int]);
            assert(d3@.old =~= Seq::<Seq<char>>::empty());
            assert(d3@.new =~= seq![cv, Seq::<char>::empty()]);
            assert(byte_len(Seq::<char>::empty()) == 0);
            assert(d3@.inserts_into(t2));
            crate::document::lemma_apply_len(d3@, t2);
            assert(d3@.new.subrange(1, 1) =~= Seq::<Seq<char>>::empty());
            assert(Seq::<char>::empty() + cv =~= cv);
            assert(Seq::<char>::empty() + t2[cy as int] =~= t2[cy as int]);
            assert(d3@.apply_to(t2, false) =~= t.remove(o as int).insert(cy as int, cv));
        }
        self.commit(LastActionType::Ammend, &d3);
        let ghost before = tasks_view(self.task.tasks@);
        let _removed = self.task.tasks.remove(sel);
        let ghost rest = tasks_view(self.task.tasks@);
        assert(rest =~= before.remove(sel as int));
        let mut adjusted: Vec<(usize, String)> = Vec::new();
        let mut k: usize = 0;
        while k < self.task.tasks.len()
            invariant
                k <= self.task.tasks.len(),
                rest == tasks_view(self.task.tasks@),
                tasks_view(adjusted@) == tasks_after_move(before, sel as int, o).take(k as int),
                rest == before.remove(sel as int),
            decreases self.task.tasks.len() - k,
        {
            let (idx, ref line) = self.task.tasks[k];
            let ghost a0 = adjusted@;
            if idx < o {
                adjusted.push((idx + 1, line.clone()));
            } else {
                adjusted.push((idx, line.clone()));
            }
            assert(tasks_view(adjusted@) =~= tasks_view(a0).push(tasks_after_move(before, sel as int, o)[k as int]));
            assert(tasks_after_move(before, sel as int, o).take(k + 1) =~= tasks_after_move(before, sel as int, o).take(k as int).push(tasks_after_move(before, sel as int, o)[k as int]));
            k = k + 1;
        }
        assert(tasks_after_move(before, sel as int, o).take(k as int) =~= tasks_after_move(before, sel as int, o));
        self.task.tasks = adjusted;
        self.task.all_tasks = remove_line_tasks(&self.task.all_tasks, o);
    }

    /// Comments out the selected task's line with `# ` and drops it from
    /// the lists.
    fn comment_selected_task(&mut self, sel: usize)
        requires
            old(self).inv(),
            sel < old(self).task.tasks@.len(),
            old(self).task.tasks@[sel as int].0 < old(self).document.lines.len(),
            old(self).cursor_y < old(self).document.lines.len(),
        ensures
            ({
                let t = old(self).text();
                let o = old(self).task.tasks@[sel as int].0;
                &&& final(self).inv()
                &&& final(self).text() == t.update(o as int, seq!['#', ' '] + t[o as int])
                &&& final(self).recorded_edit(old(self), LastActionType::ToggleComment)
                &&& final(self).recorded_cursors(
                    old(self),
                    (old(self).cursor_x, old(self).cursor_y),
                    (final(self).cursor_x, final(self).cursor_y),
                )
                &&& final(self).desired_at_cursor()
                &&& tasks_view(final(self).task.tasks@) == tasks_view(old(self).task.tasks@).remove(
                    sel as int,
                )
                &&& tasks_view(final(self).task.all_tasks@) == without_line(
                    tasks_view(old(self).task.all_tasks@),
                    o,
                )
            }),
            final(self).cursor_x == old(self).cursor_x,
            final(self).cursor_y == old(self).cursor_y,
            final(self).clipboard == old(self).clipboard,
            final(self).mode == old(self).mode,
            final(self).status_message == old(self).status_message,
            final(self).task.selected_task_index == old(self).task.selected_task_index,
            final(self).task.task_display_offset == old(self).task.task_display_offset,
            final(self).task.fuzzy_search == old(self).task.fuzzy_search,
            final(self).frame_but_scroll_task(old(self)),
    {
        let ghost t = self.text();
        let o = self.task.tasks[sel].0;
        let cx = self.cursor_x;
        let cy = self.cursor_y;
        let mark = vec!['#', ' '];
        let d = ActionDiff {
            cursor_start_x: cx,
            cursor_start_y: cy,
            cursor_end_x: cx,
            cursor_end_y: cy,
            start_x: 0,
            start_y: o,
            end_x: 2,
            end_y: o,
            new: vec![crate::text::string_of(&mark)],
            old: Vec::new(),
        };
        proof {
            lemma_boundary_ends(t[o as int]);
            assert(d@.old =~= Seq::<Seq<char>>::empty());
            assert(d@.new =~= seq![seq!['#', ' ']]);
            crate::text::lemma_byte_len_ascii(seq!['#', ' ']);
            assert(d@.inserts_into(t));
            crate::document::lemma_apply_len(d@, t);
            assert(crate::text::insert_at(t[o as int], 0, seq!['#', ' ']) =~= seq!['#', ' '] + t[o as int]);
        }
        self.commit(LastActionType::ToggleComment, &d);
        let ghost before = tasks_view(self.task.tasks@);
        let _removed = self.task.tasks.remove(sel);
        assert(tasks_view(self.task.tasks@) =~= before.remove(sel as int));
        self.task.all_tasks = remove_line_tasks(&self.task.all_tasks, o);
    }

    /// Leaves task selection mode, forgetting the tasks and the query.
    fn exit_task_selection(&mut self)
        ensures
            final(self).mode == EditorMode::Normal,
            final(self).task.tasks@.len() == 0,
            final(self).task.all_tasks@.len() == 0,
            final(self).task.selected_task_index is None,
            final(self).task.task_display_offset == 0,
            final(self).task.fuzzy_search.query@.len() == 0,
            final(self).status_message@ == "Exited task selection mode."@,
            final(self).document == old(self).document,
            final(self).undo_redo == old(self).undo_redo,
            final(self).cursor_x == old(self).cursor_x,
            final(self).cursor_y == old(self).cursor_y,
            final(self).clipboard == old(self).clipboard,
    {
        self.mode = EditorMode::Normal;
        self.task.tasks = Vec::new();
        self.task.all_tasks = Vec::new();
        self.task.selected_task_index = None;
        self.task.task_display_offset = 0;
        self.task.fuzzy_search.reset();
        self.status_message = "Exited task selection mode.".to_string();
    }

    /// Handles a key in task selection mode: Up and Down move the
    /// selection round the list (scrolling it), Space moves the selected
    /// task to the cursor, `#` comments it out, Esc and Enter leave, Ctrl-G
    /// clears the filter query or leaves when it is empty, Backspace and
    /// other characters edit the filter query.
    pub fn handle_task_selection_input(&mut self, key: Input)
        requires
            old(self).inv(),
            old(self).task.selected_task_index matches Some(i) ==> old(self).task.tasks@.len() > 0
                && i < usize::MAX,
            key == Input::Character(' ') ==> match old(self).task.selected_task_index {
                Some(sel) => sel < old(self).task.tasks@.len() ==> old(self).cursor_y < old(
                    self,
                ).task.tasks@[sel as int].0 < old(self).document.lines.len(),
                None => true,
            },
            key == Input::Character('#') ==> match old(self).task.selected_task_index {
                Some(sel) => sel < old(self).task.tasks@.len() ==> old(self).task.tasks@[sel as int].0
                    < old(self).document.lines.len() && old(self).cursor_y < old(
                    self,
                ).document.lines.len(),
                None => true,
            },
        ensures
            handle_task_selection_input_done(*old(self), *final(self), key),
    {
        match key {
            Input::KeyUp => {
                let rows = self.task_ui_height();
                let rows = if rows >= 1 {
                    rows - 1
                } else {
                    0
                };
                match self.task.selected_task_index {
                    Some(idx) => {
                        if idx > 0 {
                            self.task.selected_task_index = Some(idx - 1);
                            if idx - 1 < self.task.task_display_offset {
                                self.task.task_display_offset = idx - 1;
                            }
                        } else if self.task.tasks.len() > 0 {
                            self.task.selected_task_index = Some(self.task.tasks.len() - 1);
                            let n = self.task.tasks.len();
                            self.task.task_display_offset = if n >= rows {
                                n - rows
                            } else {
                                0
                            };
                        }
                    },
                    None => {},
                }
            },
            Input::KeyDown => {
                let rows = self.task_ui_height();
                let rows = if rows >= 1 {
                    rows - 1
                } else {
                    0
                };
                match self.task.selected_task_index {
                    Some(idx) => {
                        if idx < self.task.tasks.len() - 1 {
                            self.task.selected_task_index = Some(idx + 1);
                            if idx + 1 >= rows && idx + 1 - rows >= self.task.task_display_offset {
                                self.task.task_display_offset = idx + 1 - rows + 1;
                            }
                        } else if self.task.tasks.len() > 0 {
                            self.task.selected_task_index = Some(0);
                            self.task.task_display_offset = 0;
                        }
                    },
                    None => {
                        if self.task.tasks.len() > 0 {
                            self.task.selected_task_index = Some(0);
                            self.task.task_display_offset = 0;
                        }
                    },
                }
            },
            Input::Character(' ') => {
                match self.task.selected_task_index {
                    Some(sel) => {
                        if sel < self.task.tasks.len() {
                            let ghost old_tasks = tasks_view(self.task.tasks@);
                            let ghost o = self.task.tasks@[sel as int].0;
                            self.move_selected_task(sel);
                            let n = self.task.tasks.len();
                            assert(tasks_view(self.task.tasks@).len() == self.task.tasks@.len());
                            assert(tasks_after_move(old_tasks, sel as int, o).len() == old_tasks.len() - 1);
                            if n == 0 {
                                self.task.selected_task_index = None;
                                self.status_message =
                                    "All tasks moved. Exiting task selection mode.".to_string();
                                self.mode = EditorMode::Normal;
                            } else {
                                if sel >= n {
                                    self.task.selected_task_index = Some(n - 1);
                                } else {
                                    self.task.selected_task_index = Some(sel);
                                }
                                let count = crate::text::decimal_string(n);
                                let a = crate::text::concat_strings("Task moved. ", count.as_str());
                                self.status_message = crate::text::concat_strings(
                                    a.as_str(),
                                    " tasks remaining.",
                                );
                            }
                        }
                    },
                    None => {},
                }
            },
            Input::Character('#') => {
                match self.task.selected_task_index {
                    Some(sel) => {
                        if sel < self.task.tasks.len() {
                            let ghost n0 = self.task.tasks@.len();
                            self.comment_selected_task(sel);
                            let n = self.task.tasks.len();
                            assert(tasks_view(self.task.tasks@).len() == self.task.tasks@.len());
                            assert(n == n0 - 1);
                            if n == 0 {
                                self.task.selected_task_index = None;
                                self.status_message =
                                    "All tasks handled. Exiting task selection mode.".to_string();
                                self.mode = EditorMode::Normal;
                            } else {
                                if sel >= n {
                                    self.task.selected_task_index = Some(n - 1);
                                }
                                let count = crate::text::decimal_string(n);
                                let a = crate::text::concat_strings(
                                    "Task commented out. ",
                                    count.as_str(),
                                );
                                self.status_message = crate::text::concat_strings(
                                    a.as_str(),
                                    " tasks remaining.",
                                );
                            }
                        }
                    },
                    None => {},
                }
            },
            Input::Character('\x1b') | Input::Character('\n') | Input::Character('\r') => {
                self.exit_task_selection();
            },
            Input::Character('\x07') => {
                if str_byte_len(self.task.fuzzy_search.query.as_str()) > 0 {
                    self.task.fuzzy_search.query = String::new();
                    proof {
                        lemma_match_all(tasks_view(self.task.all_tasks@));
                    }
                    self.update_task_matches();
                } else {
                    self.exit_task_selection();
                }
            },
            Input::KeyBackspace | Input::KeyDC | Input::Character('\x7f') | Input::Character(
                '\x08',
            ) => {
                if str_byte_len(self.task.fuzzy_search.query.as_str()) > 0 {
                    proof {
                        crate::text::lemma_byte_len_bounds(self.task.fuzzy_search.query@);
                    }
                    self.task.fuzzy_search.query = crate::text::without_last_char(
                        self.task.fuzzy_search.query.as_str(),
                    );
                    self.update_task_matches();
                } else {
                    proof {
                        crate::text::lemma_byte_len_bounds(self.task.fuzzy_search.query@);
                    }
                }
            },
            Input::Character(c) => {
                crate::text::push_char(&mut self.task.fuzzy_search.query, c);
                self.update_task_matches();
            },
            _ => {
                self.status_message = "Task selection mode. Use Up/Down, SPACE, ESC/ENTER.".to_string();
            },
        }
    }
}

/// What `Editor::handle_task_selection_input` does.
pub open spec fn handle_task_selection_input_done(before: Editor, after: Editor, key: Input) -> bool {
    &&& after.inv()
    &&& key == Input::KeyUp ==> {
            let rows = if task_list_height(before.scroll.screen_rows) >= 1 {
                task_list_height(before.scroll.screen_rows) - 1
            } else {
                0
            };
            let n = before.task.tasks@.len();
            &&& after.task.tasks == before.task.tasks
            &&& match before.task.selected_task_index {
                Some(i) => if i > 0 {
                    &&& after.task.selected_task_index == Some((i - 1) as usize)
                    &&& after.task.task_display_offset == if i - 1 < before.task.task_display_offset {
                        (i - 1) as usize
                    } else {
                        before.task.task_display_offset
                    }
                } else {
                    &&& after.task.selected_task_index == Some((n - 1) as usize)
                    &&& after.task.task_display_offset == if n >= rows {
                        (n - rows) as usize
                    } else {
                        0usize
                    }
                },
                None => after.task == before.task,
            }
        }
    &&& key == Input::KeyDown ==> {
            let rows = if task_list_height(before.scroll.screen_rows) >= 1 {
                task_list_height(before.scroll.screen_rows) - 1
            } else {
                0
            };
            let n = before.task.tasks@.len();
            &&& after.task.tasks == before.task.tasks
            &&& match before.task.selected_task_index {
                Some(i) => if i < n - 1 {
                    &&& after.task.selected_task_index == Some((i + 1) as usize)
                    &&& after.task.task_display_offset == if i + 1 >= before.task.task_display_offset + rows {
                        (i + 1 - rows + 1) as usize
                    } else {
                        before.task.task_display_offset
                    }
                } else {
                    &&& after.task.selected_task_index == Some(0usize)
                    &&& after.task.task_display_offset == 0
                },
                None => if n > 0 {
                    &&& after.task.selected_task_index == Some(0usize)
                    &&& after.task.task_display_offset == 0
                } else {
                    after.task == before.task
                },
            }
        }
    &&& key == Input::Character(' ') ==> match before.task.selected_task_index {
            Some(sel) if sel < before.task.tasks@.len() => {
                let t = before.text();
                let (o, c) = before.task.tasks@[sel as int];
                let n = (before.task.tasks@.len() - 1) as usize;
                &&& after.text() =~= t.remove(o as int).insert(before.cursor_y as int, c@)
                &&& after.cursor_x == 0
                &&& after.cursor_y == before.cursor_y + 1
                &&& after.recorded_edit(&before, LastActionType::Other)
                &&& after.recorded_cursors(
                    &before,
                    (before.cursor_x, before.cursor_y),
                    (after.cursor_x, after.cursor_y),
                )
                &&& tasks_view(after.task.tasks@) == tasks_after_move(
                    tasks_view(before.task.tasks@),
                    sel as int,
                    o,
                )
                &&& if n == 0 {
                    &&& after.task.selected_task_index is None
                    &&& after.mode == EditorMode::Normal
                    &&& after.status_message@
                        == "All tasks moved. Exiting task selection mode."@
                } else {
                    &&& after.task.selected_task_index == Some(
                        if sel >= n {
                            (n - 1) as usize
                        } else {
                            sel
                        },
                    )
                    &&& after.status_message@ == "Task moved. "@ + crate::text::decimal(
                        n as nat,
                    ) + " tasks remaining."@
                }
            },
            _ => after.document == before.document && after.task == before.task,
        }
    &&& key == Input::Character('#') ==> match before.task.selected_task_index {
            Some(sel) if sel < before.task.tasks@.len() => {
                let t = before.text();
                let o = before.task.tasks@[sel as int].0;
                let n = (before.task.tasks@.len() - 1) as usize;
                &&& after.text() =~= t.update(o as int, seq!['#', ' '] + t[o as int])
                &&& after.recorded_edit(&before, LastActionType::ToggleComment)
                &&& after.recorded_cursors(
                    &before,
                    (before.cursor_x, before.cursor_y),
                    (after.cursor_x, after.cursor_y),
                )
                &&& tasks_view(after.task.tasks@) == tasks_view(before.task.tasks@).remove(
                    sel as int,
                )
                &&& if n == 0 {
                    &&& after.task.selected_task_index is None
                    &&& after.mode == EditorMode::Normal
                    &&& after.status_message@
                        == "All tasks handled. Exiting task selection mode."@
                } else {
                    &&& after.task.selected_task_index == Some(
                        if sel >= n {
                            (n - 1) as usize
                        } else {
                            sel
                        },
                    )
                    &&& after.status_message@ == "Task commented out. "@
                        + crate::text::decimal(n as nat) + " tasks remaining."@
                }
            },
            _ => after.document == before.document && after.task == before.task,
        }
    &&& key == Input::Character('\x07') && before.task.fuzzy_search.query@.len() > 0 ==> {
            &&& after.mode == before.mode
            &&& after.task.fuzzy_search.query@.len() == 0
            &&& tasks_view(after.task.tasks@) == tasks_view(before.task.all_tasks@)
            &&& after.task.all_tasks == before.task.all_tasks
            &&& after.status_message == before.status_message
            &&& after.document == before.document
        }
    &&& (key == Input::Character('\x1b') || key == Input::Character('\n') || key
            == Input::Character('\r') || (key == Input::Character('\x07')
            && before.task.fuzzy_search.query@.len() == 0)) ==> {
            &&& after.mode == EditorMode::Normal
            &&& after.task.tasks@.len() == 0
            &&& after.task.all_tasks@.len() == 0
            &&& after.task.selected_task_index is None
            &&& after.task.task_display_offset == 0
            &&& after.task.fuzzy_search.query@.len() == 0
            &&& after.status_message@ == "Exited task selection mode."@
            &&& after.document == before.document
        }
    &&& (key == Input::KeyBackspace || key == Input::KeyDC || key == Input::Character('\x7f')
            || key == Input::Character('\x08')) ==> {
            &&& after.document == before.document
            &&& before.task.fuzzy_search.query@.len() > 0 ==> {
                &&& after.task.fuzzy_search.query@ == before.task.fuzzy_search.query@.drop_last()
                &&& tasks_view(after.task.tasks@) == matching_tasks(
                    tasks_view(before.task.all_tasks@),
                    after.task.fuzzy_search.query@,
                )
            }
            &&& before.task.fuzzy_search.query@.len() == 0 ==> after.task == before.task
        }
    &&& (key matches Input::Character(c) && c != ' ' && c != '#' && c != '\x1b' && c != '\n'
            && c != '\r' && c != '\x07' && c != '\x7f' && c != '\x08') ==> {
            &&& after.document == before.document
            &&& after.task.fuzzy_search.query@ == before.task.fuzzy_search.query@.push(
                key->Character_0,
            )
            &&& tasks_view(after.task.tasks@) == matching_tasks(
                tasks_view(before.task.all_tasks@),
                after.task.fuzzy_search.query@,
            )
        }
    &&& (key == Input::KeyLeft || key == Input::KeyRight || key == Input::KeyHome || key
            == Input::KeyEnd || key == Input::KeyPPage || key == Input::KeyNPage || key
            == Input::KeySTab || key == Input::KeyBTab || key == Input::Unknown) ==> {
            &&& after.document == before.document
            &&& after.task == before.task
            &&& after.status_message@
                == "Task selection mode. Use Up/Down, SPACE, ESC/ENTER."@
        }
}

} // verus!
