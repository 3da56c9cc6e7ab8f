//! Cycling a line through plain text, list item, unchecked and checked
//! task.
use crate::document::view_lines;
use crate::editor::comment::{last_line_within, toggled_in_selection};
use crate::editor::selection::ordered_range;
use crate::editor::state::Editor;
use crate::editor::undo::LastActionType;
use crate::lines::{has_prefix, has_prefix_at, leading_ws, leading_ws_count, lemma_leading_ws_facts,
    trim_start, trim_start_of};
use crate::text::{byte_len, byte_offset_of, chars_byte_len, chars_of, concat_chars, string_of,
    string_of_range};
use vstd::prelude::*;

verus! {

broadcast use vstd::string::group_string_axioms;

/// What a line is, by the marker after its indentation.
#[derive(PartialEq, Eq, Structural, Clone, Copy, Debug)]
pub enum LineState {
    Checked,
    Unchecked,
    ListItem,
    Plain,
}

/// The marker that starts a line in each state.
pub open spec fn state_marker(s: LineState) -> Seq<char> {
    match s {
        LineState::Checked => seq!['-', ' ', '[', 'x', ']', ' '],
        LineState::Unchecked => seq!['-', ' ', '[', ' ', ']', ' '],
        LineState::ListItem => seq!['-', ' '],
        LineState::Plain => Seq::empty(),
    }
}

/// The state that toggling moves to.
pub open spec fn next_state(s: LineState) -> LineState {
    match s {
        LineState::Plain => LineState::ListItem,
        LineState::ListItem => LineState::Unchecked,
        LineState::Unchecked => LineState::Checked,
        LineState::Checked => LineState::Plain,
    }
}

/// The state of a line.
pub open spec fn line_state(line: Seq<char>) -> LineState {
    let t = trim_start(line);
    if has_prefix(t, state_marker(LineState::Checked)) {
        LineState::Checked
    } else if has_prefix(t, state_marker(LineState::Unchecked)) {
        LineState::Unchecked
    } else if has_prefix(t, state_marker(LineState::ListItem)) {
        LineState::ListItem
    } else {
        LineState::Plain
    }
}

/// The line with its marker replaced by the marker of `target`, after the
/// same indentation.
pub open spec fn transform_line(line: Seq<char>, target: LineState) -> Seq<char> {
    let content = trim_start(line).skip(state_marker(line_state(line)).len() as int);
    line.take(leading_ws(line)) + state_marker(target) + content
}

/// How far the cursor moves when a line goes from one state to the next.
pub open spec fn marker_shift(s: LineState) -> int {
    match s {
        LineState::Plain => 2,
        LineState::ListItem => 4,
        LineState::Unchecked => 0,
        LineState::Checked => -6,
    }
}

/// Where the cursor goes when its line, with `ind` bytes of indentation and
/// `new_len` bytes once toggled, is toggled from state `s`.
pub open spec fn checkbox_cursor(x: int, ind: int, s: LineState, new_len: int) -> int {
    let c = marker_shift(s);
    let nx = if c > 0 {
        if x >= ind {
            x + c
        } else {
            ind + c
        }
    } else if c < 0 {
        if x >= 6 {
            x - 6
        } else {
            0
        }
    } else {
        x
    };
    if nx > new_len {
        new_len
    } else {
        nx
    }
}

/// All toggled lines of a selection are in the same state.
pub open spec fn same_states(lines: Seq<Seq<char>>, sy: int, ey: int, cx: int, cy: int) -> bool {
    forall|i: int, j: int|
        sy <= i <= ey && sy <= j <= ey && toggled_in_selection(lines, i, ey, cx, cy)
            && toggled_in_selection(lines, j, ey, cx, cy) ==> line_state(#[trigger] lines[i])
            == line_state(#[trigger] lines[j])
}

/// The state that the toggled lines of a selection go to: the next state
/// when they all share one, list item otherwise.
pub open spec fn selection_target(lines: Seq<Seq<char>>, sy: int, ey: int, cx: int, cy: int) -> LineState {
    if same_states(lines, sy, ey, cx, cy) {
        let y = choose|y: int| sy <= y <= ey && toggled_in_selection(lines, y, ey, cx, cy);
        next_state(line_state(lines[y]))
    } else {
        LineState::ListItem
    }
}

/// The lines from `sy` to the last line of the selection that lies in
/// `lines`, after toggling a selection.
pub open spec fn toggled_states(lines: Seq<Seq<char>>, sy: int, ey: int, cx: int, cy: int) -> Seq<
    Seq<char>,
> {
    let target = selection_target(lines, sy, ey, cx, cy);
    Seq::new(
        (last_line_within(lines, ey) - sy + 1) as nat,
        |i: int|
            if toggled_in_selection(lines, sy + i, ey, cx, cy) {
                transform_line(lines[sy + i], target)
            } else {
                lines[sy + i]
            },
    )
}

/// The status message after toggling a line to `s`.
pub open spec fn toggled_message(s: LineState) -> Seq<char> {
    match s {
        LineState::Checked => "Toggled to Checked."@,
        LineState::Unchecked => "Toggled to Unchecked."@,
        LineState::ListItem => "Toggled to ListItem."@,
        LineState::Plain => "Toggled to Plain."@,
    }
}

/// The status message after toggling a selection to `s`.
pub open spec fn toggled_selection_message(s: LineState) -> Seq<char> {
    match s {
        LineState::Checked => "Toggled selection to Checked."@,
        LineState::Unchecked => "Toggled selection to Unchecked."@,
        LineState::ListItem => "Toggled selection to ListItem."@,
        LineState::Plain => "Toggled selection to Plain."@,
    }
}

impl LineState {
    pub fn next(&self) -> (r: Self)
        ensures
            r == next_state(*self),
    {
        match self {
            LineState::Plain => LineState::ListItem,
            LineState::ListItem => LineState::Unchecked,
            LineState::Unchecked => LineState::Checked,
            LineState::Checked => LineState::Plain,
        }
    }
}

fn marker_of(s: LineState) -> (r: Vec<char>)
    ensures
        r@ == state_marker(s),
{
    let r = match s {
        LineState::Checked => vec!['-', ' ', '[', 'x', ']', ' '],
        LineState::Unchecked => vec!['-', ' ', '[', ' ', ']', ' '],
        LineState::ListItem => vec!['-', ' '],
        LineState::Plain => Vec::new(),
    };
    assert(r@ =~= state_marker(s));
    r
}

/// The state of a line.
pub fn get_line_state(v: &Vec<char>) -> (r: LineState)
    ensures
        r == line_state(v@),
{
    let t = trim_start_of(v);
    assert(t@.skip(0) =~= t@);
    if has_prefix_at(&t, 0, &marker_of(LineState::Checked)) {
        LineState::Checked
    } else if has_prefix_at(&t, 0, &marker_of(LineState::Unchecked)) {
        LineState::Unchecked
    } else if has_prefix_at(&t, 0, &marker_of(LineState::ListItem)) {
        LineState::ListItem
    } else {
        LineState::Plain
    }
}

/// The line moved to state `target`.
pub fn transform_line_of(v: &Vec<char>, target: LineState) -> (r: Vec<char>)
    ensures
        r@ == transform_line(v@, target),
{
    let state = get_line_state(v);
    let k = leading_ws_count(v);
    let ind = chars_of(string_of_range(v, 0, k).as_str());
    assert(ind@ =~= v@.take(k as int));
    let t = trim_start_of(v);
    let m = marker_of(state);
    let content = if m.len() <= t.len() {
        chars_of(string_of_range(&t, m.len(), t.len()).as_str())
    } else {
        Vec::new()
    };
    assert(content@ =~= t@.skip(state_marker(state).len() as int));
    let a = concat_chars(&ind, &marker_of(target));
    concat_chars(&a, &content)
}

fn toggled_message_of(s: LineState) -> (r: String)
    ensures
        r@ == toggled_message(s),
{
    match s {
        LineState::Checked => "Toggled to Checked.".to_string(),
        LineState::Unchecked => "Toggled to Unchecked.".to_string(),
        LineState::ListItem => "Toggled to ListItem.".to_string(),
        LineState::Plain => "Toggled to Plain.".to_string(),
    }
}

fn toggled_selection_message_of(s: LineState) -> (r: String)
    ensures
        r@ == toggled_selection_message(s),
{
    match s {
        LineState::Checked => "Toggled selection to Checked.".to_string(),
        LineState::Unchecked => "Toggled selection to Unchecked.".to_string(),
        LineState::ListItem => "Toggled selection to ListItem.".to_string(),
        LineState::Plain => "Toggled selection to Plain.".to_string(),
    }
}

/// A toggled line is at most six bytes longer.
pub proof fn lemma_transform_len(line: Seq<char>, target: LineState)
    ensures
        byte_len(transform_line(line, target)) <= byte_len(line) + 6,
{
    lemma_leading_ws_facts(line);
    let lw = leading_ws(line);
    let t = line.skip(lw);
    let m = state_marker(line_state(line)).len() as int;
    assert(line =~= line.take(lw) + t);
    crate::text::lemma_byte_len_concat(line.take(lw), t);
    if m <= t.len() {
        assert(t =~= t.take(m) + t.skip(m));
        crate::text::lemma_byte_len_concat(t.take(m), t.skip(m));
    } else {
        assert(t.skip(m) =~= Seq::<char>::empty());
    }
    let mk = state_marker(target);
    assert(forall|i: int| 0 <= i < mk.len() ==> (#[trigger] mk[i] as u32) < 0x80);
    crate::text::lemma_byte_len_ascii(mk);
    crate::text::lemma_byte_len_concat(line.take(lw), mk);
    crate::text::lemma_byte_len_concat(line.take(lw) + mk, t.skip(m));
}

impl Editor {
    /// Moves the cursor line, or the selected lines, to the next state:
    /// plain, list item, unchecked task, checked task, plain again. The
    /// lines of a selection all go to the state after theirs when they
    /// share one, and become list items otherwise.
    pub fn toggle_checkbox(&mut self) -> (r: crate::error::Result<()>)
        requires
            old(self).inv(),
            old(self).cursor_y < old(self).document.lines.len(),
            old(self).cursor_x + 4 <= usize::MAX,
            byte_len(old(self).text()[old(self).cursor_y as int]) + 6 <= usize::MAX,
        ensures
            toggle_checkbox_done(*old(self), *final(self), r),
    {
        let cx = self.cursor_x;
        let cy = self.cursor_y;
        let ghost t = self.text();
        match self.selection.get_selection_range(self.cursor_pos()) {
            Some((s, e)) => {
                let sy = s.1;
                let ey = e.1;
                let last = if ey < self.document.lines.len() {
                    ey
                } else {
                    self.document.lines.len() - 1
                };
                let mut first: Option<LineState> = None;
                let mut same = true;
                let ghost mut fy: int = 0;
                let mut y = sy;
                while y <= last
                    invariant
                        sy <= y <= last + 1,
                        last < self.document.lines.len(),
                        last as int == last_line_within(t, ey as int),
                        t == self.text(),
                        cx == self.cursor_x,
                        cy == self.cursor_y,
                        first is None <==> !exists|j: int|
                            sy <= j < y && #[trigger] toggled_in_selection(t, j, ey as int, cx as int, cy as int),
                        first matches Some(st) ==> sy <= fy < y && toggled_in_selection(t, fy, ey as int, cx as int, cy as int)
                            && line_state(t[fy]) == st,
                        first matches Some(st) ==> (same == forall|j: int|
                            sy <= j < y && toggled_in_selection(t, j, ey as int, cx as int, cy as int)
                                ==> line_state(#[trigger] t[j]) == st),
                    decreases last + 1 - y,
                {
                    let v = self.document.line_chars(y);
                    let excluded = y == ey && cy == ey && cx == 0;
                    if v.len() > 0 && !excluded {
                        assert(toggled_in_selection(t, y as int, ey as int, cx as int, cy as int));
                        let st = get_line_state(&v);
                        match first {
                            None => {
                                first = Some(st);
                                same = true;
                                proof {
                                    fy = y as int;
                                }
                            },
                            Some(f) => {
                                if st != f {
                                    same = false;
                                }
                            },
                        }
                    }
                    y = y + 1;
                }
                let f = match first {
                    None => {
                        return Ok(());
                    },
                    Some(f) => f,
                };
                proof {
                    if same {
                        assert(same_states(t, sy as int, ey as int, cx as int, cy as int));
                        let c = choose|y: int| sy <= y <= ey && toggled_in_selection(t, y, ey as int, cx as int, cy as int);
                        assert(line_state(t[c]) == f);
                    } else {
                        let j = choose|j: int| sy <= j <= ey && toggled_in_selection(t, j, ey as int, cx as int, cy as int)
                            && line_state(t[j]) != f;
                        assert(line_state(t[j]) != line_state(t[fy]));
                        assert(!same_states(t, sy as int, ey as int, cx as int, cy as int));
                    }
                }
                let target = if same {
                    f.next()
                } else {
                    LineState::ListItem
                };
                assert(target == selection_target(t, sy as int, ey as int, cx as int, cy as int));
                let ghost block = toggled_states(t, sy as int, ey as int, cx as int, cy as int);
                let mut new_lines: Vec<String> = Vec::new();
                let mut y = sy;
                while y <= last
                    invariant
                        sy <= y <= last + 1,
                        last < self.document.lines.len(),
                        last as int == last_line_within(t, ey as int),
                        t == self.text(),
                        target == selection_target(t, sy as int, ey as int, cx as int, cy as int),
                        block == toggled_states(t, sy as int, ey as int, cx as int, cy as int),
                        view_lines(new_lines@) == block.take(y - sy),
                    decreases last + 1 - y,
                {
                    let v = self.document.line_chars(y);
                    let excluded = y == ey && cy == ey && cx == 0;
                    let nv = if v.len() > 0 && !excluded {
                        transform_line_of(&v, target)
                    } else {
                        v
                    };
                    assert(nv@ == block[y - sy]);
                    let ghost n0 = new_lines@;
                    new_lines.push(string_of(&nv));
                    assert(view_lines(new_lines@) =~= view_lines(n0).push(nv@));
                    assert(block.take(y + 1 - sy) =~= block.take(y - sy).push(block[y - sy]));
                    y = y + 1;
                }
                assert(block.take(last + 1 - sy) =~= block);
                self.replace_line_block(sy, last, new_lines, LastActionType::ToggleCheckbox, cx, cx, cy);
                self.status_message = toggled_selection_message_of(target);
                Ok(())
            },
            None => {
                let v = self.document.line_chars(cy);
                let state = get_line_state(&v);
                let next = state.next();
                let nv = transform_line_of(&v, next);
                proof {
                    lemma_transform_len(v@, next);
                }
                let new_len = chars_byte_len(&nv);
                let k = leading_ws_count(&v);
                proof {
                    lemma_leading_ws_facts(v@);
                    crate::text::lemma_byte_len_take_strict(v@, k as int, v.len() as int);
                }
                let ind = byte_offset_of(&v, k);
                let nx = match state {
                    LineState::Plain => if cx >= ind {
                        cx + 2
                    } else {
                        ind + 2
                    },
                    LineState::ListItem => if cx >= ind {
                        cx + 4
                    } else {
                        ind + 4
                    },
                    LineState::Unchecked => cx,
                    LineState::Checked => if cx >= 6 {
                        cx - 6
                    } else {
                        0
                    },
                };
                let new_x = if nx > new_len {
                    new_len
                } else {
                    nx
                };
                let mut new_lines: Vec<String> = Vec::new();
                new_lines.push(string_of(&nv));
                proof {
                    assert(view_lines(new_lines@) =~= seq![nv@]);
                    assert(t.take(cy as int) + seq![nv@] + t.skip(cy + 1) =~= t.update(cy as int, nv@));
                }
                self.replace_line_block(cy, cy, new_lines, LastActionType::ToggleCheckbox, 0, new_x, cy);
                self.status_message = toggled_message_of(next);
                Ok(())
            },
        }
    }
}

/// What `Editor::toggle_checkbox` does.
pub open spec fn toggle_checkbox_done(before: Editor, after: Editor, r: crate::error::Result<()>) -> bool {
    &&& r is Ok
    &&& after.inv()
    &&& match before.selection.marker_pos {
            None => {
                let t = before.text();
                let y = before.cursor_y as int;
                let line = t[y];
                let s = line_state(line);
                let nl = transform_line(line, next_state(s));
                &&& after.text() =~= t.update(y, nl)
                &&& after.cursor_x == checkbox_cursor(
                    before.cursor_x as int,
                    byte_len(line.take(leading_ws(line))) as int,
                    s,
                    byte_len(nl) as int,
                )
                &&& after.desired_at_cursor()
                &&& after.recorded_edit(&before, LastActionType::ToggleCheckbox)
                &&& after.recorded_cursors(
                    &before,
                    (before.cursor_x, before.cursor_y),
                    (after.cursor_x, after.cursor_y),
                )
                &&& after.status_message@ == toggled_message(next_state(s))
            },
            Some(m) => {
                let t = before.text();
                let cx = before.cursor_x as int;
                let cy = before.cursor_y as int;
                let (s, e) = ordered_range(m, (before.cursor_x, before.cursor_y));
                if exists|y: int|
                    s.1 <= y <= e.1 && #[trigger] toggled_in_selection(t, y, e.1 as int, cx, cy) {
                    &&& after.text() =~= t.take(s.1 as int) + toggled_states(
                        t,
                        s.1 as int,
                        e.1 as int,
                        cx,
                        cy,
                    ) + t.skip(last_line_within(t, e.1 as int) + 1)
                    &&& after.cursor_x == before.cursor_x
                    &&& after.desired_at_cursor()
                    &&& after.recorded_edit(&before, LastActionType::ToggleCheckbox)
                    &&& after.recorded_cursors(
                        &before,
                        (before.cursor_x, before.cursor_y),
                        (after.cursor_x, after.cursor_y),
                    )
                    &&& after.status_message@ == toggled_selection_message(
                        selection_target(t, s.1 as int, e.1 as int, cx, cy),
                    )
                } else {
                    &&& after.document == before.document
                    &&& after.undo_redo == before.undo_redo
                    &&& after.cursor_x == before.cursor_x
                    &&& after.status_message == before.status_message
                }
            },
        }
    &&& after.cursor_y == before.cursor_y
    &&& after.clipboard == before.clipboard
    &&& after.frame(&before)
}

} // verus!
