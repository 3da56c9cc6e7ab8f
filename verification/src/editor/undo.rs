//! Undo and redo of groups of edits.
use crate::document::{lemma_undo_reverts_apply, view_lines, ActionDiff, DiffView, Document};
use crate::editor::scroll::Scroll;
use crate::text::width_before;
use std::time::Instant;
use vstd::prelude::*;

verus! {

broadcast use vstd::string::group_string_axioms;

/// The kind of the last recorded edit, which decides how edits are grouped.
#[derive(PartialEq, Eq, Structural, Debug, Clone, Copy)]
pub enum LastActionType {
    NoAction,
    Insertion,
    Deletion,
    Newline,
    LineMovement,
    Ammend,
    ToggleCheckbox,
    ToggleComment,
    Indent,
    Outdent,
    Other,
}

#[verifier::external_type_specification]
#[verifier::external_body]
pub struct ExInstant(Instant);

/// The current time, by `std::time::Instant::now`.
#[verifier::external_body]
fn now() -> Instant {
    Instant::now()
}

/// Whole milliseconds from `earlier` to `later` (zero if `later` comes
/// first), by `Instant::duration_since` and `Duration::as_millis`.
#[verifier::external_body]
fn millis_between(earlier: &Instant, later: &Instant) -> u128 {
    later.duration_since(*earlier).as_millis()
}

/// The state reached by applying the edits of `g` in order from `s`.
pub open spec fn chain_apply(s: Seq<Seq<char>>, g: Seq<DiffView>) -> Seq<Seq<char>>
    decreases g.len(),
{
    if g.len() == 0 {
        s
    } else {
        g.last().apply_to(chain_apply(s, g.drop_last()), false)
    }
}

/// Each edit of `g` is well placed on the state it is applied to.
pub open spec fn chain_ok(s: Seq<Seq<char>>, g: Seq<DiffView>) -> bool
    decreases g.len(),
{
    if g.len() == 0 {
        true
    } else {
        chain_ok(s, g.drop_last()) && g.last().well_placed(chain_apply(s, g.drop_last()))
    }
}

/// The views of a list of edits.
pub open spec fn group_view(g: Seq<ActionDiff>) -> Seq<DiffView> {
    Seq::new(g.len(), |i: int| g[i]@)
}

/// The views of a stack of groups of edits.
pub open spec fn stack_view(s: Seq<Vec<ActionDiff>>) -> Seq<Seq<DiffView>> {
    Seq::new(s.len(), |i: int| group_view(s[i]@))
}

proof fn lemma_chain_prefix(s: Seq<Seq<char>>, g: Seq<DiffView>, i: int)
    requires
        chain_ok(s, g),
        0 <= i <= g.len(),
    ensures
        chain_ok(s, g.take(i)),
    decreases g.len() - i,
{
    if i < g.len() {
        assert(g.take(g.len() as int) =~= g);
        lemma_chain_prefix(s, g.drop_last(), i);
        assert(g.drop_last().take(i) =~= g.take(i));
    } else {
        assert(g.take(i) =~= g);
    }
}

/// Undoing the edits of a group in reverse order, from the state they led
/// to, gives back the state they started from.
pub proof fn lemma_undo_chain_step(s: Seq<Seq<char>>, g: Seq<DiffView>, i: int)
    requires
        chain_ok(s, g),
        0 < i <= g.len(),
    ensures
        g[i - 1].applicable(chain_apply(s, g.take(i)), true),
        g[i - 1].apply_to(chain_apply(s, g.take(i)), true) == chain_apply(s, g.take(i - 1)),
        g[i - 1].cursor_start_y < chain_apply(s, g.take(i - 1)).len(),
        g[i - 1].cursor_end_y < chain_apply(s, g.take(i)).len(),
{
    lemma_chain_prefix(s, g, i);
    assert(g.take(i).drop_last() =~= g.take(i - 1));
    assert(g.take(i).last() == g[i - 1]);
    lemma_undo_reverts_apply(g[i - 1], chain_apply(s, g.take(i - 1)));
}

/// Whether an edit of kind `current`, made `elapsed_ms` milliseconds after
/// the previous recorded edit (if `has_previous`) of kind `last`, starts a
/// new undo group: always for the first edit and for checkbox toggles,
/// never for amendments, and otherwise when the kind changes or
/// `threshold_ms` milliseconds passed.
pub open spec fn new_group_rule(
    has_previous: bool,
    current: LastActionType,
    last: LastActionType,
    elapsed_ms: u128,
    threshold_ms: u64,
) -> bool {
    !has_previous || (current != LastActionType::Ammend && (current
        == LastActionType::ToggleCheckbox || last != current || elapsed_ms >= threshold_ms as u128))
}

/// Whether an edit of kind `current` starts a new undo group, by
/// `new_group_rule`.
pub fn starts_new_group(
    has_previous: bool,
    current: LastActionType,
    last: LastActionType,
    elapsed_ms: u128,
    threshold_ms: u64,
) -> (r: bool)
    ensures
        r == new_group_rule(has_previous, current, last, elapsed_ms, threshold_ms),
{
    if !has_previous {
        true
    } else if current == LastActionType::Ammend {
        false
    } else if current == LastActionType::ToggleCheckbox {
        true
    } else {
        last != current || elapsed_ms >= threshold_ms as u128
    }
}

/// The undo and redo stacks. Each group of edits is undone and redone as
/// one step.
pub struct UndoRedo {
    pub undo_stack: Vec<Vec<ActionDiff>>,
    pub redo_stack: Vec<Vec<ActionDiff>>,
    last_action_time: Option<Instant>,
    last_action_type: LastActionType,
    /// In milliseconds.
    undo_debounce_threshold: u64,
    /// The document before each undo group, and the current one.
    history: Ghost<Seq<Seq<Seq<char>>>>,
    /// The document after each redo group, and the current one.
    future: Ghost<Seq<Seq<Seq<char>>>>,
    /// Whether the redo groups still lead from the current document.
    future_valid: Ghost<bool>,
}

impl Default for UndoRedo {
    fn default() -> (u: Self)
        ensures
            u.undo_depth() == 0 && u.redo_depth() == 0,
            forall|d: Seq<Seq<char>>| u.consistent_with(d),
    {
        Self::new()
    }
}

impl UndoRedo {
    pub closed spec fn undo_groups(&self) -> Seq<Seq<DiffView>> {
        stack_view(self.undo_stack@)
    }

    pub closed spec fn redo_groups(&self) -> Seq<Seq<DiffView>> {
        stack_view(self.redo_stack@)
    }

    pub closed spec fn undo_depth(&self) -> nat {
        self.undo_stack@.len()
    }

    pub closed spec fn redo_depth(&self) -> nat {
        self.redo_stack@.len()
    }

    /// The kind of the last recorded edit other than an amendment.
    pub closed spec fn last_type(&self) -> LastActionType {
        self.last_action_type
    }

    /// An edit was recorded before.
    pub closed spec fn has_previous_action(&self) -> bool {
        self.last_action_time is Some
    }

    /// The grouping delay, in milliseconds.
    pub closed spec fn threshold(&self) -> u64 {
        self.undo_debounce_threshold
    }

    /// The document before the last undo group.
    pub closed spec fn previous_text(&self) -> Seq<Seq<char>> {
        self.history@[self.undo_stack@.len() - 1]
    }

    /// The document after the next redo group.
    pub closed spec fn next_text(&self) -> Seq<Seq<char>> {
        self.future@[self.redo_stack@.len() - 1]
    }

    /// Where undoing the last group puts the cursor: where it was before
    /// the first edit of that group.
    pub open spec fn undo_cursor(&self) -> (usize, usize) {
        let g = self.undo_groups().last();
        (g[0].cursor_start_x, g[0].cursor_start_y)
    }

    /// Where the last edit of the last undo group left the cursor: where
    /// redoing that group puts it once it is undone.
    pub open spec fn last_edit_end(&self) -> (usize, usize) {
        let g = self.undo_groups().last();
        (g.last().cursor_end_x, g.last().cursor_end_y)
    }

    /// Where redoing the next group puts the cursor: where the last edit
    /// of that group left it.
    pub open spec fn redo_cursor(&self) -> (usize, usize) {
        let g = self.redo_groups().last();
        (g.last().cursor_end_x, g.last().cursor_end_y)
    }

    /// The redo groups still lead on from the current document.
    pub closed spec fn redo_ready(&self) -> bool {
        self.future_valid@
    }

    /// The stacks describe how the document `doc` was reached: undoing the
    /// groups one by one leads back through the earlier documents.
    pub closed spec fn consistent_with(&self, doc: Seq<Seq<char>>) -> bool {
        let h = self.history@;
        let f = self.future@;
        let u = self.undo_groups();
        let r = self.redo_groups();
        &&& h.len() == u.len() + 1
        &&& forall|i: int|
            0 <= i < u.len() ==> u[i].len() > 0 && chain_ok(h[i], #[trigger] u[i])
                && chain_apply(h[i], u[i]) == h[i + 1]
        &&& u.len() > 0 ==> h.last() == doc
        &&& f.len() == r.len() + 1
        &&& self.future_valid@ ==> forall|k: int|
            0 <= k < r.len() ==> r[k].len() > 0 && chain_ok(f[k + 1], #[trigger] r[k])
                && chain_apply(f[k + 1], r[k]) == f[k]
        &&& self.future_valid@ && r.len() > 0 ==> f.last() == doc
    }

    pub fn new() -> (u: Self)
        ensures
            u.undo_depth() == 0 && u.redo_depth() == 0,
            !u.has_previous_action(),
            u.last_type() == LastActionType::NoAction,
            u.threshold() == 500,
            u.redo_ready(),
            forall|d: Seq<Seq<char>>| u.consistent_with(d),
    {
        let ghost start: Seq<Seq<Seq<char>>> = seq![Seq::empty()];
        let u = Self {
            undo_stack: Vec::new(),
            redo_stack: Vec::new(),
            last_action_time: None,
            last_action_type: LastActionType::NoAction,
            undo_debounce_threshold: 500,
            history: Ghost(start),
            future: Ghost(start),
            future_valid: Ghost(true),
        };
        proof {
            assert(u.undo_groups() =~= Seq::<Seq<DiffView>>::empty());
            assert(u.redo_groups() =~= Seq::<Seq<DiffView>>::empty());
        }
        u
    }

    pub fn set_undo_debounce_threshold(&mut self, threshold_ms: u64)
        requires
            exists|d: Seq<Seq<char>>| old(self).consistent_with(d),
        ensures
            final(self).threshold() == threshold_ms,
            forall|d: Seq<Seq<char>>| old(self).consistent_with(d) ==> final(self).consistent_with(d),
            final(self).undo_depth() == old(self).undo_depth(),
            final(self).redo_depth() == old(self).redo_depth(),
            final(self).previous_text() == old(self).previous_text(),
            final(self).next_text() == old(self).next_text(),
            final(self).redo_ready() == old(self).redo_ready(),
            final(self).last_type() == old(self).last_type(),
            final(self).has_previous_action() == old(self).has_previous_action(),
    {
        self.undo_debounce_threshold = threshold_ms;
    }

    /// Opens a new undo group when the grouping rule says so for an edit
    /// made at `now`, `elapsed_ms` milliseconds after the previous recorded
    /// edit; returns whether it did.
    fn save_state_for_undo(
        &mut self,
        current_action_type: LastActionType,
        now: Instant,
        elapsed_ms: u128,
    ) -> (started: bool)
        ensures
            started == new_group_rule(
                old(self).has_previous_action(),
                current_action_type,
                old(self).last_type(),
                elapsed_ms,
                old(self).threshold(),
            ),
            started ==> stack_view(final(self).undo_stack@) == stack_view(
                old(self).undo_stack@,
            ).push(Seq::empty()) && final(self).redo_stack@.len() == 0,
            !started ==> final(self).undo_stack@ == old(self).undo_stack@ && final(self).redo_stack@ == old(self).redo_stack@,
            !old(self).has_previous_action() ==> started,
            current_action_type == LastActionType::Ammend && old(self).has_previous_action()
                ==> !started,
            current_action_type == LastActionType::ToggleCheckbox ==> started,
            current_action_type != LastActionType::Ammend && old(self).last_type()
                != current_action_type ==> started,
            final(self).has_previous_action(),
            final(self).last_type() == if current_action_type == LastActionType::Ammend {
                old(self).last_type()
            } else {
                current_action_type
            },
            final(self).threshold() == old(self).threshold(),
            final(self).history == old(self).history,
            final(self).future == old(self).future,
            final(self).future_valid == old(self).future_valid,
    {
        let should_start_new_group = starts_new_group(
            self.last_action_time.is_some(),
            current_action_type,
            self.last_action_type,
            elapsed_ms,
            self.undo_debounce_threshold,
        );
        if should_start_new_group {
            let ghost before = stack_view(self.undo_stack@);
            let fresh: Vec<ActionDiff> = Vec::new();
            assert(group_view(fresh@) =~= Seq::<DiffView>::empty());
            self.undo_stack.push(fresh);
            self.redo_stack.clear();
            assert(stack_view(self.undo_stack@) =~= before.push(Seq::empty()));
        }
        self.last_action_time = Some(now);
        if current_action_type != LastActionType::Ammend {
            self.last_action_type = current_action_type;
        }
        should_start_new_group
    }

    /// `self` is `prev` after recording an edit of kind `action_type`
    /// that turns `before` into `d.apply_to(before, false)`: in a new group
    /// or at the end of the last one.
    pub open spec fn records(
        &self,
        prev: Self,
        action_type: LastActionType,
        d: DiffView,
        before: Seq<Seq<char>>,
    ) -> bool {
        &&& self.consistent_with(d.apply_to(before, false))
        &&& self.undo_depth() == prev.undo_depth() || self.undo_depth() == prev.undo_depth() + 1
        &&& self.undo_depth() == prev.undo_depth() + 1 ==> self.previous_text() == before
            && self.redo_depth() == 0 && self.redo_ready()
        &&& !prev.has_previous_action() ==> self.undo_depth() == prev.undo_depth() + 1
        &&& action_type == LastActionType::ToggleCheckbox ==> self.undo_depth()
            == prev.undo_depth() + 1
        &&& action_type != LastActionType::Ammend && prev.last_type() != action_type
            ==> self.undo_depth() == prev.undo_depth() + 1
        &&& action_type == LastActionType::Ammend && prev.has_previous_action()
            ==> self.undo_depth() == prev.undo_depth()
        &&& self.undo_depth() == prev.undo_depth() ==> self.redo_depth() == prev.redo_depth()
        &&& self.undo_depth() == prev.undo_depth() && prev.undo_depth() > 0
            ==> self.previous_text() == prev.previous_text()
        &&& self.has_previous_action()
        &&& self.last_type() == if action_type == LastActionType::Ammend {
            prev.last_type()
        } else {
            action_type
        }
        &&& self.threshold() == prev.threshold()
        &&& self.redo_depth() == 0 ==> self.redo_ready()
        &&& self.undo_depth() == prev.undo_depth() + 1 ==> self.undo_groups()
            == prev.undo_groups().push(seq![d]) && self.redo_groups()
            == Seq::<Seq<DiffView>>::empty()
        &&& self.undo_depth() == prev.undo_depth() > 0 ==> self.undo_groups()
            == prev.undo_groups().update(
            prev.undo_depth() - 1,
            prev.undo_groups().last().push(d),
        ) && self.redo_groups() == prev.redo_groups()
        &&& self.undo_depth() == prev.undo_depth() == 0 ==> self.undo_groups()
            == prev.undo_groups() && self.redo_groups() == prev.redo_groups()
        &&& self.undo_depth() == prev.undo_depth() + 1 ==> self.undo_cursor() == (
            d.cursor_start_x,
            d.cursor_start_y,
        )
        &&& self.undo_depth() == prev.undo_depth() > 0 ==> self.undo_cursor()
            == prev.undo_cursor()
        &&& self.undo_depth() > 0 ==> self.last_edit_end() == (d.cursor_end_x, d.cursor_end_y)
    }

    /// Records an edit that turns `before` into `action_diff@.apply_to(before, false)`,
    /// in a new group or at the end of the last one, by the grouping rule
    /// with the time since the previous recorded edit read from the clock.
    pub fn record_action(
        &mut self,
        action_type: LastActionType,
        action_diff: &ActionDiff,
        Ghost(before): Ghost<Seq<Seq<char>>>,
    )
        requires
            old(self).consistent_with(before),
            action_diff@.well_placed(before),
        ensures
            final(self).records(*old(self), action_type, action_diff@, before),
    {
        let now = now();
        let elapsed_ms = match &self.last_action_time {
            Some(t) => millis_between(t, &now),
            None => 0,
        };
        self.record_action_at(action_type, action_diff, now, elapsed_ms, Ghost(before));
    }

    /// Records an edit made at `now`, `elapsed_ms` milliseconds after the
    /// previous recorded edit, that turns `before` into
    /// `action_diff@.apply_to(before, false)`: it opens a new group, holding
    /// this edit alone, exactly when the grouping rule says so, and
    /// otherwise joins the last group, if there is one.
    pub fn record_action_at(
        &mut self,
        action_type: LastActionType,
        action_diff: &ActionDiff,
        now: Instant,
        elapsed_ms: u128,
        Ghost(before): Ghost<Seq<Seq<char>>>,
    )
        requires
            old(self).consistent_with(before),
            action_diff@.well_placed(before),
        ensures
            final(self).records(*old(self), action_type, action_diff@, before),
            final(self).undo_depth() == old(self).undo_depth() + 1 <==> new_group_rule(
                old(self).has_previous_action(),
                action_type,
                old(self).last_type(),
                elapsed_ms,
                old(self).threshold(),
            ),
    {
        let ghost after = action_diff@.apply_to(before, false);
        let ghost r_old = self.redo_groups();
        let ghost h0 = self.history@;
        let ghost u0 = self.undo_groups();
        let started = self.save_state_for_undo(action_type, now, elapsed_ms);
        let n = self.undo_stack.len();
        proof {
            assert(stack_view(self.undo_stack@).len() == self.undo_stack@.len());
            assert(u0.len() == old(self).undo_stack@.len());
            if started {
                assert(n == u0.len() + 1);
            } else {
                assert(self.undo_stack@ == old(self).undo_stack@);
            }
        }
        if n > 0 {
            let ghost s1 = self.undo_stack@;
            let ghost top = group_view(self.undo_stack@[n - 1]@);
            assert(stack_view(self.undo_stack@)[n - 1] == top);
            let mut group = self.undo_stack.pop().unwrap();
            let ghost g0 = group_view(group@);
            assert(g0 == top);
            group.push(action_diff.duplicate());
            self.undo_stack.push(group);
            proof {
                let g1 = group_view(group@);
                if started {
                    assert(u0.len() == n - 1);
                    assert(stack_view(old(self).undo_stack@) == u0);
                }
                assert(g1.drop_last() =~= g0);
                assert(g1.last() == action_diff@);
                if started {
                    // a fresh group holds this edit alone
                    assert(g0.len() == 0);
                    self.history@ = h0.update(n - 1, before).push(after);
                    self.future@ = seq![after];
                    self.future_valid@ = true;
                    assert(chain_apply(before, g0) == before);
                } else {
                    // the edit joins the last group
                    assert(h0.last() == before);
                    self.history@ = h0.update(n as int, after);
                    if self.redo_stack@.len() > 0 {
                        self.future_valid@ = false;
                    } else {
                        self.future_valid@ = true;
                    }
                }
                let h = self.history@;
                let u = self.undo_groups();
                assert(self.undo_stack@ =~= s1.drop_last().push(group));
                assert(forall|i: int| 0 <= i < n - 1 ==> u[i] == stack_view(s1)[i]);
                assert(forall|i: int| 0 <= i < n - 1 ==> stack_view(s1)[i] == u0[i]);
                assert(u.len() == n);
                assert(u[n - 1] == g1);
                assert forall|i: int| 0 <= i < u.len() implies u[i].len() > 0 && chain_ok(
                    h[i],
                    #[trigger] u[i],
                ) && chain_apply(h[i], u[i]) == h[i + 1] by {
                    if i < n - 1 {
                        assert(u[i] == u0[i]);
                        assert(h[i] == h0[i]);
                        if i + 1 == n - 1 && started {
                            assert(h0.last() == before);
                        }
                        assert(h[i + 1] == h0[i + 1]);
                    } else {
                        assert(i == n - 1);
                        assert(g1.drop_last() == g0);
                        if started {
                            assert(h[i] == before);
                        } else {
                            assert(h[i] == h0[i]);
                            assert(h0[i + 1] == before);
                        }
                        assert(chain_apply(h[i], g0) == before);
                        if !started {
                            assert(u0[i] == g0);
                            assert(chain_ok(h0[i], u0[i]));
                        }
                        assert(chain_ok(h[i], g0));
                        assert(g1.last().well_placed(chain_apply(h[i], g1.drop_last())));
                        assert(chain_ok(h[i], g1));
                        assert(chain_apply(h[i], g1) == after);
                        assert(h[i + 1] == after);
                    }
                }
                if !started && self.redo_stack@.len() == 0 {
                    assert(self.redo_groups() =~= Seq::<Seq<DiffView>>::empty());
                }
                if started {
                    assert(self.redo_groups() =~= Seq::<Seq<DiffView>>::empty());
                    assert(g1 =~= seq![action_diff@]);
                    assert(u =~= u0.push(seq![action_diff@]));
                } else {
                    assert(g1 =~= u0[n - 1].push(action_diff@));
                    assert(u =~= u0.update(n - 1, u0[n - 1].push(action_diff@)));
                    assert(self.redo_groups() =~= r_old);
                }
            }
        } else {
            proof {
                // the edit is not recorded: there is no group to take it
                assert(!started);
                assert(self.undo_groups() =~= Seq::<Seq<DiffView>>::empty());
                assert(self.redo_groups() =~= r_old);
                self.history@ = seq![after];
                if self.redo_stack@.len() > 0 {
                    self.future_valid@ = false;
                } else {
                    self.future_valid@ = true;
                }
            }
        }
    }

    /// Undoes the last group of edits: they are applied backwards, last
    /// one first, and the group moves to the redo stack. The cursor goes to
    /// where it was before the first edit of the group.
    pub fn undo(
        &mut self,
        document: &mut Document,
        cursor_x: &mut usize,
        cursor_y: &mut usize,
        desired_cursor_x: &mut usize,
        scroll: &Scroll,
    ) -> (r: Result<(), String>)
        requires
            old(self).consistent_with(old(document).text()),
        ensures
            final(self).consistent_with(final(document).text()),
            final(document).filename == old(document).filename,
            final(document).original() == old(document).original(),
            old(self).undo_depth() == 0 ==> (r matches Err(m) && m@ == "Nothing to undo."@) && *final(document) == *old(document)
                && *final(cursor_x) == *old(cursor_x) && *final(cursor_y) == *old(cursor_y)
                && *final(desired_cursor_x) == *old(desired_cursor_x) && final(self).undo_depth()
                == 0,
            old(self).undo_depth() > 0 ==> {
                &&& r is Ok
                &&& final(document).text() == old(self).previous_text()
                &&& final(self).undo_depth() == old(self).undo_depth() - 1
                &&& final(self).redo_depth() == old(self).redo_depth() + 1
                &&& final(self).undo_groups() == old(self).undo_groups().drop_last()
                &&& final(self).redo_groups() == old(self).redo_groups().push(
                    old(self).undo_groups().last(),
                )
                &&& final(self).redo_ready() == old(self).redo_ready()
                &&& final(self).redo_ready() ==> final(self).next_text() == old(document).text()
                &&& (*final(cursor_x), *final(cursor_y)) == old(self).undo_cursor()
                &&& *final(cursor_y) < final(document).lines.len()
                &&& *final(desired_cursor_x) == width_before(
                    final(document).text()[*final(cursor_y) as int],
                    *final(cursor_x) as int,
                )
            },
            final(self).last_type() == old(self).last_type(),
            final(self).has_previous_action() == old(self).has_previous_action(),
            final(self).threshold() == old(self).threshold(),
    {
        let n = self.undo_stack.len();
        if n == 0 {
            return Err("Nothing to undo.".to_string());
        }
        let ghost h0 = self.history@;
        let ghost f0 = self.future@;
        let ghost u0 = self.undo_groups();
        let ghost r0 = self.redo_groups();
        let ghost doc0 = document.text();
        let actions_to_undo = self.undo_stack.pop().unwrap();
        let ghost g = group_view(actions_to_undo@);
        assert(u0[n - 1] == g);
        let ghost s = h0[n - 1];
        let mut current_cursor_x = *cursor_x;
        let mut current_cursor_y = *cursor_y;
        let mut i = actions_to_undo.len();
        assert(g.take(g.len() as int) =~= g);
        while i > 0
            invariant
                i <= actions_to_undo.len(),
                g == group_view(actions_to_undo@),
                g.len() > 0,
                chain_ok(s, g),
                document.text() == chain_apply(s, g.take(i as int)),
                i < g.len() ==> current_cursor_x == g[i as int].cursor_start_x
                    && current_cursor_y == g[i as int].cursor_start_y && current_cursor_y
                    < document.lines.len(),
                document.filename == old(document).filename,
                document.original() == old(document).original(),
            decreases i,
        {
            proof {
                lemma_undo_chain_step(s, g, i as int);
            }
            let (x, y) = document.apply_action_diff(&actions_to_undo[i - 1], true).unwrap();
            current_cursor_x = x;
            current_cursor_y = y;
            i = i - 1;
        }
        assert(g.take(0) =~= Seq::<DiffView>::empty());
        self.redo_stack.push(actions_to_undo);
        proof {
            self.history@ = h0.drop_last();
            let m = r0.len();
            self.future@ = f0.update(m as int, doc0).push(s);
            let u = self.undo_groups();
            let r = self.redo_groups();
            assert(u =~= u0.drop_last());
            assert(r =~= r0.push(g));
            assert(forall|i: int| 0 <= i < u.len() ==> u[i] == u0[i]);
            assert(h0.last() == doc0);
            if self.future_valid@ {
                assert forall|k: int| 0 <= k < r.len() implies r[k].len() > 0 && chain_ok(
                    self.future@[k + 1],
                    #[trigger] r[k],
                ) && chain_apply(self.future@[k + 1], r[k]) == self.future@[k] by {
                    if k < m {
                        assert(r[k] == r0[k]);
                        if k + 1 == m {
                            assert(f0.last() == doc0);
                        }
                    }
                }
            }
        }
        *cursor_x = current_cursor_x;
        *cursor_y = current_cursor_y;
        *desired_cursor_x = scroll.get_display_width(
            document.lines[*cursor_y].as_str(),
            *cursor_x,
        );
        Ok(())
    }

    /// Redoes the last undone group: its edits are applied forwards, in
    /// order, and the group moves back to the undo stack. The cursor goes
    /// where the last edit of the group put it. An edit that does not fit
    /// the document fails the redo and leaves everything unchanged.
    pub fn redo(
        &mut self,
        document: &mut Document,
        cursor_x: &mut usize,
        cursor_y: &mut usize,
        desired_cursor_x: &mut usize,
        scroll: &Scroll,
    ) -> (r: Result<(), String>)
        requires
            old(self).consistent_with(old(document).text()),
        ensures
            final(self).consistent_with(final(document).text()),
            final(document).filename == old(document).filename,
            final(document).original() == old(document).original(),
            r is Err ==> *final(document) == *old(document) && *final(cursor_x) == *old(cursor_x)
                && *final(cursor_y) == *old(cursor_y) && *final(desired_cursor_x) == *old(desired_cursor_x) && final(self).undo_depth() == old(self).undo_depth() && final(self).redo_depth()
                == old(self).redo_depth(),
            old(self).redo_depth() == 0 ==> (r matches Err(m) && m@ == "Nothing to redo."@),
            old(self).redo_depth() > 0 && r is Err ==> (r matches Err(m) && m@
                == "Redo failed: the edits do not fit the document."@),
            old(self).redo_depth() > 0 && old(self).redo_ready() ==> r is Ok,
            r is Ok ==> {
                &&& old(self).redo_ready() ==> final(document).text() == old(self).next_text()
                &&& final(self).undo_depth() == old(self).undo_depth() + 1
                &&& final(self).redo_depth() == old(self).redo_depth() - 1
                &&& final(self).undo_groups() == old(self).undo_groups().push(
                    old(self).redo_groups().last(),
                )
                &&& final(self).redo_groups() == old(self).redo_groups().drop_last()
                &&& final(self).previous_text() == old(document).text()
                &&& final(self).redo_ready() == old(self).redo_ready()
                &&& (*final(cursor_x), *final(cursor_y)) == old(self).redo_cursor()
                &&& *final(cursor_y) < final(document).lines.len()
                &&& *final(desired_cursor_x) == width_before(
                    final(document).text()[*final(cursor_y) as int],
                    *final(cursor_x) as int,
                )
            },
            final(self).last_type() == old(self).last_type(),
            final(self).has_previous_action() == old(self).has_previous_action(),
            final(self).threshold() == old(self).threshold(),
    {
        let m = self.redo_stack.len();
        if m == 0 {
            return Err("Nothing to redo.".to_string());
        }
        let ghost h0 = self.history@;
        let ghost f0 = self.future@;
        let ghost u0 = self.undo_groups();
        let ghost r0 = self.redo_groups();
        let ghost doc0 = document.text();
        let actions_to_redo = self.redo_stack.pop().unwrap();
        let ghost g = group_view(actions_to_redo@);
        assert(r0[m - 1] == g);
        let mut trial = Document {
            lines: crate::document::copy_lines(&document.lines),
            filename: None,
            original_content: None,
        };
        let mut current_cursor_x = *cursor_x;
        let mut current_cursor_y = *cursor_y;
        let mut i: usize = 0;
        let mut ok = true;
        assert(g.take(0) =~= Seq::<DiffView>::empty());
        while i < actions_to_redo.len() && ok
            invariant
                i <= actions_to_redo.len(),
                g == group_view(actions_to_redo@),
                ok ==> trial.text() == chain_apply(doc0, g.take(i as int)),
                ok ==> chain_ok(doc0, g.take(i as int)),
                ok && i > 0 ==> current_cursor_x == g[i - 1].cursor_end_x && current_cursor_y
                    == g[i - 1].cursor_end_y && current_cursor_y < trial.lines.len(),
                self.future_valid@ && r0.len() > 0 && chain_ok(doc0, g) ==> ok,
            decreases (actions_to_redo.len() - i) * 2 + if ok {
                1int
            } else {
                0int
            },
        {
            let d = &actions_to_redo[i];
            if trial.is_well_placed(d) {
                proof {
                    lemma_undo_reverts_apply(d@, trial.text());
                    assert(g.take(i + 1).drop_last() =~= g.take(i as int));
                    assert(g.take(i + 1).last() == g[i as int]);
                }
                let (x, y) = trial.apply_action_diff(d, false).unwrap();
                current_cursor_x = x;
                current_cursor_y = y;
                i = i + 1;
            } else {
                proof {
                    if chain_ok(doc0, g) {
                        lemma_chain_prefix(doc0, g, i + 1);
                        assert(g.take(i + 1).drop_last() =~= g.take(i as int));
                        assert(g.take(i + 1).last() == g[i as int]);
                    }
                }
                ok = false;
            }
        }
        if !ok || actions_to_redo.len() == 0 {
            self.redo_stack.push(actions_to_redo);
            proof {
                assert(self.redo_stack@ =~= old(self).redo_stack@);
            }
            return Err("Redo failed: the edits do not fit the document.".to_string());
        }
        assert(g.take(g.len() as int) =~= g);
        document.lines = trial.lines;
        self.undo_stack.push(actions_to_redo);
        proof {
            let n = u0.len();
            self.history@ = h0.update(n as int, doc0).push(document.text());
            self.future@ = f0.drop_last();
            let u = self.undo_groups();
            let r = self.redo_groups();
            assert(u =~= u0.push(g));
            assert(r =~= r0.drop_last());
            assert forall|i: int| 0 <= i < u.len() implies u[i].len() > 0 && chain_ok(
                self.history@[i],
                #[trigger] u[i],
            ) && chain_apply(self.history@[i], u[i]) == self.history@[i + 1] by {
                if i < n {
                    assert(u[i] == u0[i]);
                    if i + 1 == n {
                        assert(h0.last() == doc0);
                    }
                }
            }
            if self.future_valid@ {
                assert(f0[m - 1] == chain_apply(doc0, g));
                assert forall|k: int| 0 <= k < r.len() implies r[k].len() > 0 && chain_ok(
                    self.future@[k + 1],
                    #[trigger] r[k],
                ) && chain_apply(self.future@[k + 1], r[k]) == self.future@[k] by {
                    assert(r[k] == r0[k]);
                }
            }
        }
        *cursor_x = current_cursor_x;
        *cursor_y = current_cursor_y;
        *desired_cursor_x = scroll.get_display_width(
            document.lines[*cursor_y].as_str(),
            *cursor_x,
        );
        Ok(())
    }
}

} // verus!
