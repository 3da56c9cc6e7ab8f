//! Colors and key bindings.
use crate::editor::actions::Action;
use vstd::prelude::*;

verus! {

broadcast use vstd::string::group_string_axioms;

/// The colors of the screen, as `#rrggbb` strings.
#[derive(Debug, Clone)]
pub struct Colors {
    pub bg: String,
    pub fg: String,
    pub bold: String,
}

impl Default for Colors {
    fn default() -> (c: Self)
        ensures
            c.bg@ == "#33302d"@,
            c.fg@ == "#d0d0d0"@,
            c.bold@ == "#f5c373"@,
    {
        Self { bg: "#33302d".to_string(), fg: "#d0d0d0".to_string(), bold: "#f5c373".to_string() }
    }
}

/// The settings of the editor.
#[derive(Debug, Clone)]
pub struct Config {
    pub colors: Colors,
    pub keymap: Keymap,
}

impl Default for Config {
    fn default() -> (c: Self)
        ensures
            c.colors.bg@ == "#33302d"@,
            c.colors.fg@ == "#d0d0d0"@,
            c.colors.bold@ == "#f5c373"@,
            c.keymap.entries() == default_bindings(),
    {
        Self { colors: Colors::default(), keymap: Keymap::default() }
    }
}

impl Config {
    /// Applies the user's settings: each color given replaces the current
    /// one, and the user's key bindings come after (and so override) the
    /// current ones.
    pub fn apply_user_settings(
        &mut self,
        bg: Option<String>,
        fg: Option<String>,
        bold: Option<String>,
        bindings: Vec<(String, Action)>,
    )
        ensures
            final(self).colors.bg@ == match bg {
                Some(c) => c@,
                None => old(self).colors.bg@,
            },
            final(self).colors.fg@ == match fg {
                Some(c) => c@,
                None => old(self).colors.fg@,
            },
            final(self).colors.bold@ == match bold {
                Some(c) => c@,
                None => old(self).colors.bold@,
            },
            final(self).keymap.entries() == old(self).keymap.entries() + entries_view(bindings@),
    {
        if let Some(c) = bg {
            self.colors.bg = c;
        }
        if let Some(c) = fg {
            self.colors.fg = c;
        }
        if let Some(c) = bold {
            self.colors.bold = c;
        }
        let ghost start = self.keymap.entries();
        let ghost colors = self.colors;
        let mut i: usize = 0;
        while i < bindings.len()
            invariant
                i <= bindings@.len(),
                self.colors == colors,
                self.keymap.entries() == start + entries_view(bindings@.take(i as int)),
            decreases bindings.len() - i,
        {
            let k = bindings[i].0.clone();
            let a = bindings[i].1;
            assert(k@ == bindings@[i as int].0@ && a == bindings@[i as int].1);
            self.keymap.insert(k, a);
            assert(entries_view(bindings@.take(i + 1)) =~= entries_view(bindings@.take(i as int)).push(
                (bindings@[i as int].0@, bindings@[i as int].1),
            ));
            i = i + 1;
        }
        assert(bindings@.take(bindings.len() as int) =~= bindings@);
    }
}

/// Key names bound to actions. A later binding of a key overrides an
/// earlier one.
#[derive(Debug, Clone)]
pub struct Keymap {
    pub bindings: Vec<(String, Action)>,
}

/// The bindings, with key names as character sequences.
pub open spec fn entries_view(v: Seq<(String, Action)>) -> Seq<(Seq<char>, Action)> {
    Seq::new(v.len(), |i: int| (v[i].0@, v[i].1))
}

/// The action that the last binding of `key` in `e` names.
pub open spec fn binding_of(e: Seq<(Seq<char>, Action)>, key: Seq<char>) -> Option<Action>
    decreases e.len(),
{
    if e.len() == 0 {
        None
    } else if e.last().0 == key {
        Some(e.last().1)
    } else {
        binding_of(e.drop_last(), key)
    }
}

/// The bindings that the editor starts with.
pub open spec fn default_bindings() -> Seq<(Seq<char>, Action)> {
    seq![
        ("alt-s"@, Action::Save),
        ("ctrl-x"@, Action::Quit),
        ("up"@, Action::MoveUp),
        ("down"@, Action::MoveDown),
        ("left"@, Action::MoveLeft),
        ("right"@, Action::MoveRight),
        ("ctrl-a"@, Action::GoToStartOfLine),
        ("ctrl-e"@, Action::GoToEndOfLine),
        ("alt-f"@, Action::MoveWordRight),
        ("alt-b"@, Action::MoveWordLeft),
        ("alt-right"@, Action::MoveWordRight),
        ("alt-left"@, Action::MoveWordLeft),
        ("ctrl-b"@, Action::MoveWordLeft),
        ("alt-up"@, Action::MoveLineUp),
        ("alt-down"@, Action::MoveLineDown),
        ("ctrl-v"@, Action::PageDown),
        ("alt-v"@, Action::PageUp),
        ("ctrl-n"@, Action::MoveToNextDelimiter),
        ("ctrl-p"@, Action::MoveToPreviousDelimiter),
        ("alt->"@, Action::GoToEndOfFile),
        ("alt-<"@, Action::GoToStartOfFile),
        ("backspace"@, Action::DeleteChar),
        ("delete"@, Action::DeleteForwardChar),
        ("ctrl-d"@, Action::DeleteForwardChar),
        ("alt-backspace"@, Action::DeleteWord),
        ("ctrl-k"@, Action::KillLine),
        ("ctrl-y"@, Action::Yank),
        ("ctrl-_"@, Action::Undo),
        ("alt-_"@, Action::Redo),
        ("tab"@, Action::Indent),
        ("shift-tab"@, Action::Outdent),
        ("alt-/"@, Action::ToggleComment),
        ("ctrl-t"@, Action::ToggleCheckbox),
        ("enter"@, Action::InsertNewline),
        ("ctrl-space"@, Action::SetMarker),
        ("ctrl-w"@, Action::CutSelection),
        ("alt-w"@, Action::CopySelection),
        ("ctrl-g"@, Action::ClearMarker),
        ("ctrl-s"@, Action::EnterSearchMode),
        ("ctrl-f"@, Action::EnterFuzzySearchMode),
        ("esc"@, Action::EnterNormalMode),
    ]
}

impl Keymap {
    pub open spec fn entries(&self) -> Seq<(Seq<char>, Action)> {
        entries_view(self.bindings@)
    }

    /// The action bound to `key`, if any.
    pub open spec fn binding(&self, key: Seq<char>) -> Option<Action> {
        binding_of(self.entries(), key)
    }

    /// A keymap with no binding.
    pub fn new() -> (k: Self)
        ensures
            k.entries() == Seq::<(Seq<char>, Action)>::empty(),
    {
        let k = Self { bindings: Vec::new() };
        assert(k.entries() =~= Seq::<(Seq<char>, Action)>::empty());
        k
    }

    /// The action bound to `key`, if any.
    pub fn get(&self, key: &str) -> (r: Option<Action>)
        ensures
            r == self.binding(key@),
    {
        let ghost e = self.entries();
        let mut i = self.bindings.len();
        assert(e.take(i as int) =~= e);
        while i > 0
            invariant
                i <= self.bindings.len(),
                e == self.entries(),
                binding_of(e, key@) == binding_of(e.take(i as int), key@),
            decreases i,
        {
            assert(e.take(i as int).drop_last() =~= e.take(i - 1));
            assert(e.take(i as int).last() == e[i - 1]);
            assert(e[i - 1].0 == self.bindings@[i - 1].0@);
            if crate::text::str_eq(self.bindings[i - 1].0.as_str(), key) {
                return Some(self.bindings[i - 1].1);
            }
            i = i - 1;
        }
        assert(e.take(0) =~= Seq::<(Seq<char>, Action)>::empty());
        None
    }

    /// Binds `key` to `action`, replacing an earlier binding of `key`.
    pub fn insert(&mut self, key: String, action: Action)
        ensures
            final(self).entries() == old(self).entries().push((key@, action)),
    {
        self.bindings.push((key, action));
        assert(self.entries() =~= old(self).entries().push((key@, action)));
    }
}

impl Default for Keymap {
    fn default() -> (k: Self)
        ensures
            k.entries() == default_bindings(),
    {
        let mut b: Vec<(String, Action)> = Vec::new();
        b.push(("alt-s".to_string(), Action::Save));
        b.push(("ctrl-x".to_string(), Action::Quit));
        b.push(("up".to_string(), Action::MoveUp));
        b.push(("down".to_string(), Action::MoveDown));
        b.push(("left".to_string(), Action::MoveLeft));
        b.push(("right".to_string(), Action::MoveRight));
        b.push(("ctrl-a".to_string(), Action::GoToStartOfLine));
        b.push(("ctrl-e".to_string(), Action::GoToEndOfLine));
        b.push(("alt-f".to_string(), Action::MoveWordRight));
        b.push(("alt-b".to_string(), Action::MoveWordLeft));
        b.push(("alt-right".to_string(), Action::MoveWordRight));
        b.push(("alt-left".to_string(), Action::MoveWordLeft));
        b.push(("ctrl-b".to_string(), Action::MoveWordLeft));
        b.push(("alt-up".to_string(), Action::MoveLineUp));
        b.push(("alt-down".to_string(), Action::MoveLineDown));
        b.push(("ctrl-v".to_string(), Action::PageDown));
        b.push(("alt-v".to_string(), Action::PageUp));
        b.push(("ctrl-n".to_string(), Action::MoveToNextDelimiter));
        b.push(("ctrl-p".to_string(), Action::MoveToPreviousDelimiter));
        b.push(("alt->".to_string(), Action::GoToEndOfFile));
        b.push(("alt-<".to_string(), Action::GoToStartOfFile));
        b.push(("backspace".to_string(), Action::DeleteChar));
        b.push(("delete".to_string(), Action::DeleteForwardChar));
        b.push(("ctrl-d".to_string(), Action::DeleteForwardChar));
        b.push(("alt-backspace".to_string(), Action::DeleteWord));
        b.push(("ctrl-k".to_string(), Action::KillLine));
        b.push(("ctrl-y".to_string(), Action::Yank));
        b.push(("ctrl-_".to_string(), Action::Undo));
        b.push(("alt-_".to_string(), Action::Redo));
        b.push(("tab".to_string(), Action::Indent));
        b.push(("shift-tab".to_string(), Action::Outdent));
        b.push(("alt-/".to_string(), Action::ToggleComment));
        b.push(("ctrl-t".to_string(), Action::ToggleCheckbox));
        b.push(("enter".to_string(), Action::InsertNewline));
        b.push(("ctrl-space".to_string(), Action::SetMarker));
        b.push(("ctrl-w".to_string(), Action::CutSelection));
        b.push(("alt-w".to_string(), Action::CopySelection));
        b.push(("ctrl-g".to_string(), Action::ClearMarker));
        b.push(("ctrl-s".to_string(), Action::EnterSearchMode));
        b.push(("ctrl-f".to_string(), Action::EnterFuzzySearchMode));
        b.push(("esc".to_string(), Action::EnterNormalMode));
        let k = Self { bindings: b };
        assert(k.entries() =~= default_bindings());
        k
    }
}

} // verus!
