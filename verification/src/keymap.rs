//! Keybindings: which key performs which action. The bindings are data, so a
//! rebound key takes effect everywhere at once.

use vstd::prelude::*;

use crate::input::{KeyCode, KeyPress};

verus! {

#[derive(Clone, Copy, Debug, PartialEq, Eq, Structural)]
pub enum Action {
    Quit,
    Help,
    Cancel,
    Refetch,
    CyclePane,
    WidenKeysPane,
    NarrowKeysPane,
    Delete,
    ConfirmMutation,
    MoveDown,
    MoveUp,
    PageDown,
    PageUp,
    Top,
    Bottom,
    Open,
    EnterValueCursor,
    Copy,
    CopyCommand,
    Edit,
    Add,
    EditorStage,
    EditorUndo,
    EditorRedo,
    Filter,
    Sort,
    ToggleTree,
    CollapseGroup,
    ToggleReadOnly,
    OpenPalette,
}

impl Action {
    /// Every action, in the order the Palette lists them.
    pub open spec fn all() -> Seq<Action> {
        seq![
            Action::Quit,
            Action::Help,
            Action::Cancel,
            Action::Refetch,
            Action::CyclePane,
            Action::WidenKeysPane,
            Action::NarrowKeysPane,
            Action::Delete,
            Action::ConfirmMutation,
            Action::MoveDown,
            Action::MoveUp,
            Action::PageDown,
            Action::PageUp,
            Action::Top,
            Action::Bottom,
            Action::Open,
            Action::EnterValueCursor,
            Action::Copy,
            Action::CopyCommand,
            Action::Edit,
            Action::Add,
            Action::EditorStage,
            Action::EditorUndo,
            Action::EditorRedo,
            Action::Filter,
            Action::Sort,
            Action::ToggleTree,
            Action::CollapseGroup,
            Action::ToggleReadOnly,
            Action::OpenPalette,
        ]
    }

    /// What the Palette calls the action.
    pub open spec fn name(self) -> Seq<char> {
        match self {
            Action::Quit => "quit"@,
            Action::Help => "help"@,
            Action::Cancel => "cancel"@,
            Action::Refetch => "refresh"@,
            Action::CyclePane => "other pane"@,
            Action::WidenKeysPane => "widen keys pane"@,
            Action::NarrowKeysPane => "narrow keys pane"@,
            Action::Delete => "delete"@,
            Action::ConfirmMutation => "confirm"@,
            Action::MoveDown => "move down"@,
            Action::MoveUp => "move up"@,
            Action::PageDown => "page down"@,
            Action::PageUp => "page up"@,
            Action::Top => "top"@,
            Action::Bottom => "bottom"@,
            Action::Open => "open"@,
            Action::EnterValueCursor => "enter value"@,
            Action::Copy => "copy"@,
            Action::CopyCommand => "copy command"@,
            Action::Edit => "edit"@,
            Action::Add => "add"@,
            Action::EditorStage => "stage edit"@,
            Action::EditorUndo => "undo"@,
            Action::EditorRedo => "redo"@,
            Action::Filter => "filter"@,
            Action::Sort => "sort"@,
            Action::ToggleTree => "toggle tree"@,
            Action::CollapseGroup => "collapse group"@,
            Action::ToggleReadOnly => "toggle read-only"@,
            Action::OpenPalette => "palette"@,
        }
    }

    pub fn label(self) -> (label: &'static str)
        ensures
            label@ == self.name(),
    {
        match self {
            Action::Quit => "quit",
            Action::Help => "help",
            Action::Cancel => "cancel",
            Action::Refetch => "refresh",
            Action::CyclePane => "other pane",
            Action::WidenKeysPane => "widen keys pane",
            Action::NarrowKeysPane => "narrow keys pane",
            Action::Delete => "delete",
            Action::ConfirmMutation => "confirm",
            Action::MoveDown => "move down",
            Action::MoveUp => "move up",
            Action::PageDown => "page down",
            Action::PageUp => "page up",
            Action::Top => "top",
            Action::Bottom => "bottom",
            Action::Open => "open",
            Action::EnterValueCursor => "enter value",
            Action::Copy => "copy",
            Action::CopyCommand => "copy command",
            Action::Edit => "edit",
            Action::Add => "add",
            Action::EditorStage => "stage edit",
            Action::EditorUndo => "undo",
            Action::EditorRedo => "redo",
            Action::Filter => "filter",
            Action::Sort => "sort",
            Action::ToggleTree => "toggle tree",
            Action::CollapseGroup => "collapse group",
            Action::ToggleReadOnly => "toggle read-only",
            Action::OpenPalette => "palette",
        }
    }
}

/// Every action, in the order the Palette lists them.
pub fn all_actions() -> (actions: Vec<Action>)
    ensures
        actions@ == Action::all(),
{
    let actions = vec![
        Action::Quit,
        Action::Help,
        Action::Cancel,
        Action::Refetch,
        Action::CyclePane,
        Action::WidenKeysPane,
        Action::NarrowKeysPane,
        Action::Delete,
        Action::ConfirmMutation,
        Action::MoveDown,
        Action::MoveUp,
        Action::PageDown,
        Action::PageUp,
        Action::Top,
        Action::Bottom,
        Action::Open,
        Action::EnterValueCursor,
        Action::Copy,
        Action::CopyCommand,
        Action::Edit,
        Action::Add,
        Action::EditorStage,
        Action::EditorUndo,
        Action::EditorRedo,
        Action::Filter,
        Action::Sort,
        Action::ToggleTree,
        Action::CollapseGroup,
        Action::ToggleReadOnly,
        Action::OpenPalette,
    ];
    assert(actions@ =~= Action::all());
    actions
}

/// The first action bound to `key`.
pub open spec fn lookup(bindings: Seq<(KeyPress, Action)>, key: KeyPress) -> Option<Action>
    decreases bindings.len(),
{
    if bindings.len() == 0 {
        None
    } else if bindings[0].0 == key {
        Some(bindings[0].1)
    } else {
        lookup(bindings.skip(1), key)
    }
}

/// The bindings that have to do with neither `action` nor `key`.
pub open spec fn unrelated(action: Action, key: KeyPress) -> spec_fn((KeyPress, Action)) -> bool {
    |b: (KeyPress, Action)| b.0 != key && b.1 != action
}

/// The bindings after `key` is bound to `action`: the keys that action had, and
/// whatever that key did, are given up.
pub open spec fn rebound(
    bindings: Seq<(KeyPress, Action)>,
    action: Action,
    key: KeyPress,
) -> Seq<(KeyPress, Action)> {
    bindings.filter(unrelated(action, key)).push((key, action))
}

pub open spec fn plain_key(code: KeyCode) -> KeyPress {
    KeyPress { code, ctrl: false, alt: false }
}

pub open spec fn ctrl_key(code: KeyCode) -> KeyPress {
    KeyPress { code, ctrl: true, alt: false }
}

/// The bindings a session starts with.
pub open spec fn default_bindings() -> Seq<(KeyPress, Action)> {
    seq![
        (plain_key(KeyCode::Char('q')), Action::Quit),
        (ctrl_key(KeyCode::Char('c')), Action::Quit),
        (plain_key(KeyCode::Char('?')), Action::Help),
        (plain_key(KeyCode::Esc), Action::Cancel),
        (plain_key(KeyCode::Char('r')), Action::Refetch),
        (plain_key(KeyCode::Tab), Action::CyclePane),
        (ctrl_key(KeyCode::Right), Action::WidenKeysPane),
        (ctrl_key(KeyCode::Left), Action::NarrowKeysPane),
        (plain_key(KeyCode::Char('d')), Action::Delete),
        (plain_key(KeyCode::Char('y')), Action::ConfirmMutation),
        (plain_key(KeyCode::Down), Action::MoveDown),
        (plain_key(KeyCode::Char('j')), Action::MoveDown),
        (plain_key(KeyCode::Up), Action::MoveUp),
        (plain_key(KeyCode::Char('k')), Action::MoveUp),
        (plain_key(KeyCode::PageDown), Action::PageDown),
        (plain_key(KeyCode::PageUp), Action::PageUp),
        (plain_key(KeyCode::Home), Action::Top),
        (plain_key(KeyCode::End), Action::Bottom),
        (plain_key(KeyCode::Right), Action::Open),
        (plain_key(KeyCode::Char('l')), Action::Open),
        (plain_key(KeyCode::Left), Action::CollapseGroup),
        (plain_key(KeyCode::Char('h')), Action::CollapseGroup),
        (plain_key(KeyCode::Enter), Action::EnterValueCursor),
        (plain_key(KeyCode::Char('c')), Action::Copy),
        (plain_key(KeyCode::Char('C')), Action::CopyCommand),
        (plain_key(KeyCode::Char('e')), Action::Edit),
        (plain_key(KeyCode::Char('a')), Action::Add),
        (ctrl_key(KeyCode::Char('s')), Action::EditorStage),
        (ctrl_key(KeyCode::Char('z')), Action::EditorUndo),
        (ctrl_key(KeyCode::Char('y')), Action::EditorRedo),
        (plain_key(KeyCode::Char('/')), Action::Filter),
        (plain_key(KeyCode::Char('s')), Action::Sort),
        (plain_key(KeyCode::Char('t')), Action::ToggleTree),
        (ctrl_key(KeyCode::Char('r')), Action::ToggleReadOnly),
        (ctrl_key(KeyCode::Char('k')), Action::OpenPalette),
    ]
}

/// The effective keybindings.
#[derive(Clone, Debug, PartialEq, Eq)]
pub struct Keymap {
    bindings: Vec<(KeyPress, Action)>,
}

impl View for Keymap {
    type V = Seq<(KeyPress, Action)>;

    closed spec fn view(&self) -> Seq<(KeyPress, Action)> {
        self.bindings@
    }
}

impl Default for Keymap {
    fn default() -> (keymap: Keymap)
        ensures
            keymap@ == default_bindings(),
    {
        let bindings = vec![
            (KeyPress::plain(KeyCode::Char('q')), Action::Quit),
            (KeyPress::ctrl(KeyCode::Char('c')), Action::Quit),
            (KeyPress::plain(KeyCode::Char('?')), Action::Help),
            (KeyPress::plain(KeyCode::Esc), Action::Cancel),
            (KeyPress::plain(KeyCode::Char('r')), Action::Refetch),
            (KeyPress::plain(KeyCode::Tab), Action::CyclePane),
            (KeyPress::ctrl(KeyCode::Right), Action::WidenKeysPane),
            (KeyPress::ctrl(KeyCode::Left), Action::NarrowKeysPane),
            (KeyPress::plain(KeyCode::Char('d')), Action::Delete),
            (KeyPress::plain(KeyCode::Char('y')), Action::ConfirmMutation),
            (KeyPress::plain(KeyCode::Down), Action::MoveDown),
            (KeyPress::plain(KeyCode::Char('j')), Action::MoveDown),
            (KeyPress::plain(KeyCode::Up), Action::MoveUp),
            (KeyPress::plain(KeyCode::Char('k')), Action::MoveUp),
            (KeyPress::plain(KeyCode::PageDown), Action::PageDown),
            (KeyPress::plain(KeyCode::PageUp), Action::PageUp),
            (KeyPress::plain(KeyCode::Home), Action::Top),
            (KeyPress::plain(KeyCode::End), Action::Bottom),
            (KeyPress::plain(KeyCode::Right), Action::Open),
            (KeyPress::plain(KeyCode::Char('l')), Action::Open),
            (KeyPress::plain(KeyCode::Left), Action::CollapseGroup),
            (KeyPress::plain(KeyCode::Char('h')), Action::CollapseGroup),
            (KeyPress::plain(KeyCode::Enter), Action::EnterValueCursor),
            (KeyPress::plain(KeyCode::Char('c')), Action::Copy),
            (KeyPress::plain(KeyCode::Char('C')), Action::CopyCommand),
            (KeyPress::plain(KeyCode::Char('e')), Action::Edit),
            (KeyPress::plain(KeyCode::Char('a')), Action::Add),
            (KeyPress::ctrl(KeyCode::Char('s')), Action::EditorStage),
            (KeyPress::ctrl(KeyCode::Char('z')), Action::EditorUndo),
            (KeyPress::ctrl(KeyCode::Char('y')), Action::EditorRedo),
            (KeyPress::plain(KeyCode::Char('/')), Action::Filter),
            (KeyPress::plain(KeyCode::Char('s')), Action::Sort),
            (KeyPress::plain(KeyCode::Char('t')), Action::ToggleTree),
            (KeyPress::ctrl(KeyCode::Char('r')), Action::ToggleReadOnly),
            (KeyPress::ctrl(KeyCode::Char('k')), Action::OpenPalette),
        ];
        assert(bindings@ =~= default_bindings());
        Keymap { bindings }
    }
}

impl Keymap {
    /// The action that `key` performs, if it is bound.
    pub fn action_for(&self, key: &KeyPress) -> (action: Option<Action>)
        ensures
            action == lookup(self@, *key),
    {
        let mut i: usize = 0;
        assert(self@.skip(0) =~= self@);
        while i < self.bindings.len()
            invariant
                i <= self@.len(),
                self@ == self.bindings@,
                lookup(self@.skip(i as int), *key) == lookup(self@, *key),
            decreases self@.len() - i,
        {
            let binding = self.bindings[i];
            if binding.0 == *key {
                return Some(binding.1);
            }
            assert(self@.skip(i as int).skip(1) =~= self@.skip(i + 1));
            i = i + 1;
        }
        None
    }

    /// Binds `key` to `action`, and to nothing else.
    pub fn bind(&mut self, action: Action, key: KeyPress)
        ensures
            final(self)@ == rebound(old(self)@, action, key),
    {
        let ghost keep = unrelated(action, key);
        let mut kept: Vec<(KeyPress, Action)> = Vec::new();
        let mut i: usize = 0;
        while i < self.bindings.len()
            invariant
                i <= self.bindings@.len(),
                self.bindings@ == old(self)@,
                keep == unrelated(action, key),
                kept@ == self.bindings@.take(i as int).filter(keep),
            decreases self.bindings@.len() - i,
        {
            let binding = self.bindings[i];
            proof {
                reveal(Seq::filter);
                assert(self.bindings@.take(i + 1).drop_last() =~= self.bindings@.take(i as int));
            }
            if binding.0 != key && binding.1 != action {
                kept.push(binding);
            }
            i = i + 1;
        }
        assert(self.bindings@.take(self.bindings@.len() as int) =~= self.bindings@);
        kept.push((key, action));
        self.bindings = kept;
    }
}

proof fn lookup_behind(bindings: Seq<(KeyPress, Action)>, key: KeyPress, action: Action)
    requires
        forall|i: int| 0 <= i < bindings.len() ==> (#[trigger] bindings[i]).0 != key,
    ensures
        lookup(bindings.push((key, action)), key) == Some(action),
    decreases bindings.len(),
{
    if bindings.len() > 0 {
        lookup_behind(bindings.skip(1), key, action);
        assert(bindings.push((key, action)).skip(1) =~= bindings.skip(1).push((key, action)));
    }
}

/// Binding takes effect: the key performs the action it was bound to.
pub proof fn a_bound_key_performs_its_action(
    bindings: Seq<(KeyPress, Action)>,
    action: Action,
    key: KeyPress,
)
    ensures
        lookup(rebound(bindings, action, key), key) == Some(action),
{
    let keep = unrelated(action, key);
    let kept = bindings.filter(keep);
    assert forall|i: int| 0 <= i < kept.len() implies (#[trigger] kept[i]).0 != key by {
        bindings.lemma_filter_pred(keep, i);
    }
    lookup_behind(kept, key, action);
}

} // verus!
