//! The keys pane: selection, the filter, folding, sorting, and opening a key
//! from the list into the value pane.

use vstd::prelude::*;

use crate::command::{nothing, only, Command, CommandView};
use crate::input::{KeyCode, KeyPress};
use crate::key::KeyName;
use crate::layout::{self, Pane};
use crate::state::open::OpenView;
use crate::state::pending::{PendingMutation, PendingView};
use crate::state::session::{State, StateView};
use crate::state::status::{moved_by, Viewport};
use crate::state::tree::{Row, TreeModel};
use crate::state::view::SortBy;
use crate::text;
use crate::update::reads::start_read;
use crate::update::viewer::cursor_active;
use crate::update::Outcome;

verus! {

// ── What the keys do ────────────────────────────────────────────────────────

impl TreeModel {
    /// A parent stands above its child.
    pub proof fn parent_is_above(self, row: int)
        ensures
            self.parent(row) is Some ==> 0 <= self.parent(row)->0 < row,
    {
        if self.at(row) is Some && self.at(row)->0.level() > 0 {
            self.group_above_is_above(row, self.at(row)->0.level() - 1);
        }
    }

    pub proof fn group_above_is_above(self, row: int, depth: int)
        ensures
            self.group_above(row, depth) is Some ==> 0 <= self.group_above(row, depth)->0 < row
                && self.is_group(self.group_above(row, depth)->0, depth),
        decreases row,
    {
        if row > 0 && !self.is_group(row - 1, depth) {
            self.group_above_is_above(row - 1, depth);
        }
    }
}

impl StateView {
    /// The text that a group row adds to the prefix it stands for.
    pub open spec fn group_segment(self, row: int) -> Option<Seq<char>> {
        match self.tree.at(row) {
            Some(Row::Group { offset, len, .. }) => match self.keys.slice(
                offset as int,
                len as int,
            ) {
                Some(bytes) => Some(text::shown(bytes).push(self.tree.separator)),
                None => None,
            },
            _ => None,
        }
    }

    /// The prefix that a group row stands for: the segments of its ancestors,
    /// then its own, each with a separator behind it.
    pub open spec fn group_prefix(self, row: int) -> Option<Seq<char>>
        decreases row,
    {
        match self.group_segment(row) {
            Some(own) => match self.tree.parent(row) {
                Some(parent) => {
                    proof {
                        self.tree.parent_is_above(row);
                    }
                    match self.group_prefix(parent) {
                        Some(above) => Some(above + own),
                        None => None,
                    }
                },
                None => Some(own),
            },
            None => None,
        }
    }

    /// The bytes that a group row is named by.
    pub open spec fn group_name(self, row: int) -> Option<Seq<u8>> {
        match self.tree.at(row) {
            Some(Row::Group { offset, len, .. }) => self.keys.slice(offset as int, len as int),
            _ => None,
        }
    }

    /// The bytes of the prefix that a group row stands for.
    pub open spec fn group_bytes(self, row: int) -> Option<Seq<u8>>
        decreases row,
    {
        match self.group_name(row) {
            Some(name) => {
                let own = name + text::bytes_of(self.tree.separator);
                match self.tree.parent(row) {
                    Some(parent) => {
                        proof {
                            self.tree.parent_is_above(row);
                        }
                        match self.group_bytes(parent) {
                            Some(above) => Some(above + own),
                            None => None,
                        }
                    },
                    None => Some(own),
                }
            },
            None => None,
        }
    }

    /// The prefix of what a row stands under.
    pub open spec fn prefix_above(self, row: int) -> Option<Seq<char>> {
        match self.tree.parent(row) {
            Some(parent) => self.group_prefix(parent),
            None => Some(Seq::empty()),
        }
    }

    /// The group on a row collapsed, or expanded again.
    pub open spec fn refolded(self, row: int) -> StateView {
        match self.group_prefix(row) {
            Some(prefix) => StateView { tree: self.tree.toggled(prefix), ..self }.rebuilt(),
            None => self,
        }
    }

    /// After a move in the list: the value pane is at rest again unless it is
    /// scrolled, the list follows its cursor, and what is newly on screen is
    /// asked for.
    pub open spec fn after_move(self) -> Outcome {
        let rested = match self.open {
            Some(open) => if open.offset == 0 {
                self.with_open(Some(OpenView { at_rest: true, ..open }))
            } else {
                self
            },
            None => self,
        };
        let next = StateView { view: rested.view.following(rested.visible_rows()), ..rested };
        (next, next.metadata_wanted())
    }

    /// The command that asks for what is not known of the keys on screen.
    pub open spec fn metadata_wanted(self) -> Seq<CommandView> {
        if self.needing_metadata().len() == 0 {
            Seq::empty()
        } else {
            seq![CommandView::FetchMetadata { indices: self.needing_metadata() }]
        }
    }

    /// The cursor moved by so many rows, as far as there are rows.
    pub open spec fn selection_moved(self, by: int) -> Outcome {
        if self.row_count() == 0 {
            self.unchanged()
        } else {
            self.with_selected(
                layout::clamped(self.view.selected + by, 0, self.row_count() - 1) as usize,
            ).after_move()
        }
    }

    pub open spec fn refiltered(self, filter: Seq<char>) -> StateView {
        StateView { list: self.list.filtered_by(filter), ..self }.rebuilt()
    }

    /// A keypress while the filter captures.
    pub open spec fn filter_key(self, key: KeyPress) -> Outcome {
        match key.code {
            KeyCode::Esc => StateView { filtering: false, ..self }.refiltered(
                Seq::empty(),
            ).after_move(),
            KeyCode::Enter => (StateView { filtering: false, ..self }, Seq::empty()),
            KeyCode::Backspace => self.refiltered(
                text::without_last(self.list.filter),
            ).after_move(),
            _ => match key.typed() {
                Some(c) => self.refiltered(self.list.filter.push(c)).after_move(),
                None => self.unchanged(),
            },
        }
    }

    /// A delete of the selected key staged, where there is one to delete.
    pub open spec fn key_delete_staged(self) -> StateView {
        match self.selected_key() {
            Some(index) => match (self.keys.gone(index as int), self.keys.name(index as int)) {
                (false, Some(name)) => StateView {
                    confirm: Some(PendingView::DeleteKey { index, name }),
                    ..self
                },
                _ => self,
            },
            None => self,
        }
    }

    /// The selected key read into the value pane.
    pub open spec fn selected_read(self, activate_cursor: bool) -> Outcome {
        match self.selected_key() {
            Some(index) => match self.keys.name(index as int) {
                Some(name) => StateView { focus: Pane::Value, ..self }.reading(
                    name,
                    Some(index),
                    activate_cursor,
                ),
                None => self.unchanged(),
            },
            None => self.unchanged(),
        }
    }

    /// The row under the cursor opened: a collapsed group expands, an expanded
    /// one is stepped into, a key is read.
    pub open spec fn row_opened(self) -> Outcome {
        if self.cursor_active() {
            self.unchanged()
        } else if self.tree_mode && self.tree.at(self.view.selected as int) is Some
            && self.tree.at(self.view.selected as int)->0 is Group {
            if self.tree.at(self.view.selected as int)->0->expanded {
                self.selection_moved(1)
            } else {
                self.refolded(self.view.selected as int).after_move()
            }
        } else {
            self.selected_read(false)
        }
    }

    /// The next order, except in the tree, which has only one.
    pub open spec fn sort_cycled(self) -> Outcome {
        if self.tree_mode {
            self.unchanged()
        } else {
            StateView {
                list: self.list.sorted_by(self.list.sort.after()),
                ..self
            }.rebuilt().after_move()
        }
    }

    pub open spec fn tree_toggled(self) -> Outcome {
        StateView {
            tree_mode: !self.tree_mode,
            view: Viewport { offset: 0, selected: 0 },
            ..self
        }.rebuilt().after_move()
    }

    /// The row under the cursor closed: an expanded group collapses in place,
    /// from anything else the cursor moves to the parent, where there is one.
    pub open spec fn row_closed(self) -> Outcome {
        if self.cursor_active() {
            self.unchanged()
        } else if !self.tree_mode {
            self.after_move()
        } else {
            let row = self.view.selected as int;
            match self.tree.at(row) {
                Some(Row::Group { expanded: true, .. }) => self.refolded(row).after_move(),
                _ => match self.tree.parent(row) {
                    Some(parent) => self.with_selected(parent as usize).after_move(),
                    None => self.after_move(),
                },
            }
        }
    }
}

// ── The keys ────────────────────────────────────────────────────────────────

/// The row of the parent of `row`: the nearest group above it that is one level
/// shallower.
pub fn parent_row(state: &State, row: usize) -> (parent: Option<usize>)
    ensures
        parent is Some <==> state@.tree.parent(row as int) is Some,
        parent is Some ==> parent->0 == state@.tree.parent(row as int)->0,
        parent is Some ==> parent->0 < row,
{
    let depth: usize = match state.tree.row(row) {
        Some(r) => r.depth(),
        None => {
            return None;
        },
    };
    if depth == 0 {
        return None;
    }
    let wanted: usize = depth - 1;
    let mut above: usize = row;
    while above > 0
        invariant
            above <= row,
            state@.tree.parent(row as int) == state@.tree.group_above(row as int, wanted as int),
            state@.tree.group_above(above as int, wanted as int) == state@.tree.group_above(
                row as int,
                wanted as int,
            ),
        decreases above,
    {
        above = above - 1;
        if let Some(Row::Group { depth: d, .. }) = state.tree.row(above) {
            if d == wanted {
                return Some(above);
            }
        }
    }
    None
}

fn segment_text(state: &State, row: usize) -> (segment: Option<String>)
    ensures
        segment is Some <==> state@.group_segment(row as int) is Some,
        segment is Some ==> segment->0@ == state@.group_segment(row as int)->0,
{
    match state.tree.row(row) {
        Some(Row::Group { offset, len, .. }) => match state.keys.arena_slice(offset, len) {
            Some(bytes) => {
                let mut segment = text::lossy_text(bytes);
                segment.push(state.tree.separator());
                Some(segment)
            },
            None => None,
        },
        _ => None,
    }
}

/// The prefix that a group row stands for, such as `user:profile:` for the
/// group `profile` under `user`. It is built from the rows alone, so that it is
/// the same whether the group is collapsed or not.
pub fn group_prefix_at(state: &State, row: usize) -> (prefix: Option<String>)
    ensures
        prefix is Some <==> state@.group_prefix(row as int) is Some,
        prefix is Some ==> prefix->0@ == state@.group_prefix(row as int)->0,
{
    let mut prefix = match segment_text(state, row) {
        Some(segment) => segment,
        None => {
            return None;
        },
    };
    let mut r: usize = row;
    let mut above = parent_row(state, r);
    proof {
        assert(state@.prefix_above(r as int) is Some ==> Seq::<char>::empty() + prefix@
            =~= prefix@);
    }
    while above.is_some()
        invariant
            above is Some <==> state@.tree.parent(r as int) is Some,
            above is Some ==> above->0 == state@.tree.parent(r as int)->0,
            above is Some ==> above->0 < r,
            state@.group_prefix(row as int) == (match state@.prefix_above(r as int) {
                Some(text) => Some(text + prefix@),
                None => None::<Seq<char>>,
            }),
        decreases r,
    {
        let parent: usize = match above {
            Some(parent) => parent,
            None => {
                return None;
            },
        };
        let mut longer = match segment_text(state, parent) {
            Some(segment) => segment,
            None => {
                return None;
            },
        };
        let ghost own = longer@;
        let ghost below = prefix@;
        longer.append(prefix.as_str());
        proof {
            match state@.tree.parent(parent as int) {
                Some(grand) => match state@.group_prefix(grand) {
                    Some(text) => {
                        assert((text + own) + below =~= text + (own + below));
                    },
                    None => {},
                },
                None => {
                    assert(Seq::<char>::empty() + (own + below) =~= own + below);
                },
            }
        }
        prefix = longer;
        r = parent;
        above = parent_row(state, r);
    }
    assert(Seq::<char>::empty() + prefix@ =~= prefix@);
    Some(prefix)
}

pub fn fetch_metadata(state: &State) -> (commands: Vec<Command>)
    ensures
        Command::list(commands@) == state@.metadata_wanted(),
{
    let indices = state.rows_needing_metadata();
    if indices.len() == 0 {
        nothing()
    } else {
        only(Command::FetchMetadata { indices })
    }
}

/// Scrolling shows rows of which nothing is known yet, so every move asks for
/// what is newly on screen, and for that only.
pub fn after_move(state: State) -> (r: (State, Vec<Command>))
    ensures
        r.0@ == state@.after_move().0,
        Command::list(r.1@) == state@.after_move().1,
{
    let mut next = state;
    if let Some(open) = &mut next.open {
        if open.offset == 0 {
            open.at_rest = true;
        }
    }
    let height: usize = next.visible_rows();
    next.view = next.view.scrolled_to_selection(height);
    let commands = fetch_metadata(&next);
    (next, commands)
}

/// Moves the cursor, as far as there are rows.
pub fn move_selection(state: State, by: isize) -> (r: (State, Vec<Command>))
    ensures
        r.0@ == state@.selection_moved(by as int).0,
        Command::list(r.1@) == state@.selection_moved(by as int).1,
{
    let n: usize = state.row_count();
    if n == 0 {
        return (state, nothing());
    }
    let selected: usize = moved_by(state.view.selected, by, n);
    select(state, selected)
}

/// Moves the cursor to a row.
pub fn select(state: State, selected: usize) -> (r: (State, Vec<Command>))
    ensures
        r.0@ == state@.with_selected(selected).after_move().0,
        Command::list(r.1@) == state@.with_selected(selected).after_move().1,
{
    let mut next = state;
    next.view = Viewport { offset: next.view.offset, selected };
    after_move(next)
}

/// Lists the keys anew, and follows the cursor.
fn relist(state: State) -> (r: (State, Vec<Command>))
    ensures
        r.0@ == state@.rebuilt().after_move().0,
        Command::list(r.1@) == state@.rebuilt().after_move().1,
{
    let mut next = state;
    next.rebuild_list();
    after_move(next)
}

/// Takes a keypress while the filter captures. `Esc` gives the filter up
/// entirely, `Enter` keeps it.
pub fn filter_key(state: State, key: KeyPress) -> (r: (State, Vec<Command>))
    ensures
        r.0@ == state@.filter_key(key).0,
        Command::list(r.1@) == state@.filter_key(key).1,
{
    let mut next = state;
    match key.code {
        KeyCode::Esc => {
            next.filtering = false;
            next.list.filter_clear();
            relist(next)
        },
        KeyCode::Enter => {
            next.filtering = false;
            (next, nothing())
        },
        KeyCode::Backspace => {
            next.list.filter_pop();
            relist(next)
        },
        KeyCode::Char(c) if !key.ctrl && !key.alt => {
            next.list.filter_push(c);
            relist(next)
        },
        _ => (next, nothing()),
    }
}

/// Stages a delete of the selected key. One that is gone has nothing left to
/// delete.
pub fn delete_selected_key(state: State) -> (r: (State, Vec<Command>))
    ensures
        r.0@ == state@.key_delete_staged(),
        Command::list(r.1@) == Seq::<CommandView>::empty(),
{
    let mut next = state;
    let index: usize = match next.selected_key() {
        Some(index) => index,
        None => {
            return (next, nothing());
        },
    };
    if next.keys.is_gone(index) {
        return (next, nothing());
    }
    let name = match next.keys.name(index) {
        Some(name) => KeyName::new(name),
        None => {
            return (next, nothing());
        },
    };
    next.confirm = Some(PendingMutation::DeleteKey { index, name });
    (next, nothing())
}

/// Reads the selected key into the value pane, and moves the focus there.
pub fn read_selected(state: State, activate_cursor: bool) -> (r: (State, Vec<Command>))
    ensures
        r.0@ == state@.selected_read(activate_cursor).0,
        Command::list(r.1@) == state@.selected_read(activate_cursor).1,
{
    let mut next = state;
    let index: usize = match next.selected_key() {
        Some(index) => index,
        None => {
            return (next, nothing());
        },
    };
    let name = match next.keys.name(index) {
        Some(name) => KeyName::new(name),
        None => {
            return (next, nothing());
        },
    };
    next.focus = Pane::Value;
    let commands = start_read(&mut next, name, Some(index), activate_cursor);
    (next, commands)
}

fn refold(state: &mut State, row: usize)
    ensures
        final(state)@ == old(state)@.refolded(row as int),
{
    if let Some(prefix) = group_prefix_at(state, row) {
        state.tree.toggle(&prefix);
        state.rebuild_list();
    }
}

/// Opens the row under the cursor. It never collapses a group, and does nothing
/// while the keys drive the cursor of the value pane.
pub fn open_selected(state: State) -> (r: (State, Vec<Command>))
    ensures
        r.0@ == state@.row_opened().0,
        Command::list(r.1@) == state@.row_opened().1,
{
    if cursor_active(&state) {
        return (state, nothing());
    }
    if state.tree_mode {
        if let Some(Row::Group { expanded, .. }) = state.tree.row(state.view.selected) {
            if expanded {
                return move_selection(state, 1);
            }
            let mut next = state;
            let row: usize = next.view.selected;
            refold(&mut next, row);
            return after_move(next);
        }
    }
    read_selected(state, false)
}

/// Lists the keys in the next order. In the tree it does nothing: folding needs
/// the order of the names.
pub fn cycle_sort(state: State) -> (r: (State, Vec<Command>))
    ensures
        r.0@ == state@.sort_cycled().0,
        Command::list(r.1@) == state@.sort_cycled().1,
{
    let mut next = state;
    if next.tree_mode {
        return (next, nothing());
    }
    let sort = next.list.sort_by().next();
    next.list.set_sort(sort);
    relist(next)
}

/// Shows the tree in place of the list, or the list in place of the tree.
pub fn toggle_tree(state: State) -> (r: (State, Vec<Command>))
    ensures
        r.0@ == state@.tree_toggled().0,
        Command::list(r.1@) == state@.tree_toggled().1,
{
    let mut next = state;
    next.tree_mode = !next.tree_mode;
    next.view = Viewport { offset: 0, selected: 0 };
    relist(next)
}

/// Closes the row under the cursor. It never expands a group.
pub fn collapse_group(state: State) -> (r: (State, Vec<Command>))
    ensures
        r.0@ == state@.row_closed().0,
        Command::list(r.1@) == state@.row_closed().1,
{
    if cursor_active(&state) {
        return (state, nothing());
    }
    let mut next = state;
    if next.tree_mode {
        let row: usize = next.view.selected;
        if let Some(Row::Group { expanded: true, .. }) = next.tree.row(row) {
            refold(&mut next, row);
        } else if let Some(parent) = parent_row(&next, row) {
            return select(next, parent);
        }
    }
    after_move(next)
}

/// The cursor never leaves the list, however far it is moved.
pub proof fn the_cursor_stays_in_the_list(s: StateView, by: int)
    requires
        0 < s.row_count() <= usize::MAX,
    ensures
        s.selection_moved(by).0.view.selected < s.row_count(),
        s.selection_moved(by).0.row_count() == s.row_count(),
{
}

/// The list follows its cursor: after every move the selected row is on screen.
pub proof fn the_cursor_is_on_screen(s: StateView)
    requires
        s.visible_rows() > 0,
    ensures
        ({
            let view = s.after_move().0.view;
            view.offset <= view.selected < view.offset + s.visible_rows()
        }),
{
}

/// Sorting does nothing in the tree, so that folding never sees another order.
pub proof fn the_tree_is_not_sorted(s: StateView)
    requires
        s.tree_mode,
    ensures
        s.sort_cycled() == s.unchanged(),
        s.rebuilt().list.sort == SortBy::Name,
{
}

} // verus!
