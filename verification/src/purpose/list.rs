//! The keys pane: moving in it, filtering, sorting and folding it, and opening
//! or deleting what the cursor is on.

use vstd::prelude::*;

use crate::command::{CommandView, ReadToken};
use crate::input::KeyPress;
use crate::keymap::Action;
use crate::layout::Pane;
use crate::msg::Msg;
use crate::purpose;
use crate::state::loaded::{KeyKind, LoadedView};
use crate::state::open::OpenView;
use crate::state::pending::PendingView;
use crate::state::session::{self, StateView};
use crate::state::status::{LinkView, PendingReadView, Tracking, Viewport};
use crate::state::tree::TreeModel;
use crate::state::view::{self, ListModel, SortBy};
use crate::text;
use crate::update::Outcome;

verus! {

// ── What is asked for, and what is drawn ────────────────────────────────────

/// Whether a key of which only the name is known is on one of these rows.
pub open spec fn is_bare_among(s: StateView, from: int, to: int, index: usize) -> bool {
    s.keys.kind(index as int) is None && exists|row: int|
        from <= row < to && #[trigger] purpose::key_on(s, row) == Some(index)
}

proof fn bare_keys_are_the_unknown(s: StateView, from: int, to: int, index: usize)
    requires
        0 <= from,
    ensures
        s.bare_keys(from, to).contains(index) <==> is_bare_among(s, from, to, index),
    decreases to - from,
{
    if from < to {
        bare_keys_are_the_unknown(s, from, to - 1, index);
        let before = s.bare_keys(from, to - 1);
        let bare = s.bare_keys(from, to);
        assert(s.key_at(to - 1) == purpose::key_on(s, to - 1));
        if before.contains(index) {
            let k = choose|k: int| 0 <= k < before.len() && before[k] == index;
            assert(bare[k] == index);
        }
        if bare.contains(index) && !before.contains(index) {
            let k = choose|k: int| 0 <= k < bare.len() && bare[k] == index;
            assert(k == bare.len() - 1 && bare.len() == before.len() + 1) by {
                if k < before.len() {
                    assert(before[k] == index);
                }
            }
            assert(purpose::key_on(s, to - 1) == Some(index));
        }
        if is_bare_among(s, from, to, index) && !before.contains(index) {
            assert(bare[bare.len() - 1] == index);
        }
        if is_bare_among(s, from, to - 1, index) {
            let row = choose|row: int|
                from <= row < to - 1 && #[trigger] purpose::key_on(s, row) == Some(index);
            assert(from <= row < to && purpose::key_on(s, row) == Some(index));
        }
    }
}

/// What a move asks the server is about the keys on screen that are not known.
pub proof fn what_is_asked_is_on_screen(s: StateView)
    ensures
        purpose::asks_about_the_unknown(s, s.metadata_wanted()),
{
    reveal(purpose::asks_about_the_unknown);
    let from = s.view.offset as int;
    let to = s.bottom();
    let bare = s.needing_metadata();
    assert forall|row: int| #[trigger] purpose::is_unknown_on_screen(s, row) implies bare.contains(
        purpose::key_on(s, row)->0,
    ) by {
        assert(row < purpose::rows_to_draw(s));
        assert(from <= row < to);
        bare_keys_are_the_unknown(s, from, to, purpose::key_on(s, row)->0);
    }
    assert forall|i: int| 0 <= i < bare.len() implies purpose::is_an_unknown_key(
        s,
        #[trigger] bare[i],
    ) by {
        bare_keys_are_the_unknown(s, from, to, bare[i]);
        assert(bare.contains(bare[i]));
        let row = choose|row: int|
            from <= row < to && #[trigger] purpose::key_on(s, row) == Some(bare[i]);
        assert(purpose::is_unknown_on_screen(s, row));
    }
    if bare.len() > 0 {
        assert(purpose::is_an_unknown_key(s, bare[0]));
    }
}

/// What every move in the list comes to.
proof fn a_move_ends_well(s: StateView)
    ensures
        ({
            let (after, commands) = s.after_move();
            &&& after == (StateView { view: after.view, open: after.open, ..s })
            &&& after.view.selected == s.view.selected
            &&& purpose::only_the_place_changed(s, after)
            &&& purpose::is_scrolled_to_the_cursor(s, after)
            &&& purpose::asks_about_the_unknown(after, commands)
            &&& purpose::draws_the_keys(s) ==> purpose::draws_the_keys(after)
        }),
{
    what_is_asked_is_on_screen(s.after_move().0);
    reveal(purpose::draws_the_keys);
}

/// Whether the keys are listed anew: what is drawn is what should be, under the
/// filter, the order and the folds that there are, and nothing else changed.
pub open spec fn is_listed_anew(s: StateView, outcome: Outcome) -> bool {
    let (after, commands) = outcome;
    &&& purpose::only_the_list_moved(s, after)
    &&& purpose::draws_the_keys(after)
    &&& purpose::asks_about_the_unknown(after, commands)
    &&& after.list.filter == s.list.filter
    &&& after.list.mode == s.list.mode
    &&& !s.tree_mode ==> after.list.sort == s.list.sort
    &&& after.tree.separator == s.tree.separator
    &&& after.tree.collapsed == s.tree.collapsed
    &&& purpose::cursor_stays_on_its_key(s, after)
    &&& purpose::open_key_knows_its_row(after)
    &&& purpose::is_scrolled_to_the_cursor(s, after)
}

/// What listing the keys anew comes to.
proof fn a_new_list_ends_well(s: StateView)
    ensures
        is_listed_anew(s, s.rebuilt().after_move()),
{
    let after = s.rebuilt();
    assert(purpose::draws_the_keys(after)) by {
        reveal(purpose::draws_the_keys);
    }
    a_move_ends_well(after);
    a_new_list_is_found_in(s);
    a_move_keeps_the_rows(s, after);
}

/// In a list made anew the cursor and the Open key are where they should be.
pub proof fn a_new_list_is_found_in(s: StateView)
    ensures
        purpose::cursor_stays_on_its_key(s, s.rebuilt()),
        purpose::open_key_knows_its_row(s.rebuilt()),
{
    reveal(purpose::cursor_stays_on_its_key);
    let after = s.rebuilt();
    let fresh = s.relisted();
    rows_are_found(fresh.with_selected(fresh.reselected(s.selected_key())));
    assert forall|row: int| #[trigger] purpose::key_on(after, row) == fresh.key_at(row) by {}
    assert(fresh.row_count() == purpose::rows_to_draw(after));
    assert(s.selected_key() == purpose::key_under_cursor(s));
    if fresh.row_count() <= usize::MAX {
        if s.selected_key() is Some {
            let index = s.selected_key()->0;
            session::a_key_is_found_on_its_row(fresh, index);
            if purpose::is_drawn(after, index) {
                let row = choose|row: int|
                    0 <= row < purpose::rows_to_draw(after) && #[trigger] purpose::key_on(
                        after,
                        row,
                    ) == Some(index);
                assert(fresh.key_at(row) == Some(index));
            }
        }
    }
}

/// An Open key that was told its row knows it.
pub proof fn rows_are_found(s: StateView)
    ensures
        purpose::open_key_knows_its_row(s.relocated()),
{
    reveal(purpose::open_key_knows_its_row);
    let after = s.relocated();
    assert forall|row: int| #[trigger] purpose::key_on(after, row) == s.key_at(row) by {}
    if s.open is Some && s.row_count() <= usize::MAX && s.open->0.index is Some {
        session::a_key_is_found_on_its_row(s, s.open->0.index->0);
    }
}

/// Moving changes no row.
proof fn a_move_keeps_the_rows(s: StateView, listed: StateView)
    ensures
        ({
            let after = listed.after_move().0;
            &&& purpose::cursor_stays_on_its_key(s, listed)
                ==> purpose::cursor_stays_on_its_key(s, after)
            &&& purpose::open_key_knows_its_row(listed) ==> purpose::open_key_knows_its_row(after)
        }),
{
    reveal(purpose::cursor_stays_on_its_key);
    reveal(purpose::open_key_knows_its_row);
    let after = listed.after_move().0;
    assert forall|row: int| #[trigger] purpose::key_on(after, row) == purpose::key_on(
        listed,
        row,
    ) by {}
    assert forall|index: usize| #[trigger] purpose::is_drawn(after, index) == purpose::is_drawn(
        listed,
        index,
    ) by {
        if purpose::is_drawn(listed, index) {
            let row = choose|row: int|
                0 <= row < purpose::rows_to_draw(listed) && #[trigger] purpose::key_on(
                    listed,
                    row,
                ) == Some(index);
            assert(purpose::key_on(after, row) == Some(index));
        }
    }
}

/// The list holds each key once, and only keys that are loaded.
pub proof fn no_key_is_listed_twice(s: StateView, i: int, j: int)
    requires
        purpose::draws_the_keys(s),
        s.keys.rows.len() <= usize::MAX,
        0 <= i < j < s.list.order.len(),
    ensures
        s.list.order[i] != s.list.order[j],
{
    reveal(purpose::draws_the_keys);
    view::no_key_is_listed_twice(s.keys, s.list.mode, s.list.filter, s.list.sort, i, j);
}

// ── Moving ──────────────────────────────────────────────────────────────────

/// `v` where it lies between nothing and `most`, and otherwise the nearer of the
/// two.
pub open spec fn within(v: int, most: int) -> int {
    if v < 0 {
        0
    } else if v > most {
        most
    } else {
        v
    }
}

/// A key that moves, where it drives the list, puts the cursor so many rows on
/// or back, or at either end, and never past the rows there are. Nothing else
/// changes but what follows the cursor, and the server is asked about what comes
/// into sight.
pub proof fn moving_goes_by_rows(s: StateView, key: KeyPress, action: Action)
    requires
        purpose::means(s, key, action),
        purpose::keys_drawn(s),
        !purpose::in_the_value(s),
        purpose::rows_to_draw(s) <= usize::MAX,
    ensures
        ({
            let (after, commands) = s.updated(Msg::Key(key));
            let from = s.view.selected as int;
            let last = purpose::rows_to_draw(s) - 1;
            let page = s.visible_rows() as int;
            &&& action is MoveDown && last >= 0 ==> after.view.selected == within(from + 1, last)
            &&& action is MoveUp && last >= 0 ==> after.view.selected == within(from - 1, last)
            &&& action is PageDown && last >= 0 ==> after.view.selected == within(from + page, last)
            &&& action is PageUp && last >= 0 ==> after.view.selected == within(from - page, last)
            &&& action is Top ==> after.view.selected == 0
            &&& action is Bottom ==> after.view.selected == (if last >= 0 {
                last
            } else {
                0
            })
            &&& is_move(action) && last >= 0 ==> {
                &&& purpose::only_the_list_moved(s, after)
                &&& after.list == s.list
                &&& after.tree == s.tree
                &&& purpose::is_scrolled_to_the_cursor(s, after)
                &&& purpose::asks_about_the_unknown(after, commands)
            }
            &&& is_move(action) && last < 0 ==> commands.len() == 0 && (action is Top
                || action is Bottom || after == s)
        }),
{
    let (after, commands) = s.updated(Msg::Key(key));
    if is_move(action) && purpose::rows_to_draw(s) > 0 {
        a_move_ends_well(s.with_selected(after.view.selected));
        assert(s.updated(Msg::Key(key)) == s.with_selected(after.view.selected).after_move());
    } else if is_move(action) {
        a_move_ends_well(s.with_selected(0));
    }
}

pub open spec fn is_move(action: Action) -> bool {
    action is MoveDown || action is MoveUp || action is PageDown || action is PageUp
        || action is Top || action is Bottom
}

// ── Opening and deleting what the cursor is on ──────────────────────────────

/// Deleting in the keys pane stages the removal of the key under the cursor, by
/// its own index and its own name, and nothing else. A row without a key, and a
/// key that is gone, stage nothing.
pub proof fn deleting_stages_the_key_under_the_cursor(s: StateView, key: KeyPress)
    requires
        purpose::means(s, key, Action::Delete),
        s.focus == Pane::Keys,
    ensures
        ({
            let (after, commands) = s.updated(Msg::Key(key));
            let found = purpose::key_under_cursor(s);
            let there = found is Some && s.keys.name(found->0 as int) is Some
                && !s.keys.rows[found->0 as int].gone;
            &&& commands.len() == 0
            &&& there ==> after.confirm == Some(
                PendingView::DeleteKey {
                    index: found->0,
                    name: s.keys.name(found->0 as int)->0,
                },
            )
            &&& !there ==> after.confirm is None
            &&& after == (StateView { confirm: after.confirm, ..s })
        }),
{
}

/// Whether a key is asked for: one read, of this key in this place, which is
/// waited for from then on.
pub open spec fn asks_for(
    s: StateView,
    after: StateView,
    commands: Seq<CommandView>,
    name: Seq<u8>,
    index: Option<usize>,
    activate_cursor: bool,
) -> bool {
    let token = after.read_token;
    &&& token == next_token(s.read_token)
    &&& commands == seq![
        CommandView::ReadKey { key: name, index, token, arm: can_track(s.link) },
    ]
    &&& after.open_pending == Some(
        PendingReadView {
            name,
            token,
            index,
            issued_at_ms: None,
            activate_cursor,
            own_write: false,
        },
    )
}

/// Whether the server can be asked to tell of changes.
pub open spec fn can_track(link: LinkView) -> bool {
    match link {
        LinkView::Up { tracking, .. } => tracking != Tracking::Unsupported,
        _ => false,
    }
}

/// The number behind a number, which comes round.
pub open spec fn next_token(token: ReadToken) -> ReadToken {
    if token.number == u64::MAX {
        ReadToken { number: 0 }
    } else {
        ReadToken { number: (token.number + 1) as u64 }
    }
}

/// Opening a row with a key reads that key, by its own index and its own name,
/// and moves the focus to the value pane. What is on screen stays until the
/// answer comes.
pub proof fn opening_reads_the_key_under_the_cursor(s: StateView, key: KeyPress)
    requires
        purpose::means(s, key, Action::Open),
        purpose::keys_drawn(s),
        !purpose::in_the_value(s),
        purpose::key_under_cursor(s) is Some,
        s.keys.name(purpose::key_under_cursor(s)->0 as int) is Some,
    ensures
        ({
            let (after, commands) = s.updated(Msg::Key(key));
            let index = purpose::key_under_cursor(s)->0;
            &&& asks_for(
                s,
                after,
                commands,
                s.keys.name(index as int)->0,
                Some(index),
                false,
            )
            &&& after == (StateView {
                focus: Pane::Value,
                read_token: after.read_token,
                open_pending: after.open_pending,
                ..s
            })
        }),
{
}

/// While the keys drive the cursor in the value, opening and closing rows is not
/// what they are for; and where there is no row there is nothing to open.
pub proof fn there_is_nothing_to_open_elsewhere(s: StateView, key: KeyPress, action: Action)
    requires
        purpose::means(s, key, action),
        action is Open || action is CollapseGroup,
        purpose::in_the_value(s) || (action is Open && !purpose::on_a_group(s)
            && purpose::key_under_cursor(s) is None),
    ensures
        s.updated(Msg::Key(key)).0 == s,
        s.updated(Msg::Key(key)).1.len() == 0,
{
}

/// Going into the value of the key under the cursor: if it is the Open key and
/// has a value, the cursor of the value pane takes the keys; any other key is
/// read first, and the cursor follows when the value comes.
pub proof fn entering_goes_to_the_key_under_the_cursor(s: StateView, key: KeyPress)
    requires
        purpose::means(s, key, Action::EnterValueCursor),
        purpose::keys_drawn(s),
        purpose::key_under_cursor(s) is Some,
        s.keys.name(purpose::key_under_cursor(s)->0 as int) is Some,
    ensures
        ({
            let (after, commands) = s.updated(Msg::Key(key));
            let index = purpose::key_under_cursor(s)->0;
            if s.open is Some && s.open->0.row == Some(s.view.selected) {
                &&& commands.len() == 0
                &&& s.open->0.value is None ==> after == s
                &&& s.open->0.value is Some ==> after == (StateView {
                    focus: Pane::Value,
                    open: Some(OpenView { cursor_active: true, ..s.open->0 }),
                    ..s
                })
            } else {
                &&& asks_for(
                    s,
                    after,
                    commands,
                    s.keys.name(index as int)->0,
                    Some(index),
                    true,
                )
                &&& after == (StateView {
                    focus: Pane::Value,
                    read_token: after.read_token,
                    open_pending: after.open_pending,
                    ..s
                })
            }
        }),
{
}

/// A group has no value to go into.
pub proof fn a_group_has_no_value(s: StateView, key: KeyPress)
    requires
        purpose::means(s, key, Action::EnterValueCursor),
        purpose::key_under_cursor(s) is None,
    ensures
        s.updated(Msg::Key(key)).0 == s,
        s.updated(Msg::Key(key)).1.len() == 0,
{
}

// ── The tree ────────────────────────────────────────────────────────────────

/// The key for the tree shows it in place of the list, and the list in place of
/// the tree, and what is then drawn is what that view asks for: from the tree to
/// the list and back. The filter stays, and so does what is collapsed.
pub proof fn the_tree_and_the_list_take_turns(s: StateView, key: KeyPress)
    requires
        purpose::means(s, key, Action::ToggleTree),
        s.focus == Pane::Keys,
    ensures
        ({
            let (after, commands) = s.updated(Msg::Key(key));
            &&& is_listed_anew(
                StateView {
                    tree_mode: !s.tree_mode,
                    view: Viewport { offset: 0, selected: 0 },
                    ..s
                },
                (after, commands),
            )
            &&& !s.tree_mode && s.tree.rows.len() == 0 ==> after.view.selected == 0
        }),
{
    let turned = StateView {
        tree_mode: !s.tree_mode,
        view: Viewport { offset: 0, selected: 0 },
        ..s
    };
    a_new_list_ends_well(turned);
}

/// Opening a group never collapses it. A collapsed one is no longer counted as
/// collapsed, and an expanded one is stepped into.
pub proof fn opening_a_group_unfolds_it(s: StateView, key: KeyPress)
    requires
        purpose::means(s, key, Action::Open),
        purpose::keys_drawn(s),
        !purpose::in_the_value(s),
        purpose::on_a_group(s),
        s.tree.rows.len() <= usize::MAX,
    ensures
        ({
            let (after, commands) = s.updated(Msg::Key(key));
            let row = s.view.selected as int;
            let prefix = s.group_prefix(row);
            &&& purpose::only_the_list_moved(s, after)
            &&& purpose::asks_about_the_unknown(after, commands)
            &&& s.tree.rows[row]->expanded ==> {
                &&& after.list == s.list
                &&& after.tree == s.tree
                &&& after.view.selected == within(row + 1, s.tree.rows.len() - 1)
            }
            &&& !(s.tree.rows[row]->expanded) && prefix is Some && s.tree.collapsed.contains(
                prefix->0,
            ) ==> {
                is_listed_anew(
                    StateView {
                        tree: TreeModel {
                            collapsed: s.tree.collapsed.remove(prefix->0),
                            ..s.tree
                        },
                        ..s
                    },
                    (after, commands),
                )
            }
        }),
{
    let row = s.view.selected as int;
    if s.tree.rows[row]->expanded {
        let to = within(row + 1, s.tree.rows.len() - 1) as usize;
        a_move_ends_well(s.with_selected(to));
        assert(s.updated(Msg::Key(key)) == s.with_selected(to).after_move());
    } else {
        match s.group_prefix(row) {
            Some(prefix) => {
                let toggled = StateView { tree: s.tree.toggled(prefix), ..s };
                a_new_list_ends_well(toggled);
            },
            None => a_move_ends_well(s),
        }
    }
}

/// Closing an expanded group counts its prefix as collapsed, and no other. From
/// any other row the cursor goes up to the group that the row stands under: the
/// nearest above it that is one level shallower. At the top there is none, and
/// it stays.
pub proof fn closing_folds_or_goes_up(s: StateView, key: KeyPress)
    requires
        purpose::means(s, key, Action::CollapseGroup),
        purpose::keys_drawn(s),
        !purpose::in_the_value(s),
        s.tree_mode,
        s.view.selected < s.tree.rows.len(),
    ensures
        ({
            let (after, commands) = s.updated(Msg::Key(key));
            let row = s.view.selected as int;
            let at = s.tree.rows[row];
            let prefix = s.group_prefix(row);
            let up = after.view.selected as int;
            &&& purpose::only_the_list_moved(s, after)
            &&& purpose::asks_about_the_unknown(after, commands)
            &&& at is Group && at->expanded && prefix is Some && !s.tree.collapsed.contains(
                prefix->0,
            ) ==> {
                is_listed_anew(
                    StateView {
                        tree: TreeModel {
                            collapsed: s.tree.collapsed.insert(prefix->0),
                            ..s.tree
                        },
                        ..s
                    },
                    (after, commands),
                )
            }
            &&& !(at is Group && at->expanded) ==> {
                &&& after.list == s.list
                &&& after.tree == s.tree
                &&& up == row || {
                    &&& 0 <= up < row
                    &&& purpose::is_group_at(s.tree.rows, up, at.level() - 1)
                    &&& forall|q: int|
                        up < q < row ==> !#[trigger] purpose::is_group_at(s.tree.rows, q, at.level() - 1)
                }
                &&& up == row ==> forall|q: int|
                    0 <= q < row ==> !#[trigger] purpose::is_group_at(s.tree.rows, q, at.level() - 1)
            }
        }),
{
    let row = s.view.selected as int;
    let at = s.tree.rows[row];
    if at is Group && at->expanded {
        match s.group_prefix(row) {
            Some(prefix) => {
                let toggled = StateView { tree: s.tree.toggled(prefix), ..s };
                a_new_list_ends_well(toggled);
            },
            None => a_move_ends_well(s),
        }
    } else {
        if at.level() > 0 {
            the_nearest_group(s, row, at.level() - 1);
        }
        match s.tree.parent(row) {
            Some(parent) => a_move_ends_well(s.with_selected(parent as usize)),
            None => a_move_ends_well(s),
        }
    }
}

proof fn the_nearest_group(s: StateView, row: int, depth: int)
    requires
        0 <= row <= s.tree.rows.len(),
    ensures
        match s.tree.group_above(row, depth) {
            Some(g) => 0 <= g < row && purpose::is_group_at(s.tree.rows, g, depth) && forall|q: int|
                g < q < row ==> !#[trigger] purpose::is_group_at(s.tree.rows, q, depth),
            None => forall|q: int|
                0 <= q < row ==> !#[trigger] purpose::is_group_at(s.tree.rows, q, depth),
        },
    decreases row,
{
    if row > 0 {
        assert(s.tree.is_group(row - 1, depth) == purpose::is_group_at(s.tree.rows, row - 1, depth));
        the_nearest_group(s, row - 1, depth);
    }
}

// ── The filter and the order ────────────────────────────────────────────────

/// The key for the filter lets it take the keys, and changes nothing yet.
pub proof fn the_filter_begins_where_it_was(s: StateView, key: KeyPress)
    requires
        purpose::means(s, key, Action::Filter),
        purpose::keys_drawn(s),
    ensures
        s.updated(Msg::Key(key)).0 == (StateView { filtering: true, ..s }),
        s.updated(Msg::Key(key)).1.len() == 0,
{
}

/// While the filter takes the keys, what is typed goes behind it, `Backspace`
/// takes its last character off, and what passes it is listed. It goes on taking
/// the keys.
pub proof fn typing_narrows_the_list(s: StateView, key: KeyPress)
    requires
        s.confirm is None,
        !purpose::is_typing(s),
        s.filtering,
        key.code is Backspace || (key.code is Char && !key.ctrl && !key.alt),
    ensures
        ({
            let (after, commands) = s.updated(Msg::Key(key));
            let old = s.list.filter;
            let new = if key.code is Char {
                old.push(key.code->Char_0)
            } else if old.len() > 0 {
                old.take(old.len() - 1)
            } else {
                old
            };
            is_listed_anew(
                StateView { list: ListModel { filter: new, ..s.list }, ..s },
                (after, commands),
            )
        }),
{
    if key.code is Char {
        let filter = s.list.filter.push(key.code->Char_0);
        a_new_list_ends_well(StateView { list: ListModel { filter, ..s.list }, ..s });
    } else {
        let filter = text::without_last(s.list.filter);
        if s.list.filter.len() > 0 {
            assert(filter =~= s.list.filter.take(s.list.filter.len() - 1));
        }
        a_new_list_ends_well(StateView { list: ListModel { filter, ..s.list }, ..s });
    }
}

/// `Enter` while the filter takes the keys stops it, and keeps the filter and
/// everything that is listed as they are.
pub proof fn enter_keeps_the_filter(s: StateView, key: KeyPress)
    requires
        s.confirm is None,
        !purpose::is_typing(s),
        s.filtering,
        key.code is Enter,
    ensures
        ({
            let (after, commands) = s.updated(Msg::Key(key));
            &&& !after.filtering
            &&& after.list == s.list
            &&& after.tree == s.tree
            &&& after.view == s.view
            &&& after == (StateView { filtering: false, ..s })
            &&& commands.len() == 0
        }),
{
}

/// `Esc` while the filter takes the keys stops it, clears it, and lists every
/// key again.
pub proof fn esc_clears_the_filter(s: StateView, key: KeyPress)
    requires
        s.confirm is None,
        !purpose::is_typing(s),
        s.filtering,
        key.code is Esc,
    ensures
        ({
            let (after, commands) = s.updated(Msg::Key(key));
            is_listed_anew(
                StateView {
                    filtering: false,
                    list: ListModel { filter: Seq::empty(), ..s.list },
                    ..s
                },
                (after, commands),
            )
        }),
{
    a_new_list_ends_well(
        StateView {
            filtering: false,
            list: ListModel { filter: Seq::empty(), ..s.list },
            ..s
        },
    );
}

/// A key that types nothing means nothing to the filter.
pub proof fn other_keys_leave_the_filter_alone(s: StateView, key: KeyPress)
    requires
        s.confirm is None,
        !purpose::is_typing(s),
        s.filtering,
        !(key.code is Esc) && !(key.code is Enter) && !(key.code is Backspace),
        key.code is Char ==> key.ctrl || key.alt,
    ensures
        s.updated(Msg::Key(key)).0 == s,
        s.updated(Msg::Key(key)).1.len() == 0,
{
}

/// What the list shows, by name: a key is in it exactly if it is loaded and
/// passes the filter; and without a filter every loaded key is.
pub proof fn what_is_drawn_passes_the_filter(s: StateView, index: usize)
    requires
        purpose::draws_the_keys(s),
        s.keys.rows.len() <= usize::MAX,
    ensures
        s.list.order.contains(index) <==> index < s.keys.rows.len() && view::passes(
            s.list.mode,
            vstd::utf8::encode_utf8(s.list.filter),
            view::name_or_empty(s.keys, index as int),
        ),
        s.list.filter.len() == 0 ==> (s.list.order.contains(index) <==> index
            < s.keys.rows.len()),
{
    reveal(purpose::draws_the_keys);
    view::a_key_is_listed_exactly_if_it_passes(
        s.keys,
        s.list.mode,
        s.list.filter,
        s.list.sort,
        index,
    );
    if s.list.filter.len() == 0 {
        assert(s.list.filter =~= Seq::empty());
        assert(vstd::utf8::encode_utf8(s.list.filter) =~= Seq::<u8>::empty());
        view::an_empty_filter_passes_everything(
            s.list.mode,
            view::name_or_empty(s.keys, index as int),
        );
    }
}

/// A paste while the filter takes the keys goes behind it, on one line; and
/// where nothing takes it, it does nothing.
pub proof fn a_paste_goes_behind_the_filter(s: StateView, pasted: String)
    requires
        !purpose::is_typing(s),
    ensures
        ({
            let (after, commands) = s.updated(Msg::Paste(pasted));
            &&& !s.filtering ==> after == s && commands.len() == 0
            &&& s.filtering ==> is_listed_anew(
                StateView {
                    list: ListModel {
                        filter: s.list.filter + text::one_line(pasted@),
                        ..s.list
                    },
                    ..s
                },
                (after, commands),
            )
        }),
{
    let next = StateView {
        list: s.list.filtered_by(s.list.filter + text::one_line(pasted@)),
        ..s
    };
    a_new_list_ends_well(next);
}

/// The key for the order lists the same keys by the next one; in the tree, which
/// has one order, it does nothing. The filter and the key under the cursor stay.
pub proof fn sorting_goes_round(s: StateView, key: KeyPress)
    requires
        purpose::means(s, key, Action::Sort),
        purpose::keys_drawn(s),
    ensures
        ({
            let (after, commands) = s.updated(Msg::Key(key));
            &&& s.tree_mode ==> after == s && commands.len() == 0
            &&& !s.tree_mode ==> is_listed_anew(
                StateView {
                    list: ListModel { sort: next_order(s.list.sort), ..s.list },
                    ..s
                },
                (after, commands),
            )
        }),
{
    if !s.tree_mode {
        let next = StateView { list: s.list.sorted_by(s.list.sort.after()), ..s };
        a_new_list_ends_well(next);
    }
}

/// The orders, one behind the other: as loaded, by name, by time to live, by
/// size, by type.
pub open spec fn next_order(sort: SortBy) -> SortBy {
    if sort == SortBy::Scan {
        SortBy::Name
    } else if sort == SortBy::Name {
        SortBy::Ttl
    } else if sort == SortBy::Ttl {
        SortBy::Size
    } else if sort == SortBy::Size {
        SortBy::Kind
    } else {
        SortBy::Scan
    }
}

/// On a terminal that shows only the value, the keys of the list do nothing.
pub proof fn a_list_that_is_not_drawn_takes_no_key(s: StateView, key: KeyPress, action: Action)
    requires
        purpose::means(s, key, action),
        !purpose::keys_drawn(s),
        action is Filter || action is Sort || action is Open || action is CollapseGroup
            || action is EnterValueCursor || (is_move(action) && !purpose::in_the_value(s)),
    ensures
        s.updated(Msg::Key(key)).0 == s,
        s.updated(Msg::Key(key)).1.len() == 0,
{
}

/// What is told of a key is read back of that key, and of no other: its type
/// makes it be there, and that it is gone takes the type away.
pub proof fn what_is_told_of_a_key_is_read_back(
    keys: LoadedView,
    i: int,
    j: int,
    kind: KeyKind,
    ttl: i32,
    at_s: u32,
    size: u32,
)
    requires
        0 <= i < keys.rows.len(),
        0 <= j < keys.rows.len(),
        i != j,
    ensures
        keys.with_kind(i, kind).kind(i) == Some(kind),
        !keys.with_kind(i, kind).gone(i),
        keys.with_kind(i, kind).rows[i].ttl == keys.rows[i].ttl,
        keys.with_kind(i, kind).rows[i].size == keys.rows[i].size,
        keys.with_ttl(i, ttl, at_s).rows[i].ttl == Some(ttl),
        keys.with_ttl(i, ttl, at_s).rows[i].ttl_read_at_s == at_s,
        keys.with_ttl(i, ttl, at_s).kind(i) == keys.kind(i),
        keys.with_size(i, size).rows[i].size == Some(size),
        keys.with_size(i, size).kind(i) == keys.kind(i),
        keys.with_gone(i).gone(i),
        keys.with_gone(i).kind(i) is None,
        keys.with_gone(i).name(i) == keys.name(i),
        keys.with_kind(i, kind).rows[j] == keys.rows[j],
        keys.with_ttl(i, ttl, at_s).rows[j] == keys.rows[j],
        keys.with_size(i, size).rows[j] == keys.rows[j],
        keys.with_gone(i).rows[j] == keys.rows[j],
{
}

} // verus!
