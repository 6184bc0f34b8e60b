//! What the keys and the messages are for. Each law here says what one of them
//! does, over what the session held before it and what it holds afterwards; and
//! what is written, cut or matched along the way, over what went in.

pub mod editor;
pub mod grammar;
pub mod list;
pub mod matching;
pub mod shell;
pub mod value;
pub mod words;
pub mod writes;

use vstd::prelude::*;

use crate::command::CommandView;
use crate::input::KeyPress;
use crate::keymap::{self, Action};
use crate::layout::{Pane, TWO_PANE_COLS};
use crate::msg::Msg;
use crate::state::session::StateView;
use crate::state::tree::{self, Row};
use crate::state::view::{self, SortBy};

verus! {

/// Whether a buffer takes the keys.
pub open spec fn is_typing(s: StateView) -> bool {
    s.open is Some && s.open->0.edit is Typing
}

/// Whether nothing takes the keys before the keymap does.
pub open spec fn is_free(s: StateView) -> bool {
    s.confirm is None && !is_typing(s) && !s.filtering && s.palette is None
}

/// Whether a key means an action, and nothing else takes it.
pub open spec fn means(s: StateView, key: KeyPress, action: Action) -> bool {
    is_free(s) && keymap::lookup(s.keymap, key) == Some(action)
}

/// The session after a key.
#[verifier::opaque]
pub open spec fn after_key(s: StateView, key: KeyPress) -> StateView {
    s.updated(Msg::Key(key)).0
}

/// Whether the keys pane is drawn.
pub open spec fn keys_drawn(s: StateView) -> bool {
    s.cols >= TWO_PANE_COLS || s.focus == Pane::Keys
}

/// Whether the value pane is drawn.
pub open spec fn value_drawn(s: StateView) -> bool {
    s.cols >= TWO_PANE_COLS || s.focus == Pane::Value
}

/// Whether the keys that move drive the cursor in the value.
pub open spec fn in_the_value(s: StateView) -> bool {
    s.open is Some && s.open->0.cursor_active
}

/// The key that is drawn on a row of the keys pane.
pub open spec fn key_on(s: StateView, row: int) -> Option<usize> {
    if s.tree_mode {
        if 0 <= row < s.tree.rows.len() && s.tree.rows[row] is Key {
            Some(s.tree.rows[row]->index)
        } else {
            None
        }
    } else if 0 <= row < s.list.order.len() {
        Some(s.list.order[row])
    } else {
        None
    }
}

/// The key under the cursor of the keys pane.
pub open spec fn key_under_cursor(s: StateView) -> Option<usize> {
    key_on(s, s.view.selected as int)
}

/// Whether the cursor of the keys pane is on a group.
pub open spec fn on_a_group(s: StateView) -> bool {
    s.tree_mode && s.view.selected < s.tree.rows.len()
        && s.tree.rows[s.view.selected as int] is Group
}

/// How many rows the keys pane has to draw.
pub open spec fn rows_to_draw(s: StateView) -> nat {
    if s.tree_mode {
        s.tree.rows.len()
    } else {
        s.list.order.len()
    }
}

/// Whether the keys pane draws what it should: every key that passes the filter
/// once, in the order asked for, and in the tree folded into groups.
#[verifier::opaque]
pub open spec fn draws_the_keys(s: StateView) -> bool {
    &&& s.tree_mode ==> s.list.sort == SortBy::Name
    &&& s.list.order == view::listed(s.keys, s.list.mode, s.list.filter, s.list.sort)
    &&& s.tree.rows == (if s.tree_mode {
        tree::folded(
            s.keys,
            s.tree.separator,
            s.tree.collapsed,
            s.list.order,
            s.list.order.len() as int,
        )
    } else {
        Seq::empty()
    })
}

/// Whether row `row` of the keys pane is on screen and its key is not known but
/// by name.
pub open spec fn is_unknown_on_screen(s: StateView, row: int) -> bool {
    &&& s.view.offset <= row < s.view.offset + s.visible_rows()
    &&& key_on(s, row) is Some
    &&& !(key_on(s, row)->0 < s.keys.rows.len() && s.keys.rows[key_on(s, row)->0 as int].kind is Some)
}

/// Whether a key is on screen and not known but by name.
pub open spec fn is_an_unknown_key(s: StateView, index: usize) -> bool {
    exists|row: int| #[trigger]
        is_unknown_on_screen(s, row) && key_on(s, row) == Some(index)
}

/// Whether exactly the keys on screen that are not known are asked about.
#[verifier::opaque]
pub open spec fn asks_about_the_unknown(s: StateView, commands: Seq<CommandView>) -> bool {
    if exists|row: int| is_unknown_on_screen(s, row) {
        &&& commands.len() == 1
        &&& commands[0] is FetchMetadata
        &&& forall|row: int| #[trigger]
            is_unknown_on_screen(s, row) ==> commands[0]->indices.contains(key_on(s, row)->0)
        &&& forall|i: int|
            0 <= i < commands[0]->indices.len() ==> is_an_unknown_key(
                s,
                #[trigger] commands[0]->indices[i],
            )
    } else {
        commands.len() == 0
    }
}

/// Whether the cursor of the keys pane is on screen, where there is room for it,
/// and the pane was not scrolled without need.
pub open spec fn is_scrolled_to_the_cursor(s: StateView, after: StateView) -> bool {
    s.visible_rows() > 0 ==> {
        &&& after.view.offset <= after.view.selected < after.view.offset + s.visible_rows()
        &&& s.view.offset <= after.view.selected < s.view.offset + s.visible_rows()
            ==> after.view.offset == s.view.offset
        &&& after.view.selected < s.view.offset ==> after.view.offset == after.view.selected
        &&& after.view.selected >= s.view.offset + s.visible_rows() ==> after.view.offset
            == after.view.selected - s.visible_rows() + 1
    }
}

/// Whether a key is drawn in the keys pane.
pub open spec fn is_drawn(s: StateView, index: usize) -> bool {
    exists|row: int| 0 <= row < rows_to_draw(s) && #[trigger] key_on(s, row) == Some(index)
}

/// Whether the cursor of the keys pane stayed on its key, where that is still
/// drawn; it is at the top where it is not, and on the same row, as far as there
/// is one, where it was on no key.
#[verifier::opaque]
pub open spec fn cursor_stays_on_its_key(s: StateView, after: StateView) -> bool {
    rows_to_draw(after) <= usize::MAX ==> match key_under_cursor(s) {
        Some(index) => if is_drawn(after, index) {
            key_under_cursor(after) == Some(index)
        } else {
            after.view.selected == 0
        },
        None => if s.view.selected < rows_to_draw(after) {
            after.view.selected == s.view.selected
        } else if rows_to_draw(after) > 0 {
            after.view.selected == rows_to_draw(after) - 1
        } else {
            after.view.selected == 0
        },
    }
}

/// Whether the Open key knows the row it is drawn on, and that it is on none.
#[verifier::opaque]
pub open spec fn open_key_knows_its_row(s: StateView) -> bool {
    s.open is Some && rows_to_draw(s) <= usize::MAX ==> match s.open->0.row {
        Some(row) => s.open->0.index is Some && key_on(s, row as int) == s.open->0.index,
        None => s.open->0.index is Some ==> !is_drawn(s, s.open->0.index->0),
    }
}

/// Whether nothing changed but what is drawn in the keys pane and where the
/// reader is in it. The value pane is at rest again unless it is scrolled, and
/// the Open key knows its row.
pub open spec fn only_the_list_moved(s: StateView, after: StateView) -> bool {
    &&& after == (StateView {
        list: after.list,
        tree: after.tree,
        view: after.view,
        open: after.open,
        ..s
    })
    &&& only_the_place_changed(s, after)
}

/// Whether the Open key is as it was, but for its row and for being at rest.
pub open spec fn only_the_place_changed(s: StateView, after: StateView) -> bool {
    match (s.open, after.open) {
        (Some(a), Some(b)) => b == (crate::state::open::OpenView {
            row: b.row,
            at_rest: a.at_rest || a.offset == 0,
            ..a
        }),
        (None, None) => true,
        _ => false,
    }
}

/// Whether a row of the tree is a group of this depth.
pub open spec fn is_group_at(rows: Seq<Row>, row: int, depth: int) -> bool {
    0 <= row < rows.len() && rows[row] is Group && rows[row].level() == depth
}

} // verus!
