//! The value pane: its cursor, the panes themselves, what a copy takes, and what
//! the answers of the server put on screen.

use vstd::prelude::*;

use crate::command::CommandView;
use crate::input::{KeyPress, MouseAction};
use crate::keymap::Action;
use crate::layout::{Pane, TWO_PANE_COLS};
use crate::msg::Msg;
use crate::purpose::{self, list};
use crate::state::copy;
use crate::state::loaded::KeyRow;
use crate::state::open::{HeldView, OpenView, PhaseView, ReadOutcome};
use crate::state::pending::PendingView;
use crate::state::session::StateView;
use crate::state::status::ReadOnlyReason;
use crate::state::value::ValueView;
use crate::text;

verus! {

// ── The cursor in the value ─────────────────────────────────────────────────

/// Where a key that moves puts the cursor in a value.
pub open spec fn cursor_after(action: Action, from: int, rows: nat) -> int {
    let last = rows - 1;
    if rows == 0 {
        0
    } else if action is MoveDown {
        list::within(from + 1, last)
    } else if action is MoveUp {
        list::within(from - 1, last)
    } else if action is PageDown {
        list::within(from + 20, last)
    } else if action is PageUp {
        list::within(from - 20, last)
    } else if action is Top {
        0
    } else {
        last
    }
}

/// A key that moves, where it drives the value, puts its cursor so many rows on
/// or back, or at either end, and never past the rows there are; a page is twenty
/// rows. The list is not touched, nor the value; away from its first row, what
/// comes next waits until it is asked for.
pub proof fn moving_in_the_value_goes_by_rows(s: StateView, key: KeyPress, action: Action)
    requires
        purpose::means(s, key, action),
        list::is_move(action),
        purpose::in_the_value(s),
        purpose::value_drawn(s),
        s.open->0.value is Some,
        s.open->0.value->0.rows() <= usize::MAX,
    ensures
        ({
            let (after, commands) = s.updated(Msg::Key(key));
            let open = s.open->0;
            let to = cursor_after(action, open.cursor as int, open.value->0.rows());
            &&& commands.len() == 0
            &&& after.open is Some
            &&& after.open->0.cursor == to
            &&& after.open->0 == (OpenView {
                cursor: after.open->0.cursor,
                offset: after.open->0.offset,
                at_rest: open.at_rest && to == 0,
                ..open
            })
            &&& after.open->0.offset <= to < after.open->0.offset + 20
            &&& open.offset <= to < open.offset + 20 ==> after.open->0.offset == open.offset
            &&& to < open.offset ==> after.open->0.offset == to
            &&& to >= open.offset + 20 ==> after.open->0.offset == to - 19
            &&& after == (StateView { open: after.open, ..s })
        }),
{
}

/// With no value on screen there is nothing to move in.
pub proof fn moving_in_no_value_does_nothing(s: StateView, key: KeyPress, action: Action)
    requires
        purpose::means(s, key, action),
        list::is_move(action),
        purpose::in_the_value(s),
        s.open->0.value is None || !purpose::value_drawn(s),
    ensures
        s.updated(Msg::Key(key)).0 == s,
        s.updated(Msg::Key(key)).1.len() == 0,
{
}

// ── The panes ───────────────────────────────────────────────────────────────

/// The key for the other pane moves the focus and nothing else: to the value
/// pane where a key is open, and otherwise to the keys pane.
pub proof fn the_focus_goes_to_the_other_pane(s: StateView, key: KeyPress)
    requires
        purpose::means(s, key, Action::CyclePane),
    ensures
        s.updated(Msg::Key(key)).0 == (StateView {
            focus: if s.focus == Pane::Keys && s.open is Some {
                Pane::Value
            } else {
                Pane::Keys
            },
            ..s
        }),
        s.updated(Msg::Key(key)).1.len() == 0,
{
}

/// `Esc` and its like back out of one thing at a time: the help, then an error,
/// then the value pane, then a running traversal.
pub proof fn cancelling_backs_out_of_one_thing(s: StateView, key: KeyPress)
    requires
        purpose::means(s, key, Action::Cancel),
    ensures
        ({
            let (after, commands) = s.updated(Msg::Key(key));
            if s.help_open {
                after == (StateView { help_open: false, ..s }) && commands.len() == 0
            } else if s.error is Some {
                after == (StateView { error: None, ..s }) && commands.len() == 0
            } else if s.focus == Pane::Value {
                &&& commands.len() == 0
                &&& after.focus == Pane::Keys
                &&& !purpose::in_the_value(after)
                &&& after == (StateView { focus: Pane::Keys, open: after.open, ..s })
                &&& s.open is Some <==> after.open is Some
                &&& s.open is Some ==> after.open->0 == (OpenView {
                    cursor_active: false,
                    ..s.open->0
                })
            } else {
                &&& after == s
                &&& commands == (if s.scan is Running {
                    seq![CommandView::CancelScan]
                } else {
                    Seq::empty()
                })
            }
        }),
{
}

/// Quitting, asking for help, lifting the guard and opening the palette are what
/// their keys do, and all they do.
pub proof fn small_keys_do_their_one_thing(s: StateView, key: KeyPress, action: Action)
    requires
        purpose::means(s, key, action),
    ensures
        ({
            let (after, commands) = s.updated(Msg::Key(key));
            &&& action is Quit ==> after == (StateView { quitting: true, ..s }) && commands == seq![
                CommandView::Quit,
            ]
            &&& action is Help ==> after == (StateView { help_open: !s.help_open, ..s })
                && commands.len() == 0
            &&& action is ToggleReadOnly ==> {
                &&& commands.len() == 0
                &&& after == (StateView { read_only: after.read_only, ..s })
                &&& s.read_only is None ==> after.read_only == Some(ReadOnlyReason::User)
                &&& s.read_only == Some(ReadOnlyReason::Replica) ==> after.read_only == s.read_only
                &&& s.read_only is Some && s.read_only != Some(ReadOnlyReason::Replica)
                    ==> after.read_only is None
            }
            &&& action is OpenPalette ==> {
                &&& commands.len() == 0
                &&& after == (StateView { palette: after.palette, ..s })
                &&& after.palette is Some
                &&& after.palette->0.query.len() == 0
                &&& after.palette->0.matches == Action::all()
                &&& after.palette->0.selected == 0
            }
            &&& action is ConfirmMutation || action is EditorStage || action is EditorUndo
                || action is EditorRedo ==> after == s && commands.len() == 0
        }),
{
}

/// The divider goes one step to either side, as far as the number for it goes,
/// and only where two panes are drawn. What is open is only wrapped anew.
pub proof fn the_divider_goes_by_steps(s: StateView, key: KeyPress, action: Action)
    requires
        purpose::means(s, key, action),
        action is WidenKeysPane || action is NarrowKeysPane,
    ensures
        ({
            let (after, commands) = s.updated(Msg::Key(key));
            let by: int = if action is WidenKeysPane {
                4
            } else {
                -4
            };
            let to = s.split_adjust + by;
            &&& commands.len() == 0
            &&& s.cols < TWO_PANE_COLS ==> after == s
            &&& s.cols >= TWO_PANE_COLS ==> {
                &&& i16::MIN <= to <= i16::MAX ==> after.split_adjust == to
                &&& to > i16::MAX ==> after.split_adjust == i16::MAX
                &&& to < i16::MIN ==> after.split_adjust == i16::MIN
                &&& after == (StateView {
                    split_adjust: after.split_adjust,
                    open: after.open,
                    ..s
                })
                &&& is_only_wrapped_anew(s, after)
            }
        }),
{
}

/// Whether the Open key differs in how its text is wrapped alone.
pub open spec fn is_only_wrapped_anew(s: StateView, after: StateView) -> bool {
    match (s.open, after.open) {
        (Some(a), Some(b)) => {
            &&& b == (OpenView { value: b.value, pending: b.pending, ..a })
            &&& is_same_value(a.value, b.value, after.wrap_width())
            &&& a.pending is Some <==> b.pending is Some
            &&& a.pending is Some ==> b.pending->0 == (HeldView {
                value: b.pending->0.value,
                ..a.pending->0
            }) && is_same_value(
                Some(a.pending->0.value),
                Some(b.pending->0.value),
                after.wrap_width(),
            )
        },
        (None, None) => true,
        _ => false,
    }
}

/// Whether two values are the same, but that a string is wrapped to this width.
pub open spec fn is_same_value(a: Option<ValueView>, b: Option<ValueView>, width: nat) -> bool {
    match (a, b) {
        (Some(ValueView::Str { text: x, .. }), Some(ValueView::Str { text: y, lines })) => x == y
            && lines == crate::state::value::wrapped(x, width),
        _ => a == b,
    }
}

/// Resizing the terminal changes its size and how the Open value is wrapped. A
/// filter that takes the keys stays where it can be seen.
pub proof fn resizing_wraps_anew(s: StateView, cols: u16, rows: u16)
    ensures
        ({
            let (after, commands) = s.updated(Msg::Resized { cols, rows });
            &&& commands.len() == 0
            &&& after.cols == cols
            &&& after.rows == rows
            &&& after == (StateView { cols, rows, focus: after.focus, open: after.open, ..s })
            &&& after.focus == (if s.filtering && cols < TWO_PANE_COLS {
                Pane::Keys
            } else {
                s.focus
            })
            &&& is_only_wrapped_anew(s, after)
        }),
{
}

/// The key that refreshes: over a lost link it tries to connect at once; in the
/// keys pane it walks the keyspace again; in the value pane it lets a held update
/// through, or else reads the Open key again.
pub proof fn refreshing_asks_for_what_is_out_of_date(s: StateView, key: KeyPress)
    requires
        purpose::means(s, key, Action::Refetch),
    ensures
        ({
            let (after, commands) = s.updated(Msg::Key(key));
            if s.link is Reconnecting {
                after == s && commands == seq![CommandView::Reconnect { after_ms: 0 }]
            } else if s.focus == Pane::Keys {
                after == s && commands == seq![CommandView::StartScan { pattern: None }]
            } else if s.open is None {
                after == s && commands.len() == 0
            } else if s.open->0.pending is Some {
                let held = s.open->0.pending->0;
                let open = after.open->0;
                &&& commands.len() == 0
                &&& after == (StateView { open: after.open, ..s })
                &&& after.open is Some
                &&& open.value == Some(held.value)
                &&& open.ttl_seconds == held.ttl_seconds
                &&& open.size_bytes == held.size_bytes
                &&& open.read_at_ms == held.at_ms
                &&& open.pending is None
                &&& open.at_rest
                &&& open.name == s.open->0.name
                &&& open.index == s.open->0.index
                &&& open.row == s.open->0.row
                &&& open.cursor_active == s.open->0.cursor_active
                &&& open.deleted_at_ms is None
                &&& 0 < held.value.rows() <= usize::MAX ==> open.cursor == list::within(
                    s.open->0.cursor as int,
                    held.value.rows() - 1,
                )
            } else {
                &&& list::asks_for(
                    s,
                    after,
                    commands,
                    s.open->0.name,
                    s.open->0.index,
                    false,
                )
                &&& after == (StateView {
                    read_token: after.read_token,
                    open_pending: after.open_pending,
                    ..s
                })
            }
        }),
{
}

// ── The mouse ───────────────────────────────────────────────────────────────

/// A click moves the focus to the pane it is in, or takes hold of the divider;
/// letting go lets go. A drag without a hold does nothing.
pub proof fn a_click_focuses(s: StateView, col: u16, row: u16)
    ensures
        ({
            let plan = s.plan();
            let (after, commands) = s.updated(Msg::Mouse(MouseAction::Down { col, row }));
            let on_divider = s.cols >= TWO_PANE_COLS && plan.value is Some && col
                == plan.value->0.x - 1 && plan.keys.y <= row < plan.keys.y + plan.keys.height;
            let in_keys = plan.keys.x <= col < plan.keys.x + plan.keys.width && plan.keys.y <= row
                < plan.keys.y + plan.keys.height;
            let in_value = plan.value is Some && plan.value->0.x <= col < plan.value->0.x
                + plan.value->0.width && plan.value->0.y <= row < plan.value->0.y
                + plan.value->0.height;
            &&& commands.len() == 0
            &&& on_divider ==> after == (StateView { resizing_split: true, ..s })
            &&& !on_divider && (plan.value is Some ==> plan.value->0.x > 0) ==> {
                &&& in_keys ==> after == (StateView { focus: Pane::Keys, ..s })
                &&& !in_keys && in_value ==> after == (StateView { focus: Pane::Value, ..s })
                &&& !in_keys && !in_value ==> after == s
            }
        }),
        s.updated(Msg::Mouse(MouseAction::Up)).0 == (StateView { resizing_split: false, ..s }),
        s.updated(Msg::Mouse(MouseAction::Up)).1.len() == 0,
        !s.resizing_split ==> s.updated(Msg::Mouse(MouseAction::Drag { col, row })).0 == s,
        s.updated(Msg::Mouse(MouseAction::Drag { col, row })).1.len() == 0,
{
}

/// The wheel over the value moves its cursor three rows, up or down, and gives it
/// the keys; over nothing it does nothing.
pub proof fn the_wheel_moves_what_is_under_it(s: StateView, col: u16, row: u16, down: bool)
    requires
        s.open is Some ==> s.open->0.value is Some && s.open->0.value->0.rows() <= usize::MAX,
        purpose::rows_to_draw(s) <= usize::MAX,
    ensures
        ({
            let action = if down {
                MouseAction::ScrollDown { col, row }
            } else {
                MouseAction::ScrollUp { col, row }
            };
            let by: int = if down {
                3
            } else {
                -3
            };
            let (after, commands) = s.updated(Msg::Mouse(action));
            let under = s.plan().pane(col, row);
            &&& under is None ==> after == s && commands.len() == 0
            &&& under == Some(Pane::Keys) ==> {
                &&& after.focus == Pane::Keys
                &&& after.list == s.list
                &&& after.tree == s.tree
                &&& after == (StateView { focus: Pane::Keys, view: after.view, open: after.open, ..s })
                &&& purpose::rows_to_draw(s) > 0 ==> after.view.selected == list::within(
                    s.view.selected + by,
                    purpose::rows_to_draw(s) - 1,
                )
            }
            &&& under == Some(Pane::Value) ==> {
                &&& after.focus == Pane::Value
                &&& commands.len() == 0
                &&& after == (StateView { focus: Pane::Value, open: after.open, ..s })
                &&& s.open is Some <==> after.open is Some
                &&& s.open is Some ==> {
                    &&& after.open->0.cursor_active
                    &&& after.open->0.value == s.open->0.value
                    &&& s.open->0.value->0.rows() > 0 ==> after.open->0.cursor == list::within(
                        s.open->0.cursor + by,
                        s.open->0.value->0.rows() - 1,
                    )
                }
            }
        }),
{
}

// ── What a copy takes ───────────────────────────────────────────────────────

/// Copying changes nothing on screen: one command takes the text. In the keys
/// pane it is the name of the Open key, or of the one under the cursor where none
/// is open; in the value pane the value that is open; and the key for the command
/// takes a command that reads the Open key. Where there is nothing to take, that
/// is said.
pub proof fn a_copy_takes_what_its_pane_shows(s: StateView, key: KeyPress, action: Action)
    requires
        purpose::means(s, key, action),
        action is Copy || action is CopyCommand,
    ensures
        ({
            let (after, commands) = s.updated(Msg::Key(key));
            let of_name = action is Copy && s.focus == Pane::Keys;
            let found = purpose::key_under_cursor(s);
            &&& after == s
            &&& commands.len() == 1
            &&& of_name && s.open is Some ==> commands[0] == (CommandView::CopyToClipboard {
                text: text::shown(s.open->0.name),
                label: "key"@,
            })
            &&& of_name && s.open is None && found is Some && s.keys.name(found->0 as int) is Some
                ==> commands[0] == (CommandView::CopyToClipboard {
                text: text::shown(s.keys.name(found->0 as int)->0),
                label: "key"@,
            })
            &&& s.open is None && (!of_name || found is None) ==> commands[0] is Notify
                && commands[0]->Notify_text == "nothing open to copy"@
            &&& !of_name && s.open is Some && s.open->0.value is None ==> commands[0] is Notify
                && commands[0]->Notify_text == "gone — nothing to copy"@
            &&& !of_name && s.open is Some && s.open->0.value is Some ==> {
                &&& commands[0] is CopyToClipboard
                &&& action is CopyCommand ==> commands[0]->CopyToClipboard_label
                    == "redis-cli command"@
                &&& action is Copy ==> commands[0]->CopyToClipboard_label == told_as(
                    s.open->0.value->0,
                )
                &&& action is Copy ==> commands[0]->CopyToClipboard_text == text::join(
                    copy_lines(s.open->0.value->0, s.open->0.read_at_ms),
                    '\n',
                )
                &&& action is CopyCommand ==> commands[0]->CopyToClipboard_text
                    == copy::cli_command(
                    s.connection.target,
                    s.open->0.name,
                    s.open->0.value->0,
                )
            }
        }),
{
    if s.open is Some && s.open->0.value is Some {
        assert(copy::copied_lines(s.open->0.value->0, s.open->0.read_at_ms) =~= copy_lines(
            s.open->0.value->0,
            s.open->0.read_at_ms,
        ));
    }
}

/// What a copied value is called: a part of it is called so, with how much of it
/// there is.
pub open spec fn told_as(value: ValueView) -> Seq<char> {
    match value {
        ValueView::Hash { pairs, total } => part_of(pairs.len(), total, " fields"@),
        ValueView::List { items, total } => part_of(items.len(), total, " items"@),
        ValueView::PlainSet { members, total } => part_of(members.len(), total, " members"@),
        ValueView::ZSet { entries, total } => part_of(entries.len(), total, " members"@),
        ValueView::Stream { entries, total } => part_of(entries.len(), total, " entries"@),
        _ => "value"@,
    }
}

pub open spec fn part_of(read: nat, total: usize, what: Seq<char>) -> Seq<char> {
    if read < total {
        "value ("@ + text::decimal(read) + " of "@ + (text::grouped(total as nat) + what) + ")"@
    } else {
        "value"@
    }
}

/// The lines of a value as text: a string as it is, and otherwise one line for
/// each of its entries, with a tab between a field and its value, a member and
/// its score.
pub open spec fn copy_lines(value: ValueView, read_at_ms: u64) -> Seq<Seq<char>> {
    match value {
        ValueView::Str { text, .. } => seq![text],
        ValueView::Json { text, .. } => seq![text],
        ValueView::Binary { bytes } => seq![text::shown(bytes)],
        ValueView::Hash { pairs, .. } => Seq::new(
            pairs.len(),
            |i: int| text::shown(pairs[i].0).push('\t') + text::shown(pairs[i].1),
        ),
        ValueView::List { items, .. } => Seq::new(items.len(), |i: int| text::shown(items[i])),
        ValueView::PlainSet { members, .. } => Seq::new(
            members.len(),
            |i: int| text::shown(members[i]),
        ),
        ValueView::ZSet { entries, .. } => Seq::new(
            entries.len(),
            |i: int| text::shown(entries[i].0).push('\t') + entries[i].1,
        ),
        ValueView::Stream { entries, .. } => Seq::new(
            entries.len(),
            |i: int| copy::entry_line(entries[i].0, entries[i].1, read_at_ms),
        ),
    }
}

// ── What the answers put on screen ──────────────────────────────────────────

/// The value of an answer, as it is drawn.
pub open spec fn as_drawn(s: StateView, value: ValueView) -> ValueView {
    match value {
        ValueView::Str { text, .. } => ValueView::Str {
            text,
            lines: crate::state::value::wrapped(text, s.wrap_width()),
        },
        _ => value,
    }
}

/// The answer to the latest read of a key that is not open opens it: under its
/// own name and in its own place, with the value, the time to live and the size
/// that were read, at its start, with nothing typed. It is no longer waited for.
pub proof fn an_answer_opens_its_key(s: StateView, msg: Msg)
    requires
        msg is ValueLoaded,
        msg->ValueLoaded_token == s.read_token,
        !(s.open is Some && s.open->0.name == msg->ValueLoaded_name@),
    ensures
        ({
            let (after, commands) = s.updated(msg);
            let open = after.open->0;
            &&& commands.len() == 0
            &&& after.open is Some
            &&& open.name == msg->ValueLoaded_name@
            &&& open.index == msg->ValueLoaded_index
            &&& open.value == Some(as_drawn(s, msg->ValueLoaded_value@))
            &&& open.ttl_seconds == msg->ValueLoaded_ttl_seconds
            &&& open.size_bytes == msg->ValueLoaded_size_bytes
            &&& open.read_at_ms == msg->ValueLoaded_at_ms
            &&& open.deleted_at_ms is None
            &&& open.pending is None
            &&& open.cursor == 0 && open.offset == 0 && open.at_rest
            &&& open.edit is Idle
            &&& open.last_read is Opened
            &&& purpose::open_key_knows_its_row(after)
            &&& open.cursor_active == (s.open_pending is Some && s.open_pending->0.activate_cursor)
            &&& after == (StateView {
                open: after.open,
                open_pending: None,
                keys: after.keys,
                ..s
            })
        }),
{
    let after = s.updated(msg).0;
    let placed = StateView { open: Some(OpenView { row: None, ..after.open->0 }), ..after };
    list::rows_are_found(placed);
    assert(after == placed.relocated());
}

/// The answer to the latest read of the Open key: where the reader is at rest and
/// edits nothing, or the read reads back this session's own write, it lands, and
/// the cursor stays where there is a row for it. Otherwise it is held, and the
/// screen stays as it is.
pub proof fn an_answer_lands_or_is_held(s: StateView, msg: Msg)
    requires
        msg is ValueLoaded,
        msg->ValueLoaded_token == s.read_token,
        s.open is Some && s.open->0.name == msg->ValueLoaded_name@,
        as_drawn(s, msg->ValueLoaded_value@).rows() <= usize::MAX,
    ensures
        ({
            let (after, commands) = s.updated(msg);
            let was = s.open->0;
            let open = after.open->0;
            let value = as_drawn(s, msg->ValueLoaded_value@);
            let own = s.open_pending is Some && s.open_pending->0.own_write;
            let editing = was.edit is Typing || was.edit is Staged;
            let rows = value.rows();
            &&& commands.len() == 0
            &&& after.open is Some
            &&& open.name == was.name && open.index == was.index && open.row == was.row
            &&& open.cursor_active == (was.cursor_active || (s.open_pending is Some
                && s.open_pending->0.activate_cursor))
            &&& after == (StateView {
                open: after.open,
                open_pending: None,
                keys: after.keys,
                ..s
            })
            &&& own || (was.at_rest && !editing) ==> {
                &&& open.value == Some(value)
                &&& open.ttl_seconds == msg->ValueLoaded_ttl_seconds
                &&& open.size_bytes == msg->ValueLoaded_size_bytes
                &&& open.read_at_ms == msg->ValueLoaded_at_ms
                &&& open.deleted_at_ms is None
                &&& open.pending is None
                &&& open.at_rest == was.at_rest
                &&& open.cursor == (if rows == 0 {
                    0
                } else {
                    list::within(was.cursor as int, rows - 1)
                })
                &&& open.offset == (if rows == 0 {
                    0
                } else {
                    list::within(was.offset as int, rows - 1)
                })
                &&& open.edit == (if was.edit is Landed {
                    PhaseView::Idle
                } else {
                    was.edit
                })
                &&& open.last_read == (if was.value == Some(value) {
                    ReadOutcome::Unchanged { at_ms: msg->ValueLoaded_at_ms }
                } else {
                    ReadOutcome::Updated { at_ms: msg->ValueLoaded_at_ms }
                })
            }
            &&& !own && !(was.at_rest && !editing) ==> {
                &&& open.pending == Some(
                    HeldView {
                        value,
                        ttl_seconds: msg->ValueLoaded_ttl_seconds,
                        size_bytes: msg->ValueLoaded_size_bytes,
                        at_ms: msg->ValueLoaded_at_ms,
                    },
                )
                &&& open == (OpenView {
                    pending: open.pending,
                    cursor_active: open.cursor_active,
                    ..was
                })
            }
        }),
{
}

/// What an answer says about a key goes to that key's row and to no other: its
/// type, its time to live and its size, and that it is there.
pub proof fn an_answer_describes_its_own_row(s: StateView, msg: Msg, row: int)
    requires
        msg is ValueLoaded,
        msg->ValueLoaded_token == s.read_token,
        0 <= row < s.keys.rows.len(),
    ensures
        ({
            let after = s.updated(msg).0.keys;
            let was = s.keys.rows[row];
            let index = msg->ValueLoaded_index;
            let told = index is Some && index->0 == row && s.keys.name(row) == Some(
                msg->ValueLoaded_name@,
            );
            &&& after.rows.len() == s.keys.rows.len()
            &&& after.arena == s.keys.arena
            &&& after.cap == s.keys.cap
            &&& !told ==> after.rows[row] == was
            &&& told ==> after.rows[row] == (KeyRow {
                kind: Some(msg->ValueLoaded_value@.kind()),
                gone: false,
                ttl: Some(msg->ValueLoaded_ttl_seconds),
                ttl_read_at_s: (msg->ValueLoaded_at_ms / 1000) as u32,
                size: Some(msg->ValueLoaded_size_bytes),
                ..was
            })
        }),
{
}

/// The answer that a key is not there: an Open key keeps its last value and is
/// told gone; any other is opened without one. Its row in the list says so too.
pub proof fn a_missing_key_is_told_so(s: StateView, msg: Msg)
    requires
        msg is ValueGone,
        msg->ValueGone_token == s.read_token,
    ensures
        ({
            let (after, commands) = s.updated(msg);
            let name = msg->ValueGone_name@;
            let open = after.open->0;
            &&& commands.len() == 0
            &&& after.open is Some
            &&& after.open_pending is None
            &&& open.name == name
            &&& open.deleted_at_ms == Some(msg->ValueGone_at_ms)
            &&& open.pending is None
            &&& s.open is Some && s.open->0.name == name ==> open.value == s.open->0.value
                && open.cursor == s.open->0.cursor && open.index == s.open->0.index
            &&& !(s.open is Some && s.open->0.name == name) ==> {
                &&& open.value is None
                &&& open.index == msg->ValueGone_index
                &&& open.edit is Idle
                &&& open.cursor == 0 && open.offset == 0 && open.at_rest && !open.cursor_active
                &&& open.read_at_ms == msg->ValueGone_at_ms
                &&& purpose::open_key_knows_its_row(after)
                &&& after == (StateView {
                    open: after.open,
                    open_pending: None,
                    keys: after.keys,
                    ..s
                })
            }
        }),
        forall|row: int|
            0 <= row < s.keys.rows.len() ==> #[trigger] s.updated(msg).0.keys.rows[row] == (
            if msg->ValueGone_index is Some && msg->ValueGone_index->0 == row && s.keys.name(row)
                == Some(msg->ValueGone_name@) {
                KeyRow { kind: None, gone: true, ..s.keys.rows[row] }
            } else {
                s.keys.rows[row]
            }),
        s.updated(msg).0.keys.rows.len() == s.keys.rows.len(),
{
    let after = s.updated(msg).0;
    if !(s.open is Some && s.open->0.name == msg->ValueGone_name@) {
        let placed = StateView { open: Some(OpenView { row: None, ..after.open->0 }), ..after };
        list::rows_are_found(placed);
        assert(after == placed.relocated());
    }
}

// ── Removing what the cursor is on ──────────────────────────────────────────

/// Deleting in the value pane stages the removal of what its cursor is on: the
/// field, the member or the element on that row of the Open key, and says whether
/// it is the last that the server holds. Where the cursor is on nothing that can
/// be removed, nothing is staged and that is said.
pub proof fn deleting_stages_what_the_cursor_is_on(s: StateView, key: KeyPress)
    requires
        purpose::means(s, key, Action::Delete),
        s.focus == Pane::Value,
    ensures
        ({
            let (after, commands) = s.updated(Msg::Key(key));
            let open = s.open->0;
            let row = open.cursor as int;
            let on = s.open is Some && open.cursor_active && open.value is Some;
            &&& after == (StateView { confirm: after.confirm, ..s })
            &&& after.confirm is Some <==> commands.len() == 0
            &&& commands.len() > 0 ==> commands.len() == 1 && commands[0] is Notify
            &&& on ==> match open.value->0 {
                ValueView::Hash { pairs, total } => after.confirm == (if row < pairs.len() {
                    Some(
                        PendingView::DeleteHashField {
                            name: open.name,
                            field: pairs[row].0,
                            last_field: total == 1,
                        },
                    )
                } else {
                    None
                }),
                ValueView::PlainSet { members, total } => after.confirm == (if row
                    < members.len() {
                    Some(
                        PendingView::DeleteSetMember {
                            name: open.name,
                            member: members[row],
                            last_member: total == 1,
                        },
                    )
                } else {
                    None
                }),
                ValueView::List { items, total } => after.confirm == (if row < items.len() {
                    Some(
                        PendingView::DeleteListElement {
                            name: open.name,
                            index: open.cursor,
                            element: items[row],
                            last_element: total == 1,
                        },
                    )
                } else {
                    None
                }),
                ValueView::ZSet { entries, total } => after.confirm == (if row < entries.len() {
                    Some(
                        PendingView::DeleteZSetMember {
                            name: open.name,
                            member: entries[row].0,
                            last_member: total == 1,
                        },
                    )
                } else {
                    None
                }),
                _ => after.confirm is None,
            }
            &&& !on ==> after.confirm is None
        }),
{
}

} // verus!
