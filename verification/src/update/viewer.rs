//! The value pane: what a read does to the Open value, the cursor in it, and
//! what a copy takes from it.

use vstd::prelude::*;

use crate::command::{notify, nothing, only, Command, CommandView, ReadToken};
use crate::key::KeyName;
use crate::layout::{self, Pane};
use crate::state::copy::{self, redis_cli_command, value_text, CopyWhat};
use crate::state::loaded::LoadedView;
use crate::state::open::{OpenKey, OpenView};
use crate::state::pending::{PendingMutation, PendingView};
use crate::state::session::{State, StateView};
use crate::state::status::{moved_by, Attachment, Viewport};
use crate::state::tree::Row;
use crate::state::value::{Value, ValueView};
use crate::text;
use crate::update::editor::staged_edit_found_key_gone;
use crate::update::keys::read_selected;
use crate::update::reads::{self, epoch_secs};
use crate::update::Outcome;

verus! {

/// How far a page moves the cursor, and how many rows are kept around it. The
/// height of the pane is not known here, and a fixed page beats none.
pub const VALUE_PAGE_ROWS: usize = 20;

/// What came back from a read, carried whole.
pub struct ValueRead {
    pub token: ReadToken,
    pub index: Option<usize>,
    pub name: KeyName,
    pub value: Value,
    pub ttl_seconds: i32,
    pub size_bytes: u32,
    pub at_ms: u64,
}

/// What came back from a read.
#[verifier::ext_equal]
pub struct ValueReadView {
    pub token: ReadToken,
    pub index: Option<usize>,
    pub name: Seq<u8>,
    pub value: ValueView,
    pub ttl_seconds: i32,
    pub size_bytes: u32,
    pub at_ms: u64,
}

impl View for ValueRead {
    type V = ValueReadView;

    open spec fn view(&self) -> ValueReadView {
        ValueReadView {
            token: self.token,
            index: self.index,
            name: self.name@,
            value: self.value@,
            ttl_seconds: self.ttl_seconds,
            size_bytes: self.size_bytes,
            at_ms: self.at_ms,
        }
    }
}

// ── What the keys and the replies do ────────────────────────────────────────

impl LoadedView {
    /// A key that answered: its row says so, provided that the row is still
    /// that key's.
    pub open spec fn answered(self, read: ValueReadView) -> LoadedView {
        match read.index {
            Some(i) => if self.name(i as int) == Some(read.name) {
                self.with_kind(i as int, read.value.kind()).with_ttl(
                    i as int,
                    read.ttl_seconds,
                    reads::seconds_of(read.at_ms),
                ).with_size(i as int, read.size_bytes)
            } else {
                self
            },
            None => self,
        }
    }

    /// A key that is gone: its row says so, provided that the row is still that
    /// key's.
    pub open spec fn lost(self, index: Option<usize>, name: Seq<u8>) -> LoadedView {
        match index {
            Some(i) => if self.name(i as int) == Some(name) {
                self.with_gone(i as int)
            } else {
                self
            },
            None => self,
        }
    }
}

impl StateView {
    /// Whether the keys that move drive the cursor of the value pane.
    pub open spec fn cursor_active(self) -> bool {
        match self.open {
            Some(open) => open.cursor_active,
            None => false,
        }
    }

    /// Whether the Open key is called `name`.
    pub open spec fn has_open(self, name: Seq<u8>) -> bool {
        match self.open {
            Some(open) => open.name == name,
            None => false,
        }
    }

    /// A value came back. Only the answer to the latest read counts. It updates
    /// the key if that is open, and opens it if not.
    pub open spec fn value_loaded(self, read: ValueReadView) -> StateView {
        if read.token != self.read_token {
            self
        } else {
            let read = ValueReadView {
                value: read.value.rewrapped(self.wrap_width()),
                ..read
            };
            let (activate, own) = match self.open_pending {
                Some(asked) => (asked.activate_cursor, asked.own_write),
                None => (false, false),
            };
            let told = StateView {
                open_pending: None,
                keys: self.keys.answered(read),
                ..self
            };
            if self.has_open(read.name) {
                let open = self.open->0;
                let updated = if own {
                    open.applied(read.value, read.ttl_seconds, read.size_bytes, read.at_ms)
                } else {
                    open.absorbed(read.value, read.ttl_seconds, read.size_bytes, read.at_ms)
                };
                told.with_open(
                    Some(
                        OpenView {
                            cursor_active: activate || updated.cursor_active,
                            ..updated
                        },
                    ),
                )
            } else {
                let opened = OpenView::fresh(
                    read.index,
                    read.name,
                    read.value,
                    read.ttl_seconds,
                    read.size_bytes,
                    read.at_ms,
                );
                told.with_open(
                    Some(OpenView { cursor_active: activate, ..opened }),
                ).relocated()
            }
        }
    }

    /// The key that was read is not there. Only the answer to the latest read
    /// counts. An Open key keeps its last value, and any other is opened empty.
    pub open spec fn value_gone(
        self,
        token: ReadToken,
        index: Option<usize>,
        name: Seq<u8>,
        at_ms: u64,
    ) -> StateView {
        if token != self.read_token {
            self
        } else {
            let told = StateView {
                open_pending: None,
                keys: self.keys.lost(index, name),
                ..self
            };
            if self.has_open(name) {
                told.open_key_gone(name, at_ms)
            } else {
                told.with_open(Some(OpenView::missing(index, name, at_ms))).relocated()
            }
        }
    }

    /// The Open key told gone, if it is called `name`. Its last value stays.
    pub open spec fn open_key_gone(self, name: Seq<u8>, at_ms: u64) -> StateView {
        if self.has_open(name) {
            self.with_open(Some(self.open->0.tombstoned(at_ms))).staged_key_gone(name, at_ms)
        } else {
            self
        }
    }

    /// What a copy asks the shell to do.
    pub open spec fn copying(self, what: CopyWhat) -> CommandView {
        let absent = CommandView::Notify { text: "nothing open to copy"@ };
        match what {
            CopyWhat::Key => match self.open {
                Some(open) => CommandView::CopyToClipboard {
                    text: text::shown(open.name),
                    label: what.name(),
                },
                None => match self.selected_key() {
                    Some(index) => match self.keys.name(index as int) {
                        Some(name) => CommandView::CopyToClipboard {
                            text: text::shown(name),
                            label: what.name(),
                        },
                        None => absent,
                    },
                    None => absent,
                },
            },
            _ => match self.open {
                Some(open) => match open.value {
                    Some(value) => if what == CopyWhat::Value {
                        CommandView::CopyToClipboard {
                            text: copy::copied(value, open.read_at_ms),
                            label: value_label(value),
                        }
                    } else {
                        CommandView::CopyToClipboard {
                            text: copy::cli_command(self.connection.target, open.name, value),
                            label: what.name(),
                        }
                    },
                    None => CommandView::Notify { text: "gone — nothing to copy"@ },
                },
                None => absent,
            },
        }
    }

    /// The cursor of the value pane put on a row, and kept on screen. Off the
    /// top, updates wait until they are asked for.
    pub open spec fn cursor_at(self, row: usize) -> StateView {
        match self.open {
            Some(open) => self.with_open(
                Some(
                    OpenView {
                        cursor: row,
                        offset: Viewport { offset: open.offset, selected: row }.following(
                            VALUE_PAGE_ROWS,
                        ).offset,
                        at_rest: open.at_rest && row == 0,
                        ..open
                    },
                ),
            ),
            None => self,
        }
    }

    /// How many rows the Open value has, if there is one.
    pub open spec fn open_rows(self) -> Option<nat> {
        match self.open {
            Some(open) => match open.value {
                Some(value) => Some(value.rows()),
                None => None,
            },
            None => None,
        }
    }

    pub open spec fn cursor_moved(self, by: int) -> StateView {
        match self.open_rows() {
            Some(rows) => self.cursor_at(
                if rows == 0 {
                    0
                } else {
                    layout::clamped(self.open->0.cursor + by, 0, rows - 1) as usize
                },
            ),
            None => self,
        }
    }

    pub open spec fn cursor_put(self, to: usize) -> StateView {
        match self.open_rows() {
            Some(rows) => self.cursor_at(crate::state::open::clamp_row(to, rows)),
            None => self,
        }
    }

    /// Whether the cursor of the list is on a group.
    pub open spec fn on_group(self) -> bool {
        self.tree_mode && !(self.tree.at(self.view.selected as int) matches Some(Row::Key { .. }))
    }

    /// The cursor put into the selected key's value, which is read first if it
    /// is not the Open one.
    pub open spec fn value_entered(self) -> Outcome {
        if self.on_group() || self.selected_key() is None {
            self.unchanged()
        } else if self.attachment() == Some(Attachment::Attached) {
            let open = self.open->0;
            if open.value is None {
                self.unchanged()
            } else {
                (
                    StateView {
                        focus: Pane::Value,
                        open: Some(OpenView { cursor_active: true, ..open }),
                        ..self
                    },
                    Seq::empty(),
                )
            }
        } else {
            self.selected_read(true)
        }
    }

    /// A write staged.
    pub open spec fn staging(self, pending: PendingView) -> Outcome {
        (StateView { confirm: Some(pending), ..self }, Seq::empty())
    }

    /// Nothing but a notice.
    pub open spec fn noticing(self, text: Seq<char>) -> Outcome {
        (self, seq![CommandView::Notify { text }])
    }

    /// A removal of what the cursor is on staged, in a value that has parts.
    pub open spec fn row_delete_staged(self) -> Outcome {
        let here = self.noticing("nothing to remove here"@);
        match self.open {
            Some(open) => {
                let on_row = open.cursor_active && open.value is Some && open.cursor
                    < open.value->0.rows();
                let row = open.cursor as int;
                match open.value {
                    Some(ValueView::Hash { pairs, total }) => if on_row {
                        self.staging(
                            PendingView::DeleteHashField {
                                name: open.name,
                                field: pairs[row].0,
                                last_field: total == 1,
                            },
                        )
                    } else {
                        self.noticing("Enter to pick a field"@)
                    },
                    Some(ValueView::PlainSet { members, total }) => if on_row {
                        self.staging(
                            PendingView::DeleteSetMember {
                                name: open.name,
                                member: members[row],
                                last_member: total == 1,
                            },
                        )
                    } else {
                        self.noticing("Enter to pick a member"@)
                    },
                    Some(ValueView::List { items, total }) => if on_row {
                        self.staging(
                            PendingView::DeleteListElement {
                                name: open.name,
                                index: open.cursor,
                                element: items[row],
                                last_element: total == 1,
                            },
                        )
                    } else {
                        self.noticing("Enter to pick an element"@)
                    },
                    Some(ValueView::ZSet { entries, total }) => if on_row {
                        self.staging(
                            PendingView::DeleteZSetMember {
                                name: open.name,
                                member: entries[row].0,
                                last_member: total == 1,
                            },
                        )
                    } else {
                        self.noticing("Enter to pick a member"@)
                    },
                    _ => here,
                }
            },
            None => here,
        }
    }
}

/// What a copied value is called: a part of it is called a part.
pub open spec fn value_label(value: ValueView) -> Seq<char> {
    match value.window() {
        Some(shown) => "value ("@ + text::decimal(shown as nat) + " of "@ + value.measure() + ")"@,
        None => "value"@,
    }
}

// ── The keys and the replies ────────────────────────────────────────────────

/// Whether the keys that move drive the cursor of the value pane.
pub fn cursor_active(state: &State) -> (active: bool)
    ensures
        active == state@.cursor_active(),
{
    match &state.open {
        Some(open) => open.cursor_active,
        None => false,
    }
}

/// Whether the Open key is called `name`.
pub fn has_open(state: &State, name: &KeyName) -> (r: bool)
    ensures
        r == state@.has_open(name@),
{
    match &state.open {
        Some(open) => open.name.is(name),
        None => false,
    }
}

/// Takes a value in.
pub fn value_loaded(state: State, read: ValueRead) -> (r: (State, Vec<Command>))
    ensures
        r.0@ == state@.value_loaded(read@),
        Command::list(r.1@) == Seq::<CommandView>::empty(),
{
    let mut next = state;
    if read.token != next.read_token {
        return (next, nothing());
    }
    let ValueRead { token: _, index, name, value, ttl_seconds, size_bytes, at_ms } = read;
    let mut value = value;
    value.rewrap(next.value_wrap_width());
    let (activate_cursor, own_write) = match &next.open_pending {
        Some(asked) => (asked.activate_cursor, asked.own_write),
        None => (false, false),
    };
    next.open_pending = None;
    if let Some(i) = index {
        if next.keys.is_named(i, name.as_bytes()) {
            next.keys.set_kind(i, value.kind());
            next.keys.set_ttl(i, ttl_seconds, epoch_secs(at_ms));
            next.keys.set_size(i, size_bytes);
        }
    }
    if has_open(&next, &name) {
        if let Some(open) = &mut next.open {
            if own_write {
                open.apply(value, ttl_seconds, size_bytes, at_ms);
            } else {
                open.absorb(value, ttl_seconds, size_bytes, at_ms);
            }
            if activate_cursor {
                open.cursor_active = true;
            }
        }
    } else {
        let mut opened = OpenKey::new(index, name, value, ttl_seconds, size_bytes, at_ms);
        opened.cursor_active = activate_cursor;
        next.open = Some(opened);
        next.relocate_open_key();
    }
    (next, nothing())
}

/// Takes in that a key is not there.
pub fn value_gone(
    state: State,
    token: ReadToken,
    index: Option<usize>,
    name: KeyName,
    at_ms: u64,
) -> (r: (State, Vec<Command>))
    ensures
        r.0@ == state@.value_gone(token, index, name@, at_ms),
        Command::list(r.1@) == Seq::<CommandView>::empty(),
{
    let mut next = state;
    if token != next.read_token {
        return (next, nothing());
    }
    next.open_pending = None;
    mark_gone(&mut next, index, &name);
    if has_open(&next, &name) {
        tombstone_open(&mut next, &name, at_ms);
    } else {
        next.open = Some(OpenKey::gone(index, name, at_ms));
        next.relocate_open_key();
    }
    (next, nothing())
}

/// Tells the Open key gone, if it is called `name`.
pub fn tombstone_open(state: &mut State, name: &KeyName, at_ms: u64)
    ensures
        final(state)@ == old(state)@.open_key_gone(name@, at_ms),
{
    if !has_open(state, name) {
        return;
    }
    if let Some(open) = &mut state.open {
        open.deleted_at_ms = Some(at_ms);
        open.pending = None;
    }
    staged_edit_found_key_gone(state, name, at_ms);
}

/// Marks the row of a key that is gone, provided that it is still that key's.
pub fn mark_gone(state: &mut State, index: Option<usize>, name: &KeyName)
    ensures
        final(state)@ == (StateView {
            keys: old(state)@.keys.lost(index, name@),
            ..old(state)@
        }),
{
    if let Some(i) = index {
        if state.keys.is_named(i, name.as_bytes()) {
            state.keys.set_gone(i);
        }
    }
}

fn copied_value_label(value: &Value) -> (label: String)
    ensures
        label@ == value_label(value@),
{
    let mut label = text::owned("value");
    if let Some(shown) = value.window() {
        label = text::owned("value (");
        text::push_decimal(&mut label, shown as u64);
        label.append(" of ");
        label.append(value.measure().as_str());
        label.append(")");
    }
    label
}

/// Copies the key's name, its value, or a command that reads it.
pub fn build_copy(state: State, what: CopyWhat) -> (r: (State, Vec<Command>))
    ensures
        r.0@ == state@,
        Command::list(r.1@) == seq![state@.copying(what)],
{
    let label = text::owned(what.label());
    let commands = match what {
        CopyWhat::Key => {
            let name: Option<String> = match &state.open {
                Some(open) => Some(open.name.display()),
                None => match state.selected_key() {
                    Some(index) => state.keys.name_str(index),
                    None => None,
                },
            };
            match name {
                Some(text) => only(Command::CopyToClipboard { text, label }),
                None => notify("nothing open to copy"),
            }
        },
        CopyWhat::Value => match &state.open {
            Some(open) => match &open.value {
                Some(value) => only(
                    Command::CopyToClipboard {
                        text: value_text(value, open.read_at_ms),
                        label: copied_value_label(value),
                    },
                ),
                None => notify("gone — nothing to copy"),
            },
            None => notify("nothing open to copy"),
        },
        CopyWhat::Command => match &state.open {
            Some(open) => match &open.value {
                Some(value) => only(
                    Command::CopyToClipboard {
                        text: redis_cli_command(
                            state.connection.target.as_str(),
                            &open.name,
                            value,
                        ),
                        label,
                    },
                ),
                None => notify("gone — nothing to copy"),
            },
            None => notify("nothing open to copy"),
        },
    };
    (state, commands)
}

/// Moves the cursor of the value pane, as far as the value has rows.
pub fn move_cursor(state: State, by: isize) -> (r: (State, Vec<Command>))
    ensures
        r.0@ == state@.cursor_moved(by as int),
        Command::list(r.1@) == Seq::<CommandView>::empty(),
{
    let row: usize = match &state.open {
        Some(open) => match &open.value {
            Some(value) => moved_by(open.cursor, by, value.row_count()),
            None => {
                return (state, nothing());
            },
        },
        None => {
            return (state, nothing());
        },
    };
    put_cursor(state, row)
}

/// Moves the cursor of the value pane to a row, or to the last one if there are
/// not as many.
pub fn cursor_to(state: State, to: usize) -> (r: (State, Vec<Command>))
    ensures
        r.0@ == state@.cursor_put(to),
        Command::list(r.1@) == Seq::<CommandView>::empty(),
{
    let row: usize = match &state.open {
        Some(open) => match &open.value {
            Some(value) => {
                let rows: usize = value.row_count();
                if to < rows {
                    to
                } else if rows == 0 {
                    0
                } else {
                    rows - 1
                }
            },
            None => {
                return (state, nothing());
            },
        },
        None => {
            return (state, nothing());
        },
    };
    put_cursor(state, row)
}

/// Puts the cursor on a row and keeps it on screen. Moving back to the top does
/// not let a held update through by itself.
fn put_cursor(state: State, row: usize) -> (r: (State, Vec<Command>))
    ensures
        r.0@ == state@.cursor_at(row),
        Command::list(r.1@) == Seq::<CommandView>::empty(),
{
    let mut next = state;
    if let Some(open) = &mut next.open {
        open.cursor = row;
        open.offset = Viewport { offset: open.offset, selected: row }.scrolled_to_selection(
            VALUE_PAGE_ROWS,
        ).offset;
        if row > 0 {
            open.at_rest = false;
        }
    }
    (next, nothing())
}

/// Puts a cursor into the selected key's value. On a group it does nothing, and
/// so it does on a key that is known to be gone.
pub fn enter_value_cursor(state: State) -> (r: (State, Vec<Command>))
    ensures
        r.0@ == state@.value_entered().0,
        Command::list(r.1@) == state@.value_entered().1,
{
    if state.tree_mode {
        match state.tree.row(state.view.selected) {
            Some(Row::Key { .. }) => {},
            _ => {
                return (state, nothing());
            },
        }
    }
    if state.selected_key().is_none() {
        return (state, nothing());
    }
    let attached: bool = match state.attachment() {
        Some(Attachment::Attached) => true,
        _ => false,
    };
    if attached {
        let mut next = state;
        if let Some(open) = &mut next.open {
            if open.value.is_some() {
                open.cursor_active = true;
                next.focus = Pane::Value;
            }
        }
        return (next, nothing());
    }
    read_selected(state, true)
}

fn stage(state: State, pending: PendingMutation) -> (r: (State, Vec<Command>))
    ensures
        r.0@ == state@.staging(pending@).0,
        Command::list(r.1@) == state@.staging(pending@).1,
{
    let mut next = state;
    next.confirm = Some(pending);
    (next, nothing())
}

/// Stages a removal of the field, the member or the element that the cursor is
/// on.
pub fn delete_value_row(state: State) -> (r: (State, Vec<Command>))
    ensures
        r.0@ == state@.row_delete_staged().0,
        Command::list(r.1@) == state@.row_delete_staged().1,
{
    let pending: PendingMutation = match &state.open {
        Some(open) => {
            let name = open.name.clone();
            let row: usize = open.cursor;
            match &open.value {
                Some(Value::Hash(shown)) => {
                    if !open.cursor_active || row >= shown.pairs.len() {
                        return (state, notify("Enter to pick a field"));
                    }
                    PendingMutation::DeleteHashField {
                        name,
                        field: text::copy_bytes(shown.pairs[row].0.as_slice()),
                        last_field: shown.total == 1,
                    }
                },
                Some(Value::PlainSet(shown)) => {
                    if !open.cursor_active || row >= shown.members.len() {
                        return (state, notify("Enter to pick a member"));
                    }
                    PendingMutation::DeleteSetMember {
                        name,
                        member: text::copy_bytes(shown.members[row].as_slice()),
                        last_member: shown.total == 1,
                    }
                },
                Some(Value::List(shown)) => {
                    if !open.cursor_active || row >= shown.items.len() {
                        return (state, notify("Enter to pick an element"));
                    }
                    PendingMutation::DeleteListElement {
                        name,
                        index: row,
                        element: text::copy_bytes(shown.items[row].as_slice()),
                        last_element: shown.total == 1,
                    }
                },
                Some(Value::ZSet(shown)) => {
                    if !open.cursor_active || row >= shown.entries.len() {
                        return (state, notify("Enter to pick a member"));
                    }
                    PendingMutation::DeleteZSetMember {
                        name,
                        member: text::copy_bytes(shown.entries[row].0.as_slice()),
                        last_member: shown.total == 1,
                    }
                },
                _ => {
                    return (state, notify("nothing to remove here"));
                },
            }
        },
        None => {
            return (state, notify("nothing to remove here"));
        },
    };
    stage(state, pending)
}

/// A tombstone lands on its own key: whatever the index says, no row of another
/// key is marked.
pub proof fn a_tombstone_lands_on_its_own_key(
    keys: LoadedView,
    index: Option<usize>,
    name: Seq<u8>,
    i: int,
)
    requires
        0 <= i < keys.rows.len(),
        keys.name(i) != Some(name),
    ensures
        keys.lost(index, name).rows[i] == keys.rows[i],
{
}

/// A value lands on its own key's row: whatever the index says, no row of
/// another key is changed.
pub proof fn an_answer_lands_on_its_own_key(keys: LoadedView, read: ValueReadView, i: int)
    requires
        0 <= i < keys.rows.len(),
        keys.name(i) != Some(read.name),
    ensures
        keys.answered(read).rows[i] == keys.rows[i],
{
}

/// A key told gone keeps its last value on screen.
pub proof fn a_gone_key_keeps_its_value(
    s: StateView,
    token: ReadToken,
    index: Option<usize>,
    name: Seq<u8>,
    at_ms: u64,
)
    requires
        s.has_open(name),
        token == s.read_token,
    ensures
        ({
            let after = s.value_gone(token, index, name, at_ms);
            &&& after.open is Some
            &&& after.open->0.value == s.open->0.value
            &&& after.open->0.deleted_at_ms == Some(at_ms)
        }),
{
}

/// The cursor of the value pane never leaves the value, however far it is moved.
pub proof fn the_value_cursor_stays_in_the_value(s: StateView, by: int)
    requires
        s.open_rows() is Some,
        0 < s.open_rows()->0 <= usize::MAX,
    ensures
        s.cursor_moved(by).open->0.cursor < s.open_rows()->0,
{
}

} // verus!
