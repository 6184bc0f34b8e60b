//! The single entry point into the core.

pub mod confirm;
pub mod editor;
pub mod folding;
pub mod history;
pub mod keys;
pub mod laws;
pub mod link;
pub mod mouse;
pub mod palette;
pub mod reads;
pub mod scan;
pub mod viewer;

use vstd::prelude::*;

use crate::command::{nothing, only, Command, CommandView};
use crate::input::KeyPress;
use crate::keymap::{self, Action};
use crate::layout::{Pane, SPLIT_STEP};
use crate::msg::Msg;
use crate::state::copy::CopyWhat;
use crate::state::open::OpenView;
use crate::state::palette::PaletteView;
use crate::state::session::{State, StateView};
use crate::state::status::{Link, ReadOnlyReason, ScanView};
use crate::text;
use crate::update::confirm::{confirm_key, failed, mutation_settled};
use crate::update::editor::{
    begin_add_entry, editor_key, open_editor, open_ttl_editor, paste_into_editor,
};
use crate::update::keys::{
    after_move, collapse_group, cycle_sort, delete_selected_key, filter_key, move_selection,
    open_selected, select, toggle_tree,
};
use crate::update::link::{
    connected, connection_lost, invalidated, reconnect_scheduled, server_state, tracking_armed,
};
use crate::update::mouse::mouse_action;
use crate::update::palette::{open_palette, palette_key};
use crate::update::reads::{read_issued, refetch};
use crate::update::scan::{
    metadata_batch, scan_batch, scan_cancelled, scan_complete, scan_failed, scan_started,
};
use crate::update::viewer::{
    build_copy, cursor_active, cursor_to, delete_value_row, enter_value_cursor, move_cursor,
    value_gone, value_loaded, ValueRead, ValueReadView, VALUE_PAGE_ROWS,
};

verus! {

/// What a message leads to: the next state, and what the shell is to do.
pub type Outcome = (StateView, Seq<CommandView>);

/// Which part of the session takes the keys. It follows from the state and is
/// never stored.
#[derive(Clone, Copy, Debug, PartialEq, Eq, Structural)]
pub enum Mode {
    Confirm,
    Editing,
    Filtering,
    Palette,
    Normal,
}

// ── What messages do ────────────────────────────────────────────────────────

/// `v` moved by one step of the divider, as far as sixteen bits go.
pub open spec fn stepped(v: i16, by: int) -> i16 {
    crate::layout::clamped(v + by, i16::MIN as int, i16::MAX as int) as i16
}

impl StateView {
    /// A staged write comes first, then a buffer, then the filter, then the
    /// palette.
    pub open spec fn mode(self) -> Mode {
        if self.confirm is Some {
            Mode::Confirm
        } else if self.typing() is Some {
            Mode::Editing
        } else if self.filtering {
            Mode::Filtering
        } else if self.palette is Some {
            Mode::Palette
        } else {
            Mode::Normal
        }
    }

    /// Whether what an action acts on is on screen. Below the width of two
    /// panes one of them is not.
    pub open spec fn shows_pane_of(self, action: Action) -> bool {
        match action {
            Action::MoveDown | Action::MoveUp | Action::PageDown | Action::PageUp | Action::Top
            | Action::Bottom => if self.cursor_active() {
                self.value_pane_visible()
            } else {
                self.keys_pane_visible()
            },
            Action::Filter | Action::Sort | Action::Open | Action::CollapseGroup
            | Action::EnterValueCursor => self.keys_pane_visible(),
            _ => true,
        }
    }

    /// The nearest thing backed out of: the help, then an error, then the value
    /// pane, then a running traversal.
    pub open spec fn cancelled(self) -> Outcome {
        if self.help_open {
            StateView { help_open: false, ..self }.unchanged()
        } else if self.error is Some {
            StateView { error: None, ..self }.unchanged()
        } else if self.focus == Pane::Value {
            StateView {
                focus: Pane::Keys,
                open: match self.open {
                    Some(open) => Some(OpenView { cursor_active: false, ..open }),
                    None => None,
                },
                ..self
            }.unchanged()
        } else if self.scan is Running {
            (self, seq![CommandView::CancelScan])
        } else {
            self.unchanged()
        }
    }

    /// What is out of date brought up to date: a lost link is tried again, the
    /// keys pane is walked again, a held update is let through, or else the
    /// Open key is read again.
    pub open spec fn refreshed(self) -> Outcome {
        if self.link is Reconnecting {
            (self, seq![CommandView::Reconnect { after_ms: 0 }])
        } else if self.focus == Pane::Keys {
            (self, seq![CommandView::StartScan { pattern: None }])
        } else if self.open is Some && self.open->0.pending is Some {
            self.with_open(
                Some(OpenView { at_rest: true, ..self.open->0.caught_up() }),
            ).unchanged()
        } else {
            self.refetched()
        }
    }

    /// The divider moved by one step, where there is one.
    pub open spec fn split_moved(self, by: int) -> StateView {
        if self.split_is_adjustable() {
            StateView { split_adjust: stepped(self.split_adjust, by), ..self }.rewrapped()
        } else {
            self
        }
    }

    /// The focus moved to the other pane, but never to one with nothing in it.
    pub open spec fn pane_cycled(self) -> StateView {
        StateView {
            focus: if self.focus == Pane::Keys && self.open is Some {
                Pane::Value
            } else {
                Pane::Keys
            },
            ..self
        }
    }

    /// The guard against writes put up, or lifted. A replica's stays.
    pub open spec fn guard_toggled(self) -> StateView {
        StateView {
            read_only: match self.read_only {
                Some(ReadOnlyReason::Replica) => Some(ReadOnlyReason::Replica),
                Some(_) => None,
                None => Some(ReadOnlyReason::User),
            },
            ..self
        }
    }

    /// A movement, of the cursor of the value pane or of that of the list,
    /// whichever the keys drive.
    pub open spec fn moved(self, action: Action) -> Outcome {
        if self.cursor_active() {
            match action {
                Action::MoveDown => self.cursor_moved(1).unchanged(),
                Action::MoveUp => self.cursor_moved(-1).unchanged(),
                Action::PageDown => self.cursor_moved(VALUE_PAGE_ROWS as int).unchanged(),
                Action::PageUp => self.cursor_moved(-VALUE_PAGE_ROWS).unchanged(),
                Action::Top => self.cursor_put(0).unchanged(),
                _ => self.cursor_put(usize::MAX).unchanged(),
            }
        } else {
            match action {
                Action::MoveDown => self.selection_moved(1),
                Action::MoveUp => self.selection_moved(-1),
                Action::PageDown => self.selection_moved(self.visible_rows() as int),
                Action::PageUp => self.selection_moved(-self.visible_rows()),
                Action::Top => self.with_selected(0).after_move(),
                _ => self.with_selected(
                    if self.row_count() == 0 {
                        0
                    } else {
                        (self.row_count() - 1) as usize
                    },
                ).after_move(),
            }
        }
    }

    pub open spec fn has_quit(self) -> Outcome {
        (StateView { quitting: true, ..self }, seq![CommandView::Quit])
    }

    /// What an action does.
    pub open spec fn acted(self, action: Action) -> Outcome {
        match action {
            Action::Quit => self.has_quit(),
            Action::Help => StateView { help_open: !self.help_open, ..self }.unchanged(),
            Action::Cancel => self.cancelled(),
            Action::Refetch => self.refreshed(),
            Action::CyclePane => self.pane_cycled().unchanged(),
            Action::WidenKeysPane => self.split_moved(SPLIT_STEP as int).unchanged(),
            Action::NarrowKeysPane => self.split_moved(-SPLIT_STEP).unchanged(),
            Action::Delete => if self.focus == Pane::Keys {
                self.key_delete_staged().unchanged()
            } else {
                self.row_delete_staged()
            },
            Action::ConfirmMutation => self.unchanged(),
            Action::MoveDown | Action::MoveUp | Action::PageDown | Action::PageUp | Action::Top
            | Action::Bottom => self.moved(action),
            Action::Open => self.row_opened(),
            Action::EnterValueCursor => self.value_entered(),
            Action::Copy => (
                self,
                seq![
                    self.copying(
                        if self.focus == Pane::Keys {
                            CopyWhat::Key
                        } else {
                            CopyWhat::Value
                        },
                    ),
                ],
            ),
            Action::CopyCommand => (self, seq![self.copying(CopyWhat::Command)]),
            Action::Edit => self.edit_opened(),
            Action::Add => self.add_opened(),
            Action::EditorStage | Action::EditorUndo | Action::EditorRedo => self.unchanged(),
            Action::Filter => StateView { filtering: true, ..self }.unchanged(),
            Action::Sort => self.sort_cycled(),
            Action::ToggleTree => if self.focus == Pane::Keys {
                self.tree_toggled()
            } else {
                self.ttl_opened()
            },
            Action::CollapseGroup => self.row_closed(),
            Action::ToggleReadOnly => self.guard_toggled().unchanged(),
            Action::OpenPalette => self.with_palette(Some(PaletteView::fresh())).unchanged(),
        }
    }

    /// An action performed, if what it acts on is on screen.
    pub open spec fn performed(self, action: Action) -> Outcome {
        if self.shows_pane_of(action) {
            self.acted(action)
        } else {
            self.unchanged()
        }
    }

    /// A keypress, taken by whatever takes the keys.
    pub open spec fn pressed(self, key: KeyPress) -> Outcome {
        match self.mode() {
            Mode::Confirm => StateView { confirm: None, ..self }.confirm_key(
                self.confirm->0,
                key,
            ),
            Mode::Editing => self.editor_key(key).unchanged(),
            Mode::Filtering => self.filter_key(key),
            Mode::Palette => self.palette_key(key),
            Mode::Normal => match keymap::lookup(self.keymap, key) {
                Some(action) => self.performed(action),
                None => self.unchanged(),
            },
        }
    }

    /// A paste, taken by a buffer or by the filter.
    pub open spec fn pasted(self, pasted: Seq<char>) -> Outcome {
        if self.typing() is Some {
            self.editor_pasted(pasted).unchanged()
        } else if self.filtering {
            self.refiltered(self.list.filter + text::one_line(pasted)).after_move()
        } else {
            self.unchanged()
        }
    }

    /// The terminal resized. A filter that captures stays where it can be seen.
    pub open spec fn resized(self, cols: u16, rows: u16) -> StateView {
        let fitted = StateView { cols, rows, ..self }.rewrapped();
        if fitted.filtering && !fitted.keys_pane_visible() {
            StateView { focus: Pane::Keys, ..fitted }
        } else {
            fitted
        }
    }

    pub open spec fn with_notice(self, text: Seq<char>, at_ms: u64) -> StateView {
        StateView { notice: Some((text, at_ms)), ..self }
    }

    /// What a message leads to.
    pub open spec fn updated(self, msg: Msg) -> Outcome {
        match msg {
            Msg::Key(key) => self.pressed(key),
            Msg::Mouse(action) => self.moused(action),
            Msg::Resized { cols, rows } => self.resized(cols, rows).unchanged(),
            Msg::ReadCompleted { at_ms } => StateView {
                last_read_ms: Some(at_ms),
                ..self
            }.unchanged(),
            Msg::ReadIssued { token, at_ms } => self.read_dated(token, at_ms).unchanged(),
            Msg::Connected { version, tracking_supported } => self.connected(
                version@,
                tracking_supported,
            ),
            Msg::ConnectionLost => self.disconnected(),
            Msg::ReconnectScheduled { attempt, retry_in_ms } => self.reconnecting(
                attempt,
                retry_in_ms,
            ),
            Msg::TrackingArmed => self.with_link(self.link.armed()).unchanged(),
            Msg::Invalidated => self.with_link(self.link.consumed()).refetched(),
            Msg::ScanStarted { estimated_total } => self.scan_started(estimated_total).unchanged(),
            Msg::ScanBatch { keys } => self.scan_batch(text::byte_strings(keys@)),
            Msg::MetadataBatch { entries, gone, at_ms } => self.metadata_batch(
                entries@,
                gone@,
                at_ms,
            ),
            Msg::ScanComplete => self.scan_ended(
                ScanView::Complete { total: self.keys.rows.len() as u64 },
            ).unchanged(),
            Msg::ScanCancelled => self.scan_ended(
                ScanView::Cancelled { scanned: self.keys.rows.len() as u64 },
            ).unchanged(),
            Msg::ScanFailed { error } => StateView {
                scan: ScanView::Failed { error: error@ },
                ..self
            }.unchanged(),
            Msg::ValueLoaded { token, index, name, value, ttl_seconds, size_bytes, at_ms } => {
                self.value_loaded(
                    ValueReadView {
                        token,
                        index,
                        name: name@,
                        value: value@,
                        ttl_seconds,
                        size_bytes,
                        at_ms,
                    },
                ).unchanged()
            },
            Msg::ValueGone { token, index, name, at_ms } => self.value_gone(
                token,
                index,
                name@,
                at_ms,
            ).unchanged(),
            Msg::Copied { label, at_ms } => self.with_notice(
                "copied "@ + label@,
                at_ms,
            ).unchanged(),
            Msg::Noticed { text, at_ms } => self.with_notice(text@, at_ms).unchanged(),
            Msg::ServerState { read_only, condition } => StateView {
                read_only: self.guard_after(read_only),
                condition,
                ..self
            }.unchanged(),
            Msg::Failed { command, detail, at_ms } => self.failed(
                command@,
                detail@,
                at_ms,
            ).unchanged(),
            Msg::Paste(pasted) => self.pasted(pasted@),
            Msg::MutationSettled { mutation, index, result, at_ms } => self.mutation_settled(
                mutation@,
                index,
                result,
                at_ms,
            ),
            Msg::Quit => self.has_quit(),
        }
    }
}

// ── The messages ────────────────────────────────────────────────────────────

/// Takes a message, and returns the next state and the commands for a shell to
/// carry out. It does no input or output and reads no clock: what it returns
/// follows from its arguments alone.
pub fn update(state: State, msg: Msg) -> (r: (State, Vec<Command>))
    ensures
        r.0@ == state@.updated(msg).0,
        Command::list(r.1@) == state@.updated(msg).1,
{
    match msg {
        Msg::Key(key) => key_press(state, key),
        Msg::Mouse(action) => mouse_action(state, action),
        Msg::Resized { cols, rows } => resized(state, cols, rows),
        Msg::ReadCompleted { at_ms } => {
            let mut next = state;
            next.last_read_ms = Some(at_ms);
            (next, nothing())
        },
        Msg::ReadIssued { token, at_ms } => read_issued(state, token, at_ms),
        Msg::Connected { version, tracking_supported } => connected(
            state,
            version,
            tracking_supported,
        ),
        Msg::ConnectionLost => connection_lost(state),
        Msg::ReconnectScheduled { attempt, retry_in_ms } => reconnect_scheduled(
            state,
            attempt,
            retry_in_ms,
        ),
        Msg::TrackingArmed => tracking_armed(state),
        Msg::Invalidated => invalidated(state),
        Msg::ScanStarted { estimated_total } => scan_started(state, estimated_total),
        Msg::ScanBatch { keys } => scan_batch(state, keys),
        Msg::MetadataBatch { entries, gone, at_ms } => metadata_batch(state, entries, gone, at_ms),
        Msg::ScanComplete => scan_complete(state),
        Msg::ScanCancelled => scan_cancelled(state),
        Msg::ScanFailed { error } => scan_failed(state, error),
        Msg::ValueLoaded { token, index, name, value, ttl_seconds, size_bytes, at_ms } => {
            value_loaded(
                state,
                ValueRead { token, index, name, value, ttl_seconds, size_bytes, at_ms },
            )
        },
        Msg::ValueGone { token, index, name, at_ms } => value_gone(
            state,
            token,
            index,
            name,
            at_ms,
        ),
        Msg::Copied { label, at_ms } => {
            let mut words = text::owned("copied ");
            words.append(label.as_str());
            noticed(state, words, at_ms)
        },
        Msg::Noticed { text, at_ms } => noticed(state, text, at_ms),
        Msg::ServerState { read_only, condition } => server_state(state, read_only, condition),
        Msg::Failed { command, detail, at_ms } => failed(state, command, detail, at_ms),
        Msg::Paste(pasted) => paste(state, pasted),
        Msg::MutationSettled { mutation, index, result, at_ms } => mutation_settled(
            state,
            mutation,
            index,
            result,
            at_ms,
        ),
        Msg::Quit => quit(state),
    }
}

fn resized(state: State, cols: u16, rows: u16) -> (r: (State, Vec<Command>))
    ensures
        r.0@ == state@.resized(cols, rows),
        Command::list(r.1@) == Seq::<CommandView>::empty(),
{
    let mut next = state;
    fit(&mut next, cols, rows);
    if next.filtering && !next.keys_pane_visible() {
        next.focus = Pane::Keys;
    }
    (next, nothing())
}

/// Takes the size of the terminal in.
fn fit(state: &mut State, cols: u16, rows: u16)
    ensures
        final(state)@ == (StateView { cols, rows, ..old(state)@ }).rewrapped(),
{
    state.cols = cols;
    state.rows = rows;
    state.rewrap_open();
}

fn noticed(state: State, text: String, at_ms: u64) -> (r: (State, Vec<Command>))
    ensures
        r.0@ == state@.with_notice(text@, at_ms),
        Command::list(r.1@) == Seq::<CommandView>::empty(),
{
    let mut next = state;
    next.notice = Some((text, at_ms));
    (next, nothing())
}

/// Pastes into whatever is capturing text. A single line stays one.
pub fn paste(state: State, pasted: String) -> (r: (State, Vec<Command>))
    ensures
        r.0@ == state@.pasted(pasted@).0,
        Command::list(r.1@) == state@.pasted(pasted@).1,
{
    let typing: bool = match &state.open {
        Some(open) => open.typing().is_some(),
        None => false,
    };
    if typing {
        return paste_into_editor(state, pasted.as_str());
    }
    let mut next = state;
    if !next.filtering {
        return (next, nothing());
    }
    next.list.filter_push_str(text::strip_line_breaks(pasted.as_str()).as_str());
    next.rebuild_list();
    after_move(next)
}

/// Which part of the session takes the keys.
pub fn mode(state: &State) -> (mode: Mode)
    ensures
        mode == state@.mode(),
{
    if state.confirm.is_some() {
        return Mode::Confirm;
    }
    let typing: bool = match &state.open {
        Some(open) => open.typing().is_some(),
        None => false,
    };
    if typing {
        Mode::Editing
    } else if state.filtering {
        Mode::Filtering
    } else if state.palette.is_some() {
        Mode::Palette
    } else {
        Mode::Normal
    }
}

/// Takes a keypress. Where nothing captures it, the keymap decides what it
/// means.
pub fn key_press(state: State, key: KeyPress) -> (r: (State, Vec<Command>))
    ensures
        r.0@ == state@.pressed(key).0,
        Command::list(r.1@) == state@.pressed(key).1,
{
    match mode(&state) {
        Mode::Confirm => {
            let mut next = state;
            match next.confirm.take() {
                Some(pending) => confirm_key(next, pending, key),
                None => (next, nothing()),
            }
        },
        Mode::Editing => editor_key(state, key),
        Mode::Filtering => filter_key(state, key),
        Mode::Palette => palette_key(state, key),
        Mode::Normal => match state.keymap.action_for(&key) {
            Some(action) => if action.pane_is_on_screen(&state) {
                dispatch_action(state, action)
            } else {
                (state, nothing())
            },
            None => (state, nothing()),
        },
    }
}

impl Action {
    /// Whether what the action acts on is on screen. One that acts on a pane
    /// that is not drawn does nothing, rather than something nobody can see.
    pub fn pane_is_on_screen(self, state: &State) -> (shown: bool)
        ensures
            shown == state@.shows_pane_of(self),
    {
        match self {
            Action::MoveDown | Action::MoveUp | Action::PageDown | Action::PageUp | Action::Top
            | Action::Bottom => if cursor_active(state) {
                state.value_pane_visible()
            } else {
                state.keys_pane_visible()
            },
            Action::Filter | Action::Sort | Action::Open | Action::CollapseGroup
            | Action::EnterValueCursor => state.keys_pane_visible(),
            _ => true,
        }
    }
}

/// Performs an action.
pub fn dispatch_action(state: State, action: Action) -> (r: (State, Vec<Command>))
    ensures
        r.0@ == state@.acted(action).0,
        Command::list(r.1@) == state@.acted(action).1,
{
    match action {
        Action::Quit => quit(state),
        Action::Help => {
            let mut next = state;
            next.help_open = !next.help_open;
            (next, nothing())
        },
        Action::Cancel => cancel(state),
        Action::Refetch => refetch_action(state),
        Action::CyclePane => {
            let mut next = state;
            next.focus = if next.focus == Pane::Keys && next.open.is_some() {
                Pane::Value
            } else {
                Pane::Keys
            };
            (next, nothing())
        },
        Action::WidenKeysPane => move_split(state, SPLIT_STEP as i16),
        Action::NarrowKeysPane => move_split(state, -(SPLIT_STEP as i16)),
        Action::Delete => if state.keys_pane_focused() {
            delete_selected_key(state)
        } else {
            delete_value_row(state)
        },
        Action::ConfirmMutation => (state, nothing()),
        Action::MoveDown | Action::MoveUp | Action::PageDown | Action::PageUp | Action::Top
        | Action::Bottom => move_action(state, action),
        Action::Open => open_selected(state),
        Action::EnterValueCursor => enter_value_cursor(state),
        Action::Copy => {
            let what = if state.keys_pane_focused() {
                CopyWhat::Key
            } else {
                CopyWhat::Value
            };
            build_copy(state, what)
        },
        Action::CopyCommand => build_copy(state, CopyWhat::Command),
        Action::Edit => open_editor(state),
        Action::Add => begin_add_entry(state),
        Action::EditorStage | Action::EditorUndo | Action::EditorRedo => (state, nothing()),
        Action::Filter => {
            let mut next = state;
            next.filtering = true;
            (next, nothing())
        },
        Action::Sort => cycle_sort(state),
        Action::ToggleTree => if state.keys_pane_focused() {
            toggle_tree(state)
        } else {
            open_ttl_editor(state)
        },
        Action::CollapseGroup => collapse_group(state),
        Action::ToggleReadOnly => {
            let mut next = state;
            next.read_only = match next.read_only {
                Some(ReadOnlyReason::Replica) => Some(ReadOnlyReason::Replica),
                Some(_) => None,
                None => Some(ReadOnlyReason::User),
            };
            (next, nothing())
        },
        Action::OpenPalette => open_palette(state),
    }
}

fn move_split(state: State, by: i16) -> (r: (State, Vec<Command>))
    ensures
        r.0@ == state@.split_moved(by as int),
        Command::list(r.1@) == Seq::<CommandView>::empty(),
{
    let mut next = state;
    if next.split_is_adjustable() {
        let wide: i32 = next.split_adjust as i32 + by as i32;
        next.split_adjust = if wide > 32767 {
            32767
        } else if wide < -32768 {
            -32768
        } else {
            wide as i16
        };
        next.rewrap_open();
    }
    (next, nothing())
}

/// Moves whichever cursor the keys drive.
fn move_action(state: State, action: Action) -> (r: (State, Vec<Command>))
    ensures
        r.0@ == state@.moved(action).0,
        Command::list(r.1@) == state@.moved(action).1,
{
    if cursor_active(&state) {
        return match action {
            Action::MoveDown => move_cursor(state, 1),
            Action::MoveUp => move_cursor(state, -1),
            Action::PageDown => move_cursor(state, VALUE_PAGE_ROWS as isize),
            Action::PageUp => move_cursor(state, -(VALUE_PAGE_ROWS as isize)),
            Action::Top => cursor_to(state, 0),
            _ => cursor_to(state, usize::MAX),
        };
    }
    match action {
        Action::MoveDown => move_selection(state, 1),
        Action::MoveUp => move_selection(state, -1),
        Action::PageDown => {
            let page: isize = state.visible_rows() as isize;
            move_selection(state, page)
        },
        Action::PageUp => {
            let page: isize = state.visible_rows() as isize;
            move_selection(state, -page)
        },
        Action::Top => select(state, 0),
        _ => {
            let n: usize = state.row_count();
            let last: usize = if n == 0 {
                0
            } else {
                n - 1
            };
            select(state, last)
        },
    }
}

/// Backs out of the nearest thing: one keypress, one meaning.
pub fn cancel(state: State) -> (r: (State, Vec<Command>))
    ensures
        r.0@ == state@.cancelled().0,
        Command::list(r.1@) == state@.cancelled().1,
{
    let mut next = state;
    if next.help_open {
        next.help_open = false;
        return (next, nothing());
    }
    if next.error.is_some() {
        next.error = None;
        return (next, nothing());
    }
    if next.focus == Pane::Value {
        next.focus = Pane::Keys;
        if let Some(open) = &mut next.open {
            open.cursor_active = false;
        }
        return (next, nothing());
    }
    if next.scan.is_running() {
        return (next, only(Command::CancelScan));
    }
    (next, nothing())
}

/// Brings what is out of date up to date, in the pane that has the focus.
pub fn refetch_action(state: State) -> (r: (State, Vec<Command>))
    ensures
        r.0@ == state@.refreshed().0,
        Command::list(r.1@) == state@.refreshed().1,
{
    let mut next = state;
    if let Link::Reconnecting { .. } = &next.link {
        return (next, only(Command::Reconnect { after_ms: 0 }));
    }
    if next.keys_pane_focused() {
        return (next, only(Command::StartScan { pattern: None }));
    }
    if let Some(open) = &mut next.open {
        if open.pending.is_some() {
            open.take_pending();
            open.at_rest = true;
            return (next, nothing());
        }
    }
    let commands = refetch(&mut next);
    (next, commands)
}

pub fn quit(state: State) -> (r: (State, Vec<Command>))
    ensures
        r.0@ == state@.has_quit().0,
        Command::list(r.1@) == state@.has_quit().1,
{
    let mut next = state;
    next.quitting = true;
    (next, only(Command::Quit))
}

} // verus!
