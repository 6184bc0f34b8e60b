//! Why every buffer on screen remembers the edits that lead to its text.

use vstd::prelude::*;

use crate::command::ReadToken;
use crate::input::{KeyCode, KeyPress, MouseAction};
use crate::keymap::{self, Action};
use crate::layout::{self, Pane, SPLIT_STEP};
use crate::msg::{MetadataEntry, Msg};
use crate::mutation::{MutationOutcome, MutationView};
use crate::state::editor::{EditView, TargetView};
use crate::state::session::StateView;
use crate::state::status::Viewport;
use crate::text;
use crate::update::editor;
use crate::update::mouse::MOUSE_SCROLL_ROWS;
use crate::update::viewer::{ValueReadView, VALUE_PAGE_ROWS};
use crate::update::Mode;

verus! {

impl StateView {
    /// The buffer on screen, whether it takes keys or not.
    pub open spec fn buffer(self) -> Option<EditView> {
        match self.open {
            Some(open) => open.edit.editor(),
            None => None,
        }
    }

    /// Whether the buffer on screen, if there is one, remembers the edits that
    /// lead to its text.
    pub open spec fn remembers(self) -> bool {
        self.buffer() is Some ==> self.buffer()->0.area.remembers()
    }
}

/// Whether the buffer is the one that was on screen, or is gone.
#[verifier::opaque]
pub open spec fn keeps_buffer(s: StateView, t: StateView) -> bool {
    t.buffer() is None || t.buffer() == s.buffer()
}

/// Whether the buffer remembers its edits if the one before did.
#[verifier::opaque]
pub open spec fn keeps_history(s: StateView, t: StateView) -> bool {
    s.remembers() ==> t.remembers()
}

proof fn the_same_buffer_remembers(s: StateView, t: StateView)
    requires
        keeps_buffer(s, t),
    ensures
        keeps_history(s, t),
{
    reveal(keeps_buffer);
    reveal(keeps_history);
}

proof fn the_open_key_keeps_its_buffer(s: StateView, t: StateView)
    requires
        t.open == s.open,
    ensures
        keeps_buffer(s, t),
{
    reveal(keeps_buffer);
}

// ── What keys and the mouse do ──────────────────────────────────────────────

proof fn relisting_keeps_the_buffer(s: StateView)
    ensures
        s.rebuilt().buffer() == s.buffer(),
        s.after_move().0.buffer() == s.buffer(),
        s.rebuilt().after_move().0.buffer() == s.buffer(),
{
    assert(s.rebuilt().buffer() == s.buffer());
    moving_keeps_the_buffer(s);
    moving_keeps_the_buffer(s.rebuilt());
}

proof fn moving_keeps_the_buffer(s: StateView)
    ensures
        s.after_move().0.buffer() == s.buffer(),
{
}

proof fn selecting_keeps_the_buffer(s: StateView, row: usize)
    ensures
        keeps_buffer(s, s.with_selected(row).after_move().0),
{
    reveal(keeps_buffer);
    moving_keeps_the_buffer(s.with_selected(row));
}

proof fn moving_the_selection_keeps_the_buffer(s: StateView, by: int)
    ensures
        keeps_buffer(s, s.selection_moved(by).0),
{
    the_open_key_keeps_its_buffer(s, s);
    selecting_keeps_the_buffer(
        s,
        layout::clamped(s.view.selected + by, 0, s.row_count() - 1) as usize,
    );
}

proof fn the_value_cursor_keeps_the_buffer(s: StateView, by: int, to: usize)
    ensures
        keeps_buffer(s, s.cursor_moved(by)),
        keeps_buffer(s, s.cursor_put(to)),
{
    reveal(keeps_buffer);
}

proof fn movements_keep_the_buffer(s: StateView, action: Action)
    ensures
        keeps_buffer(s, s.moved(action).0),
{
    the_value_cursor_keeps_the_buffer(s, 1, 0);
    the_value_cursor_keeps_the_buffer(s, -1, usize::MAX);
    the_value_cursor_keeps_the_buffer(s, VALUE_PAGE_ROWS as int, 0);
    the_value_cursor_keeps_the_buffer(s, -VALUE_PAGE_ROWS, 0);
    moving_the_selection_keeps_the_buffer(s, 1);
    moving_the_selection_keeps_the_buffer(s, -1);
    moving_the_selection_keeps_the_buffer(s, s.visible_rows() as int);
    moving_the_selection_keeps_the_buffer(s, -s.visible_rows());
    selecting_keeps_the_buffer(s, 0);
    selecting_keeps_the_buffer(s, (s.row_count() - 1) as usize);
}

proof fn folding_keeps_the_buffer(s: StateView, row: int)
    ensures
        keeps_buffer(s, s.refolded(row).after_move().0),
{
    reveal(keeps_buffer);
    match s.group_prefix(row) {
        Some(prefix) => relisting_keeps_the_buffer(
            StateView { tree: s.tree.toggled(prefix), ..s },
        ),
        None => moving_keeps_the_buffer(s),
    }
}

proof fn opening_a_row_keeps_the_buffer(s: StateView)
    ensures
        keeps_buffer(s, s.row_opened().0),
        keeps_buffer(s, s.selected_read(true).0),
        keeps_buffer(s, s.value_entered().0),
{
    moving_the_selection_keeps_the_buffer(s, 1);
    folding_keeps_the_buffer(s, s.view.selected as int);
    the_open_key_keeps_its_buffer(s, s.selected_read(false).0);
    the_open_key_keeps_its_buffer(s, s.selected_read(true).0);
    the_open_key_keeps_its_buffer(s, s);
    assert(keeps_buffer(s, s.value_entered().0)) by {
        reveal(keeps_buffer);
    }
}

proof fn closing_a_row_keeps_the_buffer(s: StateView)
    ensures
        keeps_buffer(s, s.row_closed().0),
{
    the_open_key_keeps_its_buffer(s, s);
    folding_keeps_the_buffer(s, s.view.selected as int);
    assert(keeps_buffer(s, s.after_move().0)) by {
        reveal(keeps_buffer);
        moving_keeps_the_buffer(s);
    }
    match s.tree.parent(s.view.selected as int) {
        Some(parent) => selecting_keeps_the_buffer(s, parent as usize),
        None => {},
    }
}

proof fn listing_otherwise_keeps_the_buffer(s: StateView)
    ensures
        keeps_buffer(s, s.sort_cycled().0),
        keeps_buffer(s, s.tree_toggled().0),
{
    relisting_keeps_the_buffer(
        StateView { list: s.list.sorted_by(s.list.sort.after()), ..s },
    );
    relisting_keeps_the_buffer(
        StateView {
            tree_mode: !s.tree_mode,
            view: Viewport { offset: 0, selected: 0 },
            ..s
        },
    );
    reveal(keeps_buffer);
}

proof fn filtering_keeps_the_buffer(s: StateView, filter: Seq<char>)
    ensures
        keeps_buffer(s, s.refiltered(filter).after_move().0),
{
    relisting_keeps_the_buffer(StateView { list: s.list.filtered_by(filter), ..s });
    reveal(keeps_buffer);
}

proof fn filter_keys_keep_the_buffer(s: StateView, key: KeyPress)
    ensures
        keeps_buffer(s, s.filter_key(key).0),
{
    let closed = StateView { filtering: false, ..s };
    the_open_key_keeps_its_buffer(s, closed);
    the_open_key_keeps_its_buffer(s, s);
    filtering_keeps_the_buffer(s, text::without_last(s.list.filter));
    filtering_keeps_the_buffer(closed, Seq::empty());
    assert(keeps_buffer(s, closed.refiltered(Seq::empty()).after_move().0)) by {
        reveal(keeps_buffer);
    }
    match key.typed() {
        Some(c) => filtering_keeps_the_buffer(s, s.list.filter.push(c)),
        None => {},
    }
}

proof fn small_actions_keep_the_buffer(s: StateView)
    ensures
        keeps_buffer(s, s.cancelled().0),
        keeps_buffer(s, s.refreshed().0),
        keeps_buffer(s, s.row_delete_staged().0),
        keeps_buffer(s, s.key_delete_staged()),
        keeps_buffer(s, s.pane_cycled()),
{
    reveal(keeps_buffer);
}

proof fn widths_keep_the_buffer(s: StateView, by: int, cols: u16, rows: u16)
    ensures
        keeps_buffer(s, s.split_moved(by)),
        keeps_buffer(s, s.resized(cols, rows)),
{
    reveal(keeps_buffer);
}

/// A buffer that is opened remembers that nothing was done yet.
proof fn an_opened_buffer_remembers(s: Seq<char>, target: TargetView, was_json: bool, line: int)
    ensures
        EditView::opened(s, target, was_json).area.remembers(),
        EditView::opened(s, target, was_json).at_line(line).area.remembers(),
{
    let buffer = EditView::opened(s, target, was_json);
    buffer.area.the_cursor_is_not_remembered(
        buffer.at_line(line).area.cursor,
        text::split(s, '\n'),
    );
}

proof fn beginning_an_edit_keeps_the_history(s: StateView)
    ensures
        keeps_history(s, s.edit_opened().0),
        keeps_history(s, s.add_opened().0),
        keeps_history(s, s.ttl_opened().0),
{
    reveal(keeps_history);
    assert forall|text: Seq<char>, target: TargetView, was_json: bool| (
    #[trigger] EditView::opened(text, target, was_json)).area.remembers() by {
        an_opened_buffer_remembers(text, target, was_json, 0);
    }
    assert forall|text: Seq<char>, target: TargetView, was_json: bool, line: int| (
    #[trigger] EditView::opened(text, target, was_json).at_line(line)).area.remembers() by {
        an_opened_buffer_remembers(text, target, was_json, line);
    }
}

proof fn acting_keeps_the_history(s: StateView, action: Action)
    ensures
        keeps_history(s, s.acted(action).0),
{
    match action {
        Action::MoveDown
        | Action::MoveUp
        | Action::PageDown
        | Action::PageUp
        | Action::Top
        | Action::Bottom => movements_keep_the_buffer(s, action),
        Action::Cancel | Action::Refetch | Action::Delete | Action::CyclePane => {
            small_actions_keep_the_buffer(s);
        },
        Action::WidenKeysPane => widths_keep_the_buffer(s, SPLIT_STEP as int, 0, 0),
        Action::NarrowKeysPane => widths_keep_the_buffer(s, -SPLIT_STEP, 0, 0),
        Action::Open | Action::EnterValueCursor => opening_a_row_keeps_the_buffer(s),
        Action::CollapseGroup => closing_a_row_keeps_the_buffer(s),
        Action::Sort => listing_otherwise_keeps_the_buffer(s),
        Action::ToggleTree => {
            listing_otherwise_keeps_the_buffer(s);
            beginning_an_edit_keeps_the_history(s);
        },
        Action::Edit | Action::Add => beginning_an_edit_keeps_the_history(s),
        _ => the_open_key_keeps_its_buffer(s, s.acted(action).0),
    }
    if keeps_buffer(s, s.acted(action).0) {
        the_same_buffer_remembers(s, s.acted(action).0);
    }
}

proof fn staging_keeps_the_buffer(s: StateView)
    ensures
        keeps_buffer(s, s.edit_staged()),
        keeps_buffer(s, s.value_staged()),
        keeps_buffer(s, s.edit_ended()),
{
    reveal(keeps_buffer);
}

proof fn typing_on_keeps_the_history(s: StateView, buffer: EditView)
    requires
        s.typing() is Some,
        s.typing()->0.area.remembers() ==> buffer.area.remembers(),
    ensures
        keeps_history(s, s.with_typing(buffer)),
{
    reveal(keeps_history);
}

proof fn editor_keys_keep_the_history(s: StateView, key: KeyPress)
    ensures
        keeps_history(s, s.editor_key(key)),
{
    staging_keeps_the_buffer(s);
    the_same_buffer_remembers(s, s.edit_staged());
    the_same_buffer_remembers(s, s.value_staged());
    the_same_buffer_remembers(s, s.edit_ended());
    the_open_key_keeps_its_buffer(s, s);
    the_same_buffer_remembers(s, s);
    match s.typing() {
        Some(buffer) => {
            if buffer.area.remembers() {
                editor::typing_keeps_the_history(buffer, key, s.name_blocked(), Seq::empty());
                buffer.area.walking_the_edits_keeps_them();
            }
            typing_on_keeps_the_history(s, buffer.keyed(key));
            typing_on_keeps_the_history(s, buffer.name_keyed(key, s.name_blocked()));
            typing_on_keeps_the_history(s, buffer.with_area(buffer.area.undone()));
            typing_on_keeps_the_history(s, buffer.with_area(buffer.area.redone()));
        },
        None => {},
    }
}

proof fn pasting_keeps_the_history(s: StateView, pasted: Seq<char>)
    ensures
        keeps_history(s, s.pasted(pasted).0),
{
    match s.typing() {
        Some(buffer) => {
            if buffer.area.remembers() {
                editor::typing_keeps_the_history(
                    buffer,
                    KeyPress { code: KeyCode::Esc, ctrl: false, alt: false },
                    false,
                    pasted,
                );
            }
            typing_on_keeps_the_history(s, buffer.pasted(pasted));
        },
        None => {
            filtering_keeps_the_buffer(s, s.list.filter + text::one_line(pasted));
            the_open_key_keeps_its_buffer(s, s);
            the_same_buffer_remembers(s, s.pasted(pasted).0);
        },
    }
}

proof fn palette_keys_keep_the_history(s: StateView, key: KeyPress)
    ensures
        keeps_history(s, s.palette_key(key).0),
{
    the_open_key_keeps_its_buffer(s, s);
    the_same_buffer_remembers(s, s);
    match s.palette {
        Some(palette) => {
            let closed = s.with_palette(None);
            let on = s.with_palette(Some(palette.keyed(key)));
            the_open_key_keeps_its_buffer(s, closed);
            the_same_buffer_remembers(s, closed);
            the_open_key_keeps_its_buffer(s, on);
            the_same_buffer_remembers(s, on);
            match palette.highlighted() {
                Some(action) => {
                    acting_keeps_the_history(closed, action);
                    assert(keeps_history(s, closed.performed(action).0)) by {
                        reveal(keeps_history);
                    }
                },
                None => {},
            }
        },
        None => {},
    }
}

proof fn pressing_keeps_the_history(s: StateView, key: KeyPress)
    ensures
        keeps_history(s, s.pressed(key).0),
{
    match s.mode() {
        Mode::Confirm => {
            assert(keeps_history(s, s.pressed(key).0)) by {
                reveal(keeps_history);
            }
        },
        Mode::Editing => editor_keys_keep_the_history(s, key),
        Mode::Filtering => {
            filter_keys_keep_the_buffer(s, key);
            the_same_buffer_remembers(s, s.filter_key(key).0);
        },
        Mode::Palette => palette_keys_keep_the_history(s, key),
        Mode::Normal => {
            the_open_key_keeps_its_buffer(s, s);
            the_same_buffer_remembers(s, s);
            match keymap::lookup(s.keymap, key) {
                Some(action) => acting_keeps_the_history(s, action),
                None => {},
            }
        },
    }
}

proof fn scrolling_keeps_the_buffer(s: StateView, col: u16, row: u16, rows: int)
    ensures
        keeps_buffer(s, s.scrolled(col, row, rows).0),
{
    let focused = StateView { focus: Pane::Keys, ..s };
    let to = layout::clamped(s.view.selected + rows, 0, s.row_count() - 1) as usize;
    moving_keeps_the_buffer(focused.with_selected(to));
    reveal(keeps_buffer);
}

proof fn the_mouse_keeps_the_buffer(s: StateView, action: MouseAction)
    ensures
        keeps_buffer(s, s.moused(action).0),
{
    match action {
        MouseAction::ScrollUp { col, row } => scrolling_keeps_the_buffer(
            s,
            col,
            row,
            -MOUSE_SCROLL_ROWS,
        ),
        MouseAction::ScrollDown { col, row } => scrolling_keeps_the_buffer(
            s,
            col,
            row,
            MOUSE_SCROLL_ROWS as int,
        ),
        _ => {
            reveal(keeps_buffer);
        },
    }
}

// ── What the other messages do ──────────────────────────────────────────────

proof fn scanning_keeps_the_buffer(s: StateView, names: Seq<Seq<u8>>, total: u64)
    ensures
        keeps_buffer(s, s.scan_batch(names).0),
        keeps_buffer(s, s.scan_started(total)),
{
    loading_keeps_the_buffer(s, names, s.looking_for(), 0);
    assert forall|t: StateView| (#[trigger] t.rebuilt()).buffer() == t.buffer() by {
        relisting_keeps_the_buffer(t);
    }
    reveal(keeps_buffer);
}

proof fn loading_keeps_the_buffer(
    s: StateView,
    names: Seq<Seq<u8>>,
    wanted: Option<Seq<u8>>,
    i: int,
)
    ensures
        s.loading(names, wanted, i).0.buffer() == s.buffer(),
    decreases names.len() - i,
{
    if i < names.len() && !s.keys.is_full() {
        loading_keeps_the_buffer(s.with_key(names[i], wanted), names, wanted, i + 1);
    }
}

proof fn metadata_keeps_the_buffer(
    s: StateView,
    entries: Seq<MetadataEntry>,
    gone: Seq<usize>,
    at_ms: u64,
)
    ensures
        keeps_buffer(s, s.metadata_batch(entries, gone, at_ms).0),
{
    the_open_key_keeps_its_buffer(s, s.metadata_batch(entries, gone, at_ms).0);
}

proof fn replies_keep_the_buffer(s: StateView, read: ValueReadView)
    ensures
        keeps_buffer(s, s.value_loaded(read)),
{
    reveal(keeps_buffer);
}

proof fn tombstones_keep_the_buffer(
    s: StateView,
    token: ReadToken,
    index: Option<usize>,
    name: Seq<u8>,
    at_ms: u64,
)
    ensures
        keeps_buffer(s, s.value_gone(token, index, name, at_ms)),
{
    reveal(keeps_buffer);
}

proof fn answers_keep_the_buffer(
    s: StateView,
    mutation: MutationView,
    index: Option<usize>,
    result: Result<MutationOutcome, String>,
    at_ms: u64,
)
    ensures
        keeps_buffer(s, s.mutation_settled(mutation, index, result, at_ms).0),
{
    reveal(keeps_buffer);
}

proof fn failing_keeps_the_buffer(s: StateView, command: Seq<char>, detail: Seq<char>, at_ms: u64)
    ensures
        keeps_buffer(s, s.failed(command, detail, at_ms)),
{
    reveal(keeps_buffer);
}

#[verifier::spinoff_prover]
proof fn messages_keep_the_buffer(s: StateView, msg: Msg)
    requires
        !(msg is Key),
        !(msg is Paste),
    ensures
        keeps_buffer(s, s.updated(msg).0),
{
    match msg {
        Msg::Mouse(action) => the_mouse_keeps_the_buffer(s, action),
        Msg::Resized { cols, rows } => widths_keep_the_buffer(s, 0, cols, rows),
        Msg::ScanStarted { estimated_total } => scanning_keeps_the_buffer(
            s,
            Seq::empty(),
            estimated_total,
        ),
        Msg::ScanBatch { keys } => scanning_keeps_the_buffer(s, text::byte_strings(keys@), 0),
        Msg::MetadataBatch { entries, gone, at_ms } => metadata_keeps_the_buffer(
            s,
            entries@,
            gone@,
            at_ms,
        ),
        Msg::ValueLoaded { token, index, name, value, ttl_seconds, size_bytes, at_ms } => {
            replies_keep_the_buffer(
                s,
                ValueReadView {
                    token,
                    index,
                    name: name@,
                    value: value@,
                    ttl_seconds,
                    size_bytes,
                    at_ms,
                },
            )
        },
        Msg::ValueGone { token, index, name, at_ms } => tombstones_keep_the_buffer(
            s,
            token,
            index,
            name@,
            at_ms,
        ),
        Msg::Failed { command, detail, at_ms } => failing_keeps_the_buffer(
            s,
            command@,
            detail@,
            at_ms,
        ),
        Msg::MutationSettled { mutation, index, result, at_ms } => answers_keep_the_buffer(
            s,
            mutation@,
            index,
            result,
            at_ms,
        ),
        _ => the_open_key_keeps_its_buffer(s, s.updated(msg).0),
    }
}

/// Every buffer remembers the edits that lead to its text: no message leaves one
/// on screen that does not, so that `undo` and `redo` are always each other's
/// undoing.
pub proof fn every_buffer_remembers_its_edits(s: StateView, msg: Msg)
    requires
        s.remembers(),
    ensures
        s.updated(msg).0.remembers(),
{
    match msg {
        Msg::Key(key) => pressing_keeps_the_history(s, key),
        Msg::Paste(pasted) => pasting_keeps_the_history(s, pasted@),
        _ => {
            messages_keep_the_buffer(s, msg);
            the_same_buffer_remembers(s, s.updated(msg).0);
        },
    }
    reveal(keeps_history);
}

} // verus!
