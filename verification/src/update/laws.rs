//! What holds of every message.

use vstd::prelude::*;

use crate::command::{CommandView, ReadToken};
use crate::input::{KeyCode, KeyPress, MouseAction};
use crate::keymap::{self, Action};
use crate::layout::{Pane, SPLIT_STEP};
use crate::msg::{MetadataEntry, Msg};
use crate::state::copy::CopyWhat;
use crate::state::editor::EditView;
use crate::mutation::{MutationOutcome, MutationView};
use crate::state::loaded::{self, LoadedView};
use crate::state::open::OpenView;
use crate::state::palette::PaletteView;
use crate::state::session::StateView;
use crate::state::status::{LinkView, Liveness, ReadOnlyReason, ScanView, Tracking, Viewport};
use crate::text;
use crate::update::mouse::MOUSE_SCROLL_ROWS;
use crate::update::reads;
use crate::update::scan;
use crate::update::viewer::ValueReadView;
use crate::update::{Mode, Outcome};

verus! {

// ── What keys and the mouse leave alone ─────────────────────────────────────

/// Whether one of the commands carries a write out.
pub open spec fn executes(commands: Seq<CommandView>) -> bool {
    exists|i: int| 0 <= i < commands.len() && (#[trigger] commands[i]) is Execute
}

/// Whether a command is a read.
pub open spec fn is_read(command: CommandView) -> bool {
    command is ReadKey
}

/// Whether one of the commands is a read.
pub open spec fn has_read(commands: Seq<CommandView>) -> bool {
    exists|i: int| 0 <= i < commands.len() && #[trigger] is_read(commands[i])
}

/// Whether a read bears the token after that of `s`, is the one that is waited
/// for from then on, not dated yet, and arms tracking if and only if the link
/// can.
pub open spec fn is_the_next_read(s: StateView, after: StateView, read: CommandView) -> bool {
    &&& after.read_token == s.read_token.after()
    &&& read->token == after.read_token
    &&& read->arm == after.link.arms()
    &&& after.open_pending is Some
    &&& after.open_pending->0.token == after.read_token
    &&& after.open_pending->0.name == read->key
    &&& after.open_pending->0.index == read->ReadKey_index
    &&& after.open_pending->0.issued_at_ms is None
}

/// Whether there is at most one read, it is the next one, and without one the
/// token is as it was.
pub open spec fn reads_well(s: StateView, outcome: Outcome) -> bool {
    &&& forall|i: int|
        0 <= i < outcome.1.len() && #[trigger] is_read(outcome.1[i]) ==> is_the_next_read(
            s,
            outcome.0,
            outcome.1[i],
        )
    &&& forall|i: int, j: int|
        0 <= i < outcome.1.len() && 0 <= j < outcome.1.len() && #[trigger] is_read(outcome.1[i])
            && #[trigger] is_read(outcome.1[j]) ==> i == j
    &&& !has_read(outcome.1) ==> outcome.0.read_token == s.read_token
}

/// A read alone is a read.
proof fn one_read_is_a_read()
    ensures
        forall|command: CommandView|
            is_read(command) ==> has_read(#[trigger] Seq::<CommandView>::empty().push(command)),
{
    assert forall|command: CommandView| is_read(command) implies has_read(
        #[trigger] Seq::<CommandView>::empty().push(command),
    ) by {
        assert(is_read(Seq::<CommandView>::empty().push(command)[0]));
    }
}

/// Whether the keys, the link and the traversal are as they were, nothing is
/// written, and reads are as they should be.
#[verifier::opaque]
pub open spec fn tame(s: StateView, outcome: Outcome) -> bool {
    &&& outcome.0.keys == s.keys
    &&& outcome.0.link == s.link
    &&& outcome.0.scan == s.scan
    &&& outcome.0.cols == s.cols
    &&& outcome.0.rows == s.rows
    &&& !executes(outcome.1)
    &&& reads_well(s, outcome)
}

proof fn rebuilding_is_tame(s: StateView)
    ensures
        tame(s, s.rebuilt().unchanged()),
        s.rebuilt().read_token == s.read_token,
        s.rebuilt().error == s.error,
        s.rebuilt().typing() == s.typing(),
        s.rebuilt().open_pending == s.open_pending,
{
    reveal(tame);
}

proof fn after_moving_is_tame(s: StateView)
    ensures
        tame(s, s.after_move()),
        s.after_move().0.error == s.error,
        s.after_move().0.typing() == s.typing(),
{
    reveal(tame);
}

proof fn moving_is_tame(s: StateView, action: Action)
    ensures
        tame(s, s.moved(action)),
{
    reveal(tame);
    let n = s.row_count();
    if s.cursor_active() {
    } else if n == 0 {
        after_moving_is_tame(s.with_selected(0));
    } else {
        let by: int = match action {
            Action::MoveDown => 1,
            Action::MoveUp => -1,
            Action::PageDown => s.visible_rows() as int,
            _ => -s.visible_rows(),
        };
        after_moving_is_tame(
            s.with_selected(
                crate::layout::clamped(s.view.selected + by, 0, s.row_count() - 1) as usize,
            ),
        );
        after_moving_is_tame(s.with_selected(0));
        after_moving_is_tame(s.with_selected((s.row_count() - 1) as usize));
    }
}

proof fn moving_the_selection_is_tame(s: StateView, by: int)
    ensures
        tame(s, s.selection_moved(by)),
{
    reveal(tame);
    after_moving_is_tame(
        s.with_selected(
            crate::layout::clamped(s.view.selected + by, 0, s.row_count() - 1) as usize,
        ),
    );
}

proof fn relisting_is_tame(s: StateView)
    ensures
        tame(s, s.rebuilt().after_move()),
        s.rebuilt().after_move().0.error == s.error,
        s.rebuilt().after_move().0.typing() == s.typing(),
{
    reveal(tame);
    rebuilding_is_tame(s);
    after_moving_is_tame(s.rebuilt());
}

proof fn refolding_is_tame(s: StateView, row: int)
    ensures
        tame(s, s.refolded(row).after_move()),
{
    reveal(tame);
    match s.group_prefix(row) {
        Some(prefix) => {
            relisting_is_tame(StateView { tree: s.tree.toggled(prefix), ..s });
        },
        None => {
            after_moving_is_tame(s);
        },
    }
}

proof fn resting_is_tame(s: StateView, t: StateView)
    requires
        t.keys == s.keys,
        t.link == s.link,
        t.scan == s.scan,
        t.cols == s.cols,
        t.rows == s.rows,
        t.read_token == s.read_token,
    ensures
        tame(s, t.unchanged()),
{
    reveal(tame);
}

proof fn saying_is_tame(s: StateView, t: StateView, command: CommandView)
    requires
        t.keys == s.keys,
        t.link == s.link,
        t.scan == s.scan,
        t.cols == s.cols,
        t.rows == s.rows,
        t.read_token == s.read_token,
        !(command is Execute),
        !(command is ReadKey),
    ensures
        tame(s, (t, seq![command])),
{
    reveal(tame);
}

proof fn refetching_is_tame(s: StateView)
    ensures
        tame(s, s.refetched()),
{
    one_read_is_a_read();
    reveal(tame);
}

proof fn opening_is_tame(s: StateView)
    ensures
        tame(s, s.row_opened()),
        tame(s, s.selected_read(true)),
{
    moving_the_selection_is_tame(s, 1);
    refolding_is_tame(s, s.view.selected as int);
    assert(tame(s, s.selected_read(false)) && tame(s, s.selected_read(true))) by {
        one_read_is_a_read();
        reveal(tame);
    }
    resting_is_tame(s, s);
}

proof fn closing_is_tame(s: StateView)
    ensures
        tame(s, s.row_closed()),
{
    resting_is_tame(s, s);
    refolding_is_tame(s, s.view.selected as int);
    after_moving_is_tame(s);
    match s.tree.parent(s.view.selected as int) {
        Some(parent) => {
            assert(tame(s, s.with_selected(parent as usize).after_move())) by {
                after_moving_is_tame(s.with_selected(parent as usize));
                reveal(tame);
            }
        },
        None => {},
    }
}

proof fn entering_is_tame(s: StateView)
    ensures
        tame(s, s.value_entered()),
{
    opening_is_tame(s);
    assert(tame(s, s.value_entered())) by {
        reveal(tame);
    }
}

proof fn sorting_is_tame(s: StateView)
    ensures
        tame(s, s.sort_cycled()),
        tame(s, s.tree_toggled()),
{
    relisting_is_tame(StateView { list: s.list.sorted_by(s.list.sort.after()), ..s });
    relisting_is_tame(
        StateView {
            tree_mode: !s.tree_mode,
            view: Viewport { offset: 0, selected: 0 },
            ..s
        },
    );
    resting_is_tame(s, s);
    reveal(tame);
}

proof fn beginning_an_edit_is_tame(s: StateView)
    ensures
        tame(s, s.edit_opened()),
        tame(s, s.add_opened()),
        tame(s, s.ttl_opened()),
{
    assert forall|buffer: Result<EditView, Seq<char>>| tame(s, #[trigger] s.editing(buffer)) by {
        reveal(tame);
    }
    match s.edit_refused() {
        Some(why) => {
            saying_is_tame(s, s, CommandView::Notify { text: why });
        },
        None => {},
    }
}

proof fn deleting_is_tame(s: StateView)
    ensures
        tame(s, s.row_delete_staged()),
        tame(s, s.key_delete_staged().unchanged()),
{
    reveal(tame);
}

proof fn copying_is_tame(s: StateView, what: CopyWhat)
    ensures
        tame(s, (s, seq![s.copying(what)])),
{
    saying_is_tame(s, s, s.copying(what));
}

proof fn refreshing_is_tame(s: StateView)
    ensures
        tame(s, s.refreshed()),
        tame(s, s.cancelled()),
{
    refetching_is_tame(s);
    reveal(tame);
}

proof fn splitting_is_tame(s: StateView, by: int)
    ensures
        tame(s, s.split_moved(by).unchanged()),
{
    reveal(tame);
}

proof fn acting_is_tame(s: StateView, action: Action)
    ensures
        tame(s, s.acted(action)),
{
    match action {
        Action::MoveDown
        | Action::MoveUp
        | Action::PageDown
        | Action::PageUp
        | Action::Top
        | Action::Bottom => moving_is_tame(s, action),
        Action::Quit => saying_is_tame(s, s.has_quit().0, CommandView::Quit),
        Action::Help => resting_is_tame(s, StateView { help_open: !s.help_open, ..s }),
        Action::Cancel | Action::Refetch => refreshing_is_tame(s),
        Action::CyclePane => resting_is_tame(s, s.pane_cycled()),
        Action::WidenKeysPane => splitting_is_tame(s, SPLIT_STEP as int),
        Action::NarrowKeysPane => splitting_is_tame(s, -SPLIT_STEP),
        Action::Delete => deleting_is_tame(s),
        Action::Open => opening_is_tame(s),
        Action::CollapseGroup => closing_is_tame(s),
        Action::EnterValueCursor => entering_is_tame(s),
        Action::Copy => {
            copying_is_tame(s, CopyWhat::Key);
            copying_is_tame(s, CopyWhat::Value);
        },
        Action::CopyCommand => copying_is_tame(s, CopyWhat::Command),
        Action::Edit | Action::Add => beginning_an_edit_is_tame(s),
        Action::Filter => resting_is_tame(s, StateView { filtering: true, ..s }),
        Action::Sort => sorting_is_tame(s),
        Action::ToggleTree => {
            sorting_is_tame(s);
            beginning_an_edit_is_tame(s);
        },
        Action::ToggleReadOnly => resting_is_tame(s, s.guard_toggled()),
        Action::OpenPalette => resting_is_tame(s, s.with_palette(Some(PaletteView::fresh()))),
        Action::ConfirmMutation
        | Action::EditorStage
        | Action::EditorUndo
        | Action::EditorRedo => resting_is_tame(s, s),
    }
}

proof fn filtering_is_tame(s: StateView, key: KeyPress)
    ensures
        tame(s, s.filter_key(key)),
{
    let closed = StateView { filtering: false, ..s };
    relisting_is_tame(StateView { list: closed.list.filtered_by(Seq::empty()), ..closed });
    relisting_is_tame(
        StateView { list: s.list.filtered_by(text::without_last(s.list.filter)), ..s },
    );
    match key.typed() {
        Some(c) => {
            relisting_is_tame(StateView { list: s.list.filtered_by(s.list.filter.push(c)), ..s });
        },
        None => {},
    }
    reveal(tame);
}

proof fn palette_keys_are_tame(s: StateView, key: KeyPress)
    ensures
        tame(s, s.palette_key(key)),
{
    resting_is_tame(s, s);
    match s.palette {
        Some(palette) => {
            let closed = s.with_palette(None);
            resting_is_tame(s, closed);
            resting_is_tame(s, s.with_palette(Some(palette.keyed(key))));
            match palette.highlighted() {
                Some(action) => {
                    assert(tame(s, closed.performed(action))) by {
                        acting_is_tame(closed, action);
                        resting_is_tame(closed, closed);
                        reveal(tame);
                    }
                },
                None => {},
            }
        },
        None => {},
    }
}

proof fn editor_keys_are_tame(s: StateView, key: KeyPress)
    ensures
        tame(s, s.editor_key(key).unchanged()),
{
    resting_is_tame(s, s.editor_key(key));
}

/// Whether this key confirms the write that is staged.
pub open spec fn confirms(s: StateView, msg: Msg) -> bool {
    match msg {
        Msg::Key(key) => s.confirm is Some && key.typed() == Some('y') && s.read_only is None,
        _ => false,
    }
}

proof fn pressing_is_tame(s: StateView, key: KeyPress)
    ensures
        !confirms(s, Msg::Key(key)) ==> tame(s, s.pressed(key)),
{
    match s.mode() {
        Mode::Confirm => {
            let taken = StateView { confirm: None, ..s };
            assert(!confirms(s, Msg::Key(key)) ==> tame(
                s,
                taken.confirm_key(s.confirm->0, key),
            )) by {
                reveal(tame);
            }
        },
        Mode::Editing => editor_keys_are_tame(s, key),
        Mode::Filtering => filtering_is_tame(s, key),
        Mode::Palette => palette_keys_are_tame(s, key),
        Mode::Normal => {
            resting_is_tame(s, s);
            match keymap::lookup(s.keymap, key) {
                Some(action) => acting_is_tame(s, action),
                None => {},
            }
        },
    }
}

proof fn scrolling_is_tame(s: StateView, col: u16, row: u16, rows: int)
    ensures
        tame(s, s.scrolled(col, row, rows)),
        s.scrolled(col, row, rows).0.error == s.error,
        s.scrolled(col, row, rows).0.typing() == s.typing(),
{
    let focused = StateView { focus: Pane::Keys, ..s };
    let to = crate::layout::clamped(s.view.selected + rows, 0, s.row_count() - 1) as usize;
    after_moving_is_tame(focused.with_selected(to));
    match s.plan().pane(col, row) {
        Some(Pane::Keys) => {
            reveal(tame);
        },
        _ => {
            reveal(tame);
        },
    }
}

proof fn the_mouse_is_tame(s: StateView, action: MouseAction)
    ensures
        tame(s, s.moused(action)),
        s.moused(action).0.error == s.error,
        s.moused(action).0.typing() == s.typing(),
{
    match action {
        MouseAction::ScrollUp { col, row } => scrolling_is_tame(s, col, row, -MOUSE_SCROLL_ROWS),
        MouseAction::ScrollDown { col, row } => scrolling_is_tame(
            s,
            col,
            row,
            MOUSE_SCROLL_ROWS as int,
        ),
        _ => resting_is_tame(s, s.moused(action).0),
    }
}

// ── What the other messages leave alone ─────────────────────────────────────

/// Taking keys in changes the keys and the Open key's place among them, and
/// nothing else.
proof fn loading_adds_keys_only(
    s: StateView,
    names: Seq<Seq<u8>>,
    wanted: Option<Seq<u8>>,
    i: int,
)
    ensures
        ({
            let after = s.loading(names, wanted, i).0;
            &&& after == (StateView { keys: after.keys, open: after.open, ..s })
            &&& after.open is Some <==> s.open is Some
            &&& s.open is Some ==> after.open->0 == (OpenView {
                index: after.open->0.index,
                ..s.open->0
            })
        }),
    decreases names.len() - i,
{
    if i < names.len() && !s.keys.is_full() {
        loading_adds_keys_only(s.with_key(names[i], wanted), names, wanted, i + 1);
    }
}

proof fn describing_adds_no_key(keys: LoadedView, entries: Seq<MetadataEntry>, at_s: u32, n: int)
    ensures
        keys.described(entries, at_s, n).rows.len() == keys.rows.len(),
        keys.described(entries, at_s, n).cap == keys.cap,
    decreases n,
{
    if n > 0 {
        describing_adds_no_key(keys, entries, at_s, n - 1);
    }
}

proof fn burying_adds_no_key(keys: LoadedView, gone: Seq<usize>, n: int)
    ensures
        keys.buried(gone, n).rows.len() == keys.rows.len(),
        keys.buried(gone, n).cap == keys.cap,
    decreases n,
{
    if n > 0 {
        burying_adds_no_key(keys, gone, n - 1);
    }
}

/// Whether nothing is written, reads are as they should be, the cap holds if it
/// held, and a failure is still on screen if there was one.
#[verifier::opaque]
pub open spec fn lawful(s: StateView, outcome: Outcome) -> bool {
    &&& !executes(outcome.1)
    &&& reads_well(s, outcome)
    &&& outcome.0.keys.cap == s.keys.cap
    &&& s.keys.rows.len() <= s.keys.cap ==> outcome.0.keys.rows.len() <= outcome.0.keys.cap
    &&& s.error is Some ==> outcome.0.error is Some
}

/// Whether the session is live only if it was.
#[verifier::opaque]
pub open spec fn no_livelier(s: StateView, outcome: Outcome) -> bool {
    outcome.0.link.liveness() == Liveness::Live ==> s.link.liveness() == Liveness::Live
}

/// Whether what is being typed is as it was.
#[verifier::opaque]
pub open spec fn keeps_typing(s: StateView, outcome: Outcome) -> bool {
    s.typing() is Some ==> outcome.0.typing() == s.typing()
}

/// Whether every name is in the arena if it was.
#[verifier::opaque]
pub open spec fn keeps_names(s: StateView, outcome: Outcome) -> bool {
    s.keys.wf() ==> outcome.0.keys.wf()
}

proof fn describing_keeps_names(keys: LoadedView, entries: Seq<MetadataEntry>, at_s: u32, n: int)
    requires
        keys.wf(),
    ensures
        keys.described(entries, at_s, n).wf(),
    decreases n,
{
    if n > 0 {
        describing_keeps_names(keys, entries, at_s, n - 1);
        let e = entries[n - 1];
        let i = e.index as int;
        let before = keys.described(entries, at_s, n - 1);
        loaded::metadata_keeps_the_names(before, i, e.kind, e.ttl_seconds, at_s, e.size_bytes);
        let kinded = before.with_kind(i, e.kind);
        loaded::metadata_keeps_the_names(kinded, i, e.kind, e.ttl_seconds, at_s, e.size_bytes);
        let dated = kinded.with_ttl(i, e.ttl_seconds, at_s);
        loaded::metadata_keeps_the_names(dated, i, e.kind, e.ttl_seconds, at_s, e.size_bytes);
    }
}

proof fn burying_keeps_names(keys: LoadedView, gone: Seq<usize>, n: int)
    requires
        keys.wf(),
    ensures
        keys.buried(gone, n).wf(),
    decreases n,
{
    if n > 0 {
        burying_keeps_names(keys, gone, n - 1);
    }
}

proof fn loading_keeps_names(s: StateView, names: Seq<Seq<u8>>, wanted: Option<Seq<u8>>, i: int)
    requires
        0 <= i <= names.len(),
        s.keys.wf(),
        s.keys.arena.len() + scan::total_len(names, i) <= usize::MAX,
    ensures
        s.loading(names, wanted, i).0.keys.wf(),
    decreases names.len() - i,
{
    if i < names.len() && !s.keys.is_full() {
        loaded::a_loaded_key_keeps_its_place(s.keys, names[i]);
        loading_keeps_names(s.with_key(names[i], wanted), names, wanted, i + 1);
    }
}

/// Whether the names of a page of keys can be held.
pub open spec fn fits(s: StateView, msg: Msg) -> bool {
    match msg {
        Msg::ScanBatch { keys } => s.keys.arena.len() + scan::total_len(
            text::byte_strings(keys@),
            0,
        ) <= usize::MAX,
        _ => true,
    }
}

proof fn scanning_is_lawful(s: StateView, names: Seq<Seq<u8>>)
    ensures
        lawful(s, s.scan_batch(names)),
        no_livelier(s, s.scan_batch(names)),
        keeps_typing(s, s.scan_batch(names)),
        s.keys.arena.len() + scan::total_len(names, 0) <= usize::MAX ==> keeps_names(
            s,
            s.scan_batch(names),
        ),
{
    loading_adds_keys_only(s, names, s.looking_for(), 0);
    if s.keys.rows.len() <= s.keys.cap {
        scan::loading_keeps_to_the_cap(s, names, s.looking_for(), 0);
    }
    loading_keeps_the_cap(s, names, s.looking_for(), 0);
    let (loaded, full) = s.loading(names, s.looking_for(), 0);
    let counted = StateView {
        scan: match loaded.scan {
            ScanView::Running { estimated_total, .. } => ScanView::Running {
                scanned: loaded.keys.rows.len() as u64,
                estimated_total,
            },
            other => other,
        },
        ..loaded
    };
    rebuilding_is_tame(counted);
    reveal(tame);
    reveal(lawful);
    reveal(no_livelier);
    reveal(keeps_typing);
    reveal(keeps_names);
    if s.keys.wf() && s.keys.arena.len() + scan::total_len(names, 0) <= usize::MAX {
        loading_keeps_names(s, names, s.looking_for(), 0);
    }
}

proof fn loading_keeps_the_cap(s: StateView, names: Seq<Seq<u8>>, wanted: Option<Seq<u8>>, i: int)
    ensures
        s.loading(names, wanted, i).0.keys.cap == s.keys.cap,
    decreases names.len() - i,
{
    if i < names.len() && !s.keys.is_full() {
        loading_keeps_the_cap(s.with_key(names[i], wanted), names, wanted, i + 1);
    }
}

proof fn starting_a_scan_is_lawful(s: StateView, estimated_total: u64)
    ensures
        lawful(s, s.scan_started(estimated_total).unchanged()),
        no_livelier(s, s.scan_started(estimated_total).unchanged()),
        keeps_typing(s, s.scan_started(estimated_total).unchanged()),
        keeps_names(s, s.scan_started(estimated_total).unchanged()),
{
    let emptied = StateView {
        keys: s.keys.cleared(),
        open: match s.open {
            Some(open) => Some(OpenView { index: None, ..open }),
            None => None,
        },
        ..s
    };
    rebuilding_is_tame(emptied);
    reveal(tame);
    reveal(lawful);
    reveal(keeps_names);
    reveal(no_livelier);
    reveal(keeps_typing);
}

proof fn metadata_is_lawful(s: StateView, entries: Seq<MetadataEntry>, gone: Seq<usize>, at_ms: u64)
    ensures
        lawful(s, s.metadata_batch(entries, gone, at_ms)),
        no_livelier(s, s.metadata_batch(entries, gone, at_ms)),
        keeps_typing(s, s.metadata_batch(entries, gone, at_ms)),
        keeps_names(s, s.metadata_batch(entries, gone, at_ms)),
{
    one_read_is_a_read();
    let at_s = reads::seconds_of(at_ms);
    describing_adds_no_key(s.keys, entries, at_s, entries.len() as int);
    burying_adds_no_key(
        s.keys.described(entries, at_s, entries.len() as int),
        gone,
        gone.len() as int,
    );
    reveal(lawful);
    reveal(keeps_names);
    if s.keys.wf() {
        describing_keeps_names(s.keys, entries, at_s, entries.len() as int);
        burying_keeps_names(
            s.keys.described(entries, at_s, entries.len() as int),
            gone,
            gone.len() as int,
        );
    }
    reveal(no_livelier);
    reveal(keeps_typing);
}

proof fn replies_are_lawful(s: StateView, read: ValueReadView)
    ensures
        lawful(s, s.value_loaded(read).unchanged()),
        no_livelier(s, s.value_loaded(read).unchanged()),
        read.token != s.read_token || s.has_open(read.name) ==> keeps_typing(
            s,
            s.value_loaded(read).unchanged(),
        ),
        keeps_names(s, s.value_loaded(read).unchanged()),
{
    reveal(lawful);
    reveal(keeps_names);
    reveal(no_livelier);
    reveal(keeps_typing);
}

proof fn tombstones_are_lawful(
    s: StateView,
    token: ReadToken,
    index: Option<usize>,
    name: Seq<u8>,
    at_ms: u64,
)
    ensures
        lawful(s, s.value_gone(token, index, name, at_ms).unchanged()),
        no_livelier(s, s.value_gone(token, index, name, at_ms).unchanged()),
        token != s.read_token || s.has_open(name) ==> keeps_typing(
            s,
            s.value_gone(token, index, name, at_ms).unchanged(),
        ),
        keeps_names(s, s.value_gone(token, index, name, at_ms).unchanged()),
{
    reveal(lawful);
    reveal(keeps_names);
    reveal(no_livelier);
    reveal(keeps_typing);
}

proof fn answers_are_lawful(
    s: StateView,
    mutation: MutationView,
    index: Option<usize>,
    result: Result<MutationOutcome, String>,
    at_ms: u64,
)
    ensures
        lawful(s, s.mutation_settled(mutation, index, result, at_ms)),
        no_livelier(s, s.mutation_settled(mutation, index, result, at_ms)),
        keeps_typing(s, s.mutation_settled(mutation, index, result, at_ms)),
        keeps_names(s, s.mutation_settled(mutation, index, result, at_ms)),
{
    one_read_is_a_read();
    reveal(lawful);
    reveal(keeps_names);
    reveal(no_livelier);
    reveal(keeps_typing);
}

proof fn pasting_is_lawful(s: StateView, pasted: Seq<char>)
    ensures
        lawful(s, s.pasted(pasted)),
        no_livelier(s, s.pasted(pasted)),
        keeps_names(s, s.pasted(pasted)),
{
    relisting_is_tame(
        StateView { list: s.list.filtered_by(s.list.filter + text::one_line(pasted)), ..s },
    );
    reveal(tame);
    reveal(lawful);
    reveal(keeps_names);
    reveal(no_livelier);
}

proof fn connecting_is_lawful(s: StateView, version: Seq<char>, supported: bool)
    ensures
        lawful(s, s.connected(version, supported)),
        no_livelier(s, s.connected(version, supported)),
        keeps_typing(s, s.connected(version, supported)),
        keeps_names(s, s.connected(version, supported)),
{
    one_read_is_a_read();
    reveal(lawful);
    reveal(keeps_names);
    reveal(no_livelier);
    reveal(keeps_typing);
}

proof fn disconnecting_is_lawful(s: StateView, attempt: u32, retry_in_ms: u64)
    ensures
        lawful(s, s.disconnected()),
        no_livelier(s, s.disconnected()),
        keeps_typing(s, s.disconnected()),
        lawful(s, s.reconnecting(attempt, retry_in_ms)),
        no_livelier(s, s.reconnecting(attempt, retry_in_ms)),
        keeps_typing(s, s.reconnecting(attempt, retry_in_ms)),
        keeps_names(s, s.disconnected()),
        keeps_names(s, s.reconnecting(attempt, retry_in_ms)),
{
    reveal(lawful);
    reveal(keeps_names);
    reveal(no_livelier);
    reveal(keeps_typing);
}

proof fn arming_is_lawful(s: StateView)
    ensures
        lawful(s, s.with_link(s.link.armed()).unchanged()),
        keeps_typing(s, s.with_link(s.link.armed()).unchanged()),
        lawful(s, s.with_link(s.link.consumed()).refetched()),
        no_livelier(s, s.with_link(s.link.consumed()).refetched()),
        keeps_typing(s, s.with_link(s.link.consumed()).refetched()),
        keeps_names(s, s.with_link(s.link.armed()).unchanged()),
        keeps_names(s, s.with_link(s.link.consumed()).refetched()),
{
    one_read_is_a_read();
    reveal(lawful);
    reveal(keeps_names);
    reveal(no_livelier);
    reveal(keeps_typing);
}

proof fn resting_is_lawful(s: StateView, t: StateView)
    requires
        t.keys == s.keys,
        t.link == s.link,
        t.read_token == s.read_token,
        s.error is Some ==> t.error is Some,
        t.typing() == s.typing(),
    ensures
        lawful(s, t.unchanged()),
        no_livelier(s, t.unchanged()),
        keeps_typing(s, t.unchanged()),
        keeps_names(s, t.unchanged()),
{
    reveal(lawful);
    reveal(keeps_names);
    reveal(no_livelier);
    reveal(keeps_typing);
}

proof fn failing_is_lawful(s: StateView, command: Seq<char>, detail: Seq<char>, at_ms: u64)
    ensures
        lawful(s, s.failed(command, detail, at_ms).unchanged()),
        no_livelier(s, s.failed(command, detail, at_ms).unchanged()),
        keeps_typing(s, s.failed(command, detail, at_ms).unchanged()),
        keeps_names(s, s.failed(command, detail, at_ms).unchanged()),
{
    resting_is_lawful(s, s.failed(command, detail, at_ms));
}

proof fn quitting_is_lawful(s: StateView)
    ensures
        lawful(s, s.has_quit()),
        no_livelier(s, s.has_quit()),
        keeps_typing(s, s.has_quit()),
        keeps_names(s, s.has_quit()),
{
    reveal(lawful);
    reveal(keeps_names);
    reveal(no_livelier);
    reveal(keeps_typing);
}

proof fn the_mouse_is_lawful(s: StateView, action: MouseAction)
    ensures
        lawful(s, s.moused(action)),
        no_livelier(s, s.moused(action)),
        keeps_typing(s, s.moused(action)),
        keeps_names(s, s.moused(action)),
{
    the_mouse_is_tame(s, action);
    reveal(tame);
    reveal(lawful);
    reveal(keeps_names);
    reveal(no_livelier);
    reveal(keeps_typing);
}

/// Whether a message is no answer about a key other than the Open one.
pub open spec fn is_about_the_open_key(s: StateView, msg: Msg) -> bool {
    match msg {
        Msg::ValueLoaded { token, name, .. } => token != s.read_token || s.has_open(name@),
        Msg::ValueGone { token, name, .. } => token != s.read_token || s.has_open(name@),
        _ => true,
    }
}

#[verifier::spinoff_prover]
proof fn messages_are_lawful(s: StateView, msg: Msg)
    requires
        !(msg is Key),
    ensures
        lawful(s, s.updated(msg)),
        !(msg is TrackingArmed) ==> no_livelier(s, s.updated(msg)),
        !(msg is Paste) && is_about_the_open_key(s, msg) ==> keeps_typing(s, s.updated(msg)),
        fits(s, msg) ==> keeps_names(s, s.updated(msg)),
{
    match msg {
        Msg::Key(_) => {},
        Msg::Mouse(action) => the_mouse_is_lawful(s, action),
        Msg::Resized { cols, rows } => resting_is_lawful(s, s.resized(cols, rows)),
        Msg::ReadCompleted { at_ms } => resting_is_lawful(
            s,
            StateView { last_read_ms: Some(at_ms), ..s },
        ),
        Msg::ReadIssued { token, at_ms } => resting_is_lawful(s, s.read_dated(token, at_ms)),
        Msg::Connected { version, tracking_supported } => connecting_is_lawful(
            s,
            version@,
            tracking_supported,
        ),
        Msg::ConnectionLost => disconnecting_is_lawful(s, 0, 0),
        Msg::ReconnectScheduled { attempt, retry_in_ms } => disconnecting_is_lawful(
            s,
            attempt,
            retry_in_ms,
        ),
        Msg::TrackingArmed => arming_is_lawful(s),
        Msg::Invalidated => arming_is_lawful(s),
        Msg::ScanStarted { estimated_total } => starting_a_scan_is_lawful(s, estimated_total),
        Msg::ScanBatch { keys } => scanning_is_lawful(s, text::byte_strings(keys@)),
        Msg::MetadataBatch { entries, gone, at_ms } => metadata_is_lawful(
            s,
            entries@,
            gone@,
            at_ms,
        ),
        Msg::ScanComplete => resting_is_lawful(s, s.updated(msg).0),
        Msg::ScanCancelled => resting_is_lawful(s, s.updated(msg).0),
        Msg::ScanFailed { error } => resting_is_lawful(s, s.updated(msg).0),
        Msg::ValueLoaded { token, index, name, value, ttl_seconds, size_bytes, at_ms } => {
            replies_are_lawful(
                s,
                ValueReadView {
                    token,
                    index,
                    name: name@,
                    value: value@,
                    ttl_seconds,
                    size_bytes,
                    at_ms,
                },
            )
        },
        Msg::ValueGone { token, index, name, at_ms } => tombstones_are_lawful(
            s,
            token,
            index,
            name@,
            at_ms,
        ),
        Msg::Copied { label, at_ms } => resting_is_lawful(
            s,
            s.with_notice("copied "@ + label@, at_ms),
        ),
        Msg::Noticed { text, at_ms } => resting_is_lawful(s, s.with_notice(text@, at_ms)),
        Msg::ServerState { read_only, condition } => resting_is_lawful(s, s.updated(msg).0),
        Msg::Failed { command, detail, at_ms } => failing_is_lawful(s, command@, detail@, at_ms),
        Msg::Paste(pasted) => pasting_is_lawful(s, pasted@),
        Msg::MutationSettled { mutation, index, result, at_ms } => answers_are_lawful(
            s,
            mutation@,
            index,
            result,
            at_ms,
        ),
        Msg::Quit => quitting_is_lawful(s),
    }
}

// ── The laws ────────────────────────────────────────────────────────────────

/// A write is carried out for one reason only: it was staged and shown, a plain
/// `y` confirmed it, and this session writes. Then it is the write that was
/// shown, and nothing else happens.
pub proof fn a_write_is_confirmed(s: StateView, msg: Msg)
    ensures
        executes(s.updated(msg).1) <==> confirms(s, msg),
        confirms(s, msg) ==> s.updated(msg).1 == seq![s.confirm->0.command()],
{
    let commands = s.updated(msg).1;
    match msg {
        Msg::Key(key) => {
            if confirms(s, msg) {
                assert(s.mode() == Mode::Confirm);
                assert(commands == seq![s.confirm->0.command()]);
                assert(commands[0] is Execute);
            } else {
                pressing_is_tame(s, key);
                reveal(tame);
            }
        },
        _ => {
            messages_are_lawful(s, msg);
            reveal(lawful);
        },
    }
}

/// A message leads to one read at most. A read bears the next token, so that it
/// supersedes the others, it is the one that is waited for, for the same key in
/// the same place and without a date, and it arms tracking exactly if the link
/// can. Without a read the token stays, and so does what its reply answers.
pub proof fn every_read_is_the_latest(s: StateView, msg: Msg)
    ensures
        reads_well(s, s.updated(msg)),
{
    match msg {
        Msg::Key(key) => {
            if confirms(s, msg) {
                assert(s.mode() == Mode::Confirm);
                assert(s.updated(msg).1 == seq![s.confirm->0.command()]);
            } else {
                pressing_is_tame(s, key);
                reveal(tame);
            }
        },
        _ => {
            messages_are_lawful(s, msg);
            reveal(lawful);
        },
    }
}

/// No message takes the Loaded set past its cap.
pub proof fn the_cap_is_never_exceeded(s: StateView, msg: Msg)
    requires
        s.keys.rows.len() <= s.keys.cap,
    ensures
        s.updated(msg).0.keys.rows.len() <= s.updated(msg).0.keys.cap,
        s.updated(msg).0.keys.cap == s.keys.cap,
{
    match msg {
        Msg::Key(key) => {
            if confirms(s, msg) {
                assert(s.mode() == Mode::Confirm);
                assert(s.updated(msg).0.keys == s.keys);
            } else {
                pressing_is_tame(s, key);
                reveal(tame);
            }
        },
        _ => {
            messages_are_lawful(s, msg);
            reveal(lawful);
        },
    }
}

/// Whatever happens, the name of every loaded key can be read: no message leaves
/// a key whose name is not in the arena, as long as memory can hold the names.
pub proof fn every_name_stays_in_the_arena(s: StateView, msg: Msg)
    requires
        s.keys.wf(),
        fits(s, msg),
    ensures
        s.updated(msg).0.keys.wf(),
{
    match msg {
        Msg::Key(key) => {
            if confirms(s, msg) {
                assert(s.mode() == Mode::Confirm);
                assert(s.updated(msg).0.keys == s.keys);
            } else {
                pressing_is_tame(s, key);
                reveal(tame);
            }
        },
        _ => {
            messages_are_lawful(s, msg);
            reveal(keeps_names);
        },
    }
}

/// A failure stays on screen until the reader dismisses it: nothing but a key
/// takes it away.
pub proof fn an_error_stays_until_dismissed(s: StateView, msg: Msg)
    requires
        s.error is Some,
        !(msg is Key),
    ensures
        s.updated(msg).0.error is Some,
{
    messages_are_lawful(s, msg);
    reveal(lawful);
}

/// A reply that answers an older question changes nothing: not what is open, not
/// the list, not the read that is waited for.
pub proof fn a_stale_reply_changes_nothing(s: StateView, msg: Msg)
    requires
        match msg {
            Msg::ValueLoaded { token, .. } => token != s.read_token,
            Msg::ValueGone { token, .. } => token != s.read_token,
            Msg::ReadIssued { token, .. } => match s.open_pending {
                Some(read) => read.token != token,
                None => true,
            },
            _ => false,
        },
    ensures
        s.updated(msg) == s.unchanged(),
{
}

/// The session becomes live in one way only: the server accepts the arming, over
/// a link that is up and supports it.
pub proof fn only_an_arming_makes_it_live(s: StateView, msg: Msg)
    requires
        s.link.liveness() != Liveness::Live,
        s.updated(msg).0.link.liveness() == Liveness::Live,
    ensures
        msg is TrackingArmed,
        s.link matches LinkView::Up { tracking: Tracking::Available, .. },
{
    match msg {
        Msg::TrackingArmed => {},
        Msg::Key(key) => {
            if confirms(s, msg) {
                assert(s.mode() == Mode::Confirm);
                assert(s.updated(msg).0.link == s.link);
            } else {
                pressing_is_tame(s, key);
                reveal(tame);
            }
        },
        _ => {
            messages_are_lawful(s, msg);
            reveal(no_livelier);
        },
    }
}

/// What is being typed is the reader's: as long as no other key takes the Open
/// key's place, nothing but a key or a paste changes it or takes it away.
pub proof fn what_is_typed_stays(s: StateView, msg: Msg)
    requires
        s.typing() is Some,
        !(msg is Key),
        !(msg is Paste),
        is_about_the_open_key(s, msg),
    ensures
        s.updated(msg).0.typing() == s.typing(),
{
    messages_are_lawful(s, msg);
    reveal(keeps_typing);
}

/// The screen does not change under an edit: while one is under way, a read of
/// the Open key leaves the value and the cursor on screen as they are, unless it
/// reads back this session's own write.
pub proof fn an_edit_keeps_the_value_on_screen(s: StateView, read: ValueReadView)
    requires
        s.has_open(read.name),
        s.open->0.edit.is_editing(),
        !(s.open_pending is Some && s.open_pending->0.own_write),
    ensures
        ({
            let after = s.value_loaded(read).open->0;
            &&& after.value == s.open->0.value
            &&& after.cursor == s.open->0.cursor
            &&& after.edit == s.open->0.edit
        }),
{
}

/// A palette is not a second way to do things: choosing an action in it does
/// exactly what pressing the action's own key does once it is closed.
pub proof fn the_palette_does_what_the_key_does(s: StateView, enter: KeyPress, key: KeyPress)
    requires
        s.mode() == Mode::Palette,
        enter.code == KeyCode::Enter,
        s.palette->0.highlighted() is Some,
        keymap::lookup(s.keymap, key) == s.palette->0.highlighted(),
    ensures
        s.pressed(enter) == s.with_palette(None).pressed(key),
{
    let closed = s.with_palette(None);
    assert(closed.mode() == Mode::Normal);
}

/// `Enter` and the key that stages do the same in every text box but that of a
/// whole string: neither stages what the other refuses.
pub proof fn enter_stages_what_its_key_stages(s: StateView, enter: KeyPress, stage: KeyPress)
    requires
        s.typing() is Some,
        !s.typing()->0.target.is_single_line(),
        !(s.typing()->0.target is Value),
        enter.code == KeyCode::Enter,
        keymap::lookup(s.keymap, enter) != Some(Action::EditorUndo),
        keymap::lookup(s.keymap, enter) != Some(Action::EditorRedo),
        keymap::lookup(s.keymap, enter) != Some(Action::Cancel),
        keymap::lookup(s.keymap, stage) == Some(Action::EditorStage),
    ensures
        s.editor_key(enter) == s.editor_key(stage),
{
}

/// A staged write takes every key, then a buffer, then the filter, then the
/// palette; only where none of these is up does the keymap decide.
pub proof fn modes_have_one_order(s: StateView)
    ensures
        s.mode() == Mode::Confirm <==> s.confirm is Some,
        s.mode() == Mode::Editing <==> s.confirm is None && s.typing() is Some,
        s.mode() == Mode::Filtering <==> s.confirm is None && s.typing() is None && s.filtering,
        s.mode() == Mode::Normal ==> s.confirm is None && s.typing() is None && !s.filtering
            && s.palette is None,
{
}

/// A key that is bound to nothing changes nothing.
pub proof fn an_unbound_key_changes_nothing(s: StateView, key: KeyPress)
    requires
        s.mode() == Mode::Normal,
        keymap::lookup(s.keymap, key) is None,
    ensures
        s.pressed(key) == s.unchanged(),
{
}

/// A key whose pane is not on screen changes nothing.
pub proof fn a_hidden_pane_takes_no_key(s: StateView, key: KeyPress)
    requires
        s.mode() == Mode::Normal,
        keymap::lookup(s.keymap, key) is Some,
        !s.shows_pane_of(keymap::lookup(s.keymap, key)->0),
    ensures
        s.pressed(key) == s.unchanged(),
{
}

/// Whatever size the terminal gets, a filter that captures can be seen.
pub proof fn a_capturing_filter_is_on_screen(s: StateView, cols: u16, rows: u16)
    requires
        s.filtering,
    ensures
        s.resized(cols, rows).keys_pane_visible(),
        s.resized(cols, rows).filtering,
{
}

/// The guard against writes goes up and down at the reader's word, but a
/// replica's stays.
pub proof fn a_replicas_guard_is_not_lifted(s: StateView)
    ensures
        s.read_only == Some(ReadOnlyReason::Replica) ==> s.guard_toggled() == s,
        s.read_only is None ==> s.guard_toggled().guard_toggled() == s,
{
}

/// Opening a key asks for it and leaves what is on screen alone until the answer
/// comes.
pub proof fn opening_keeps_the_value_on_screen(s: StateView, activate_cursor: bool)
    ensures
        s.selected_read(activate_cursor).0.open == s.open,
{
}

/// A copy takes the whole value, wherever the reader is in it.
pub proof fn a_copy_does_not_depend_on_the_cursor(
    s: StateView,
    cursor: usize,
    offset: usize,
    what: CopyWhat,
)
    requires
        s.open is Some,
    ensures
        s.with_open(Some(OpenView { cursor, offset, ..s.open->0 })).copying(what) == s.copying(what),
{
}

} // verus!
