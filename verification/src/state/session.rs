//! Everything a session holds between two messages.

use vstd::prelude::*;

use crate::command::ReadToken;
use crate::input::KeyPress;
use crate::keymap::{self, Action, Keymap};
use crate::layout::{self, Pane, Rect, TWO_PANE_COLS};
use crate::state::loaded::{LoadedSet, LoadedView, DEFAULT_CAP};
use crate::state::open::{HeldView, OpenKey, OpenView};
use crate::state::palette::{PaletteState, PaletteView};
use crate::state::pending::{PendingMutation, PendingView};
use crate::state::status::{
    Attachment, Connection, ConnectionView, Environment, Link, LinkView, Liveness, PendingRead, PendingReadView,
    ReadOnlyReason, ScanState, ScanView, ServerCondition, Viewport,
};
use crate::state::tree::{Tree, TreeModel};
use crate::state::view::{FilterMode, ListModel, ListView, SortBy};

verus! {

#[derive(Clone, Debug, PartialEq)]
pub struct State {
    pub cols: u16,
    pub rows: u16,
    pub focus: Pane,
    /// How far the divider stands from where it would stand by itself.
    pub split_adjust: i16,
    /// Whether the divider is being dragged.
    pub resizing_split: bool,
    pub keys: LoadedSet,
    pub list: ListView,
    pub tree: Tree,
    pub tree_mode: bool,
    /// Where the reader is in the key list.
    pub view: Viewport,
    /// Whether the filter is capturing what is typed.
    pub filtering: bool,
    pub open: Option<OpenKey>,
    pub open_pending: Option<PendingRead>,
    /// The token of the latest read.
    pub read_token: ReadToken,
    pub link: Link,
    pub scan: ScanState,
    /// The write waiting to be confirmed.
    pub confirm: Option<PendingMutation>,
    pub notice: Option<(String, u64)>,
    pub error: Option<(String, u64)>,
    pub help_open: bool,
    pub read_only: Option<ReadOnlyReason>,
    pub condition: Option<ServerCondition>,
    pub connection: Connection,
    pub keymap: Keymap,
    pub last_read_ms: Option<u64>,
    pub quitting: bool,
    pub palette: Option<PaletteState>,
}

/// What a session holds.
#[verifier::ext_equal]
pub struct StateView {
    pub cols: u16,
    pub rows: u16,
    pub focus: Pane,
    pub split_adjust: i16,
    pub resizing_split: bool,
    pub keys: LoadedView,
    pub list: ListModel,
    pub tree: TreeModel,
    pub tree_mode: bool,
    pub view: Viewport,
    pub filtering: bool,
    pub open: Option<OpenView>,
    pub open_pending: Option<PendingReadView>,
    pub read_token: ReadToken,
    pub link: LinkView,
    pub scan: ScanView,
    pub confirm: Option<PendingView>,
    pub notice: Option<(Seq<char>, u64)>,
    pub error: Option<(Seq<char>, u64)>,
    pub help_open: bool,
    pub read_only: Option<ReadOnlyReason>,
    pub condition: Option<ServerCondition>,
    pub connection: ConnectionView,
    pub keymap: Seq<(KeyPress, Action)>,
    pub last_read_ms: Option<u64>,
    pub quitting: bool,
    pub palette: Option<PaletteView>,
}

/// A dated text, as it is shown.
pub open spec fn dated(text: Option<(String, u64)>) -> Option<(Seq<char>, u64)> {
    match text {
        Some((text, at_ms)) => Some((text@, at_ms)),
        None => None,
    }
}

impl View for State {
    type V = StateView;

    open spec fn view(&self) -> StateView {
        StateView {
            cols: self.cols,
            rows: self.rows,
            focus: self.focus,
            split_adjust: self.split_adjust,
            resizing_split: self.resizing_split,
            keys: self.keys@,
            list: self.list@,
            tree: self.tree@,
            tree_mode: self.tree_mode,
            view: self.view,
            filtering: self.filtering,
            open: match self.open {
                Some(open) => Some(open@),
                None => None,
            },
            open_pending: match self.open_pending {
                Some(read) => Some(read@),
                None => None,
            },
            read_token: self.read_token,
            link: self.link@,
            scan: self.scan@,
            confirm: match self.confirm {
                Some(pending) => Some(pending@),
                None => None,
            },
            notice: dated(self.notice),
            error: dated(self.error),
            help_open: self.help_open,
            read_only: self.read_only,
            condition: self.condition,
            connection: self.connection@,
            keymap: self.keymap@,
            last_read_ms: self.last_read_ms,
            quitting: self.quitting,
            palette: match self.palette {
                Some(palette) => Some(palette@),
                None => None,
            },
        }
    }
}

/// How long a notice stays on screen.
pub const NOTICE_MS: u64 = 3_000;

/// The rows of the terminal that are not rows of the key list.
pub const CHROME_ROWS: u16 = 3;

impl StateView {
    /// A session in which nothing has happened yet.
    pub open spec fn fresh() -> StateView {
        StateView {
            cols: 0,
            rows: 0,
            focus: Pane::Keys,
            split_adjust: 0,
            resizing_split: false,
            keys: LoadedView { arena: Seq::empty(), rows: Seq::empty(), cap: DEFAULT_CAP },
            list: ListModel {
                filter: Seq::empty(),
                sort: SortBy::Scan,
                mode: FilterMode::Glob,
                order: Seq::empty(),
            },
            tree: TreeModel { separator: ':', collapsed: Set::empty(), rows: Seq::empty() },
            tree_mode: false,
            view: Viewport { offset: 0, selected: 0 },
            filtering: false,
            open: None,
            open_pending: None,
            read_token: ReadToken { number: 0 },
            link: LinkView::Connecting,
            scan: ScanView::Idle,
            confirm: None,
            notice: None,
            error: None,
            help_open: false,
            read_only: None,
            condition: None,
            connection: ConnectionView {
                target: "127.0.0.1:6379/0"@,
                environment: Environment::Local,
                source: "from default"@,
            },
            keymap: keymap::default_bindings(),
            last_read_ms: None,
            quitting: false,
            palette: None,
        }
    }

    pub open spec fn keys_pane_visible(self) -> bool {
        self.cols >= TWO_PANE_COLS || self.focus == Pane::Keys
    }

    pub open spec fn value_pane_visible(self) -> bool {
        self.cols >= TWO_PANE_COLS || self.focus == Pane::Value
    }

    pub open spec fn split_is_adjustable(self) -> bool {
        self.cols >= TWO_PANE_COLS
    }

    /// How many rows of the key list fit on screen.
    pub open spec fn visible_rows(self) -> usize {
        if self.rows > CHROME_ROWS {
            (self.rows - CHROME_ROWS) as usize
        } else {
            0
        }
    }

    pub open spec fn row_count(self) -> nat {
        if self.tree_mode {
            self.tree.rows.len()
        } else {
            self.list.order.len()
        }
    }

    /// The key on a row, where the row has one.
    pub open spec fn key_at(self, row: int) -> Option<usize> {
        if self.tree_mode {
            self.tree.key_at(row)
        } else {
            self.list.at(row)
        }
    }

    pub open spec fn selected_key(self) -> Option<usize> {
        self.key_at(self.view.selected as int)
    }

    /// The first of the rows from `from` on that key `index` is on.
    pub open spec fn row_from(self, index: usize, from: int) -> Option<usize>
        decreases self.row_count() - from,
    {
        if from >= self.row_count() {
            None
        } else if self.key_at(from) == Some(index) {
            Some(from as usize)
        } else {
            self.row_from(index, from + 1)
        }
    }

    /// The row that key `index` is on.
    pub open spec fn row_of(self, index: usize) -> Option<usize> {
        self.row_from(index, 0)
    }

    /// Where the Open key stands relative to the cursor of the key list.
    pub open spec fn attachment(self) -> Option<Attachment> {
        match self.open {
            Some(open) => match open.row {
                Some(row) => if row == self.view.selected {
                    Some(Attachment::Attached)
                } else {
                    Some(Attachment::Detached { rows: (row - self.view.selected) as i128 })
                },
                None => Some(Attachment::DetachedOffList),
            },
            None => None,
        }
    }

    pub open spec fn with_open(self, open: Option<OpenView>) -> StateView {
        StateView { open, ..self }
    }

    pub open spec fn with_selected(self, selected: usize) -> StateView {
        StateView { view: Viewport { offset: self.view.offset, selected }, ..self }
    }

    /// The Open key told which row it is on.
    pub open spec fn relocated(self) -> StateView {
        match self.open {
            Some(open) => self.with_open(
                Some(
                    OpenView {
                        row: match open.index {
                            Some(index) => self.row_of(index),
                            None => None,
                        },
                        ..open
                    },
                ),
            ),
            None => self,
        }
    }

    /// The list, and the tree where it is shown, made anew. The tree needs the
    /// order of the names.
    pub open spec fn relisted(self) -> StateView {
        let list = if self.tree_mode {
            self.list.sorted_by(SortBy::Name).rebuilt(self.keys)
        } else {
            self.list.rebuilt(self.keys)
        };
        StateView {
            list,
            tree: if self.tree_mode {
                self.tree.rebuilt(self.keys, list.order)
            } else {
                self.tree.without_rows()
            },
            ..self
        }
    }

    /// The row to select after the list was made anew: that of the key that was
    /// selected, else the top; and where no key was selected, the same row as
    /// far as there is one.
    pub open spec fn reselected(self, key: Option<usize>) -> usize {
        match key {
            Some(index) => match self.row_of(index) {
                Some(row) => row,
                None => 0,
            },
            None => if self.view.selected < self.row_count() {
                self.view.selected
            } else if self.row_count() == 0 {
                0
            } else {
                (self.row_count() - 1) as usize
            },
        }
    }

    pub open spec fn rebuilt(self) -> StateView {
        let fresh = self.relisted();
        fresh.with_selected(fresh.reselected(self.selected_key())).relocated()
    }

    /// Which of the keys on rows `from` to `to` nothing but the name is known of.
    pub open spec fn bare_keys(self, from: int, to: int) -> Seq<usize>
        decreases to - from,
    {
        if from >= to {
            Seq::empty()
        } else {
            let before = self.bare_keys(from, to - 1);
            match self.key_at(to - 1) {
                Some(index) => if self.keys.kind(index as int) is None {
                    before.push(index)
                } else {
                    before
                },
                None => before,
            }
        }
    }

    /// The row below the last one on screen.
    pub open spec fn bottom(self) -> int {
        if self.view.offset + self.visible_rows() < self.row_count() {
            self.view.offset + self.visible_rows()
        } else {
            self.row_count() as int
        }
    }

    /// The keys on screen of which the type is not known.
    pub open spec fn needing_metadata(self) -> Seq<usize> {
        self.bare_keys(self.view.offset as int, self.bottom())
    }

    pub open spec fn area(self) -> Rect {
        Rect { x: 0, y: 0, width: self.cols, height: self.rows }
    }

    /// How wide a string is wrapped: the value pane, less a margin.
    pub open spec fn wrap_width(self) -> nat {
        match layout::plan(self.area(), Pane::Value, self.split_adjust as int).value {
            Some(pane) => if pane.width > 3 {
                (pane.width - 2) as nat
            } else {
                1
            },
            None => 1,
        }
    }

    /// The Open value wrapped to its pane.
    pub open spec fn rewrapped(self) -> StateView {
        match self.open {
            Some(open) => self.with_open(
                Some(
                    OpenView {
                        value: match open.value {
                            Some(value) => Some(value.rewrapped(self.wrap_width())),
                            None => None,
                        },
                        pending: match open.pending {
                            Some(held) => Some(
                                HeldView { value: held.value.rewrapped(self.wrap_width()), ..held },
                            ),
                            None => None,
                        },
                        ..open
                    },
                ),
            ),
            None => self,
        }
    }

    /// The notice to show at a time.
    pub open spec fn notice_at(self, now_ms: u64) -> Option<Seq<char>> {
        match self.notice {
            Some((text, at_ms)) => if now_ms < at_ms + NOTICE_MS {
                Some(text)
            } else {
                None
            },
            None => None,
        }
    }
}

impl Default for State {
    fn default() -> (state: State)
        ensures
            state@ == StateView::fresh(),
    {
        State {
            cols: 0,
            rows: 0,
            focus: Pane::Keys,
            split_adjust: 0,
            resizing_split: false,
            keys: LoadedSet::default(),
            list: ListView::default(),
            tree: Tree::default(),
            tree_mode: false,
            view: Viewport { offset: 0, selected: 0 },
            filtering: false,
            open: None,
            open_pending: None,
            read_token: ReadToken { number: 0 },
            link: Link::Connecting,
            scan: ScanState::Idle,
            confirm: None,
            notice: None,
            error: None,
            help_open: false,
            read_only: None,
            condition: None,
            connection: Connection::default(),
            keymap: Keymap::default(),
            last_read_ms: None,
            quitting: false,
            palette: None,
        }
    }
}

impl State {
    pub const NOTICE_MS: u64 = NOTICE_MS;

    /// Whether a read issued now arms tracking.
    pub fn read_arms_tracking(&self) -> (arms: bool)
        ensures
            arms == self@.link.arms(),
    {
        self.link.arms()
    }

    pub fn liveness(&self) -> (liveness: Liveness)
        ensures
            liveness == self@.link.liveness(),
    {
        self.link.liveness()
    }

    pub fn keys_pane_visible(&self) -> (visible: bool)
        ensures
            visible == self@.keys_pane_visible(),
    {
        self.cols >= TWO_PANE_COLS || self.focus == Pane::Keys
    }

    pub fn value_pane_visible(&self) -> (visible: bool)
        ensures
            visible == self@.value_pane_visible(),
    {
        self.cols >= TWO_PANE_COLS || self.focus == Pane::Value
    }

    pub fn keys_pane_focused(&self) -> (focused: bool)
        ensures
            focused == (self@.focus == Pane::Keys),
    {
        self.focus == Pane::Keys
    }

    pub fn split_is_adjustable(&self) -> (adjustable: bool)
        ensures
            adjustable == self@.split_is_adjustable(),
    {
        self.cols >= TWO_PANE_COLS
    }

    /// How many rows of the key list fit on screen.
    pub fn visible_rows(&self) -> (rows: usize)
        ensures
            rows == self@.visible_rows(),
    {
        if self.rows > CHROME_ROWS {
            (self.rows - CHROME_ROWS) as usize
        } else {
            0
        }
    }

    pub fn row_count(&self) -> (rows: usize)
        ensures
            rows == self@.row_count(),
    {
        if self.tree_mode {
            self.tree.len()
        } else {
            self.list.len()
        }
    }

    /// The key on a row, where the row has one.
    pub fn key_at(&self, row: usize) -> (index: Option<usize>)
        ensures
            index == self@.key_at(row as int),
    {
        if self.tree_mode {
            self.tree.key_index(row)
        } else {
            self.list.index_at(row)
        }
    }

    pub fn selected_key(&self) -> (index: Option<usize>)
        ensures
            index == self@.selected_key(),
    {
        self.key_at(self.view.selected)
    }

    /// The row that key `index` is on.
    pub fn row_of(&self, index: usize) -> (row: Option<usize>)
        ensures
            row == self@.row_of(index),
    {
        let n: usize = self.row_count();
        let mut row: usize = 0;
        while row < n
            invariant
                row <= n,
                n == self@.row_count(),
                self@.row_from(index, row as int) == self@.row_of(index),
            decreases n - row,
        {
            if self.key_at(row) == Some(index) {
                return Some(row);
            }
            row = row + 1;
        }
        None
    }

    /// Where the Open key stands relative to the cursor of the key list.
    pub fn attachment(&self) -> (attachment: Option<Attachment>)
        ensures
            attachment == self@.attachment(),
    {
        match &self.open {
            Some(open) => match open.row {
                Some(row) => if row == self.view.selected {
                    Some(Attachment::Attached)
                } else {
                    Some(Attachment::Detached { rows: row as i128 - self.view.selected as i128 })
                },
                None => Some(Attachment::DetachedOffList),
            },
            None => None,
        }
    }

    /// Finds the row that the Open key is on.
    pub fn relocate_open_key(&mut self)
        ensures
            final(self)@ == old(self)@.relocated(),
    {
        let index: Option<usize> = match &self.open {
            Some(open) => open.index,
            None => None,
        };
        let row: Option<usize> = match index {
            Some(index) => self.row_of(index),
            None => None,
        };
        if let Some(open) = &mut self.open {
            open.row = row;
        }
    }

    /// Lists the keys anew. The cursor stays on the key it was on.
    pub fn rebuild_list(&mut self)
        ensures
            final(self)@ == old(self)@.rebuilt(),
    {
        let key = self.selected_key();
        if self.tree_mode {
            self.list.set_sort(SortBy::Name);
            self.list.rebuild(&self.keys);
            self.tree.rebuild(&self.keys, &self.list);
        } else {
            self.list.rebuild(&self.keys);
            self.tree.clear();
        }
        assert(self@ == old(self)@.relisted());
        let n: usize = self.row_count();
        let selected: usize = match key {
            Some(index) => match self.row_of(index) {
                Some(row) => row,
                None => 0,
            },
            None => if self.view.selected < n {
                self.view.selected
            } else if n == 0 {
                0
            } else {
                n - 1
            },
        };
        self.view = Viewport { offset: self.view.offset, selected };
        self.relocate_open_key();
    }

    /// The keys on screen of which the type is not known.
    pub fn rows_needing_metadata(&self) -> (indices: Vec<usize>)
        ensures
            indices@ == self@.needing_metadata(),
    {
        let n: usize = self.row_count();
        let height: usize = self.visible_rows();
        let from: usize = self.view.offset;
        let mut indices: Vec<usize> = Vec::new();
        if from >= n {
            return indices;
        }
        let to: usize = if n - from > height {
            from + height
        } else {
            n
        };
        let mut row: usize = from;
        while row < to
            invariant
                from <= row <= to,
                indices@ == self@.bare_keys(from as int, row as int),
            decreases to - row,
        {
            if let Some(index) = self.key_at(row) {
                if self.keys.kind(index).is_none() {
                    indices.push(index);
                }
            }
            row = row + 1;
        }
        indices
    }

    /// How wide a string is wrapped.
    pub fn value_wrap_width(&self) -> (width: usize)
        ensures
            width == self@.wrap_width(),
    {
        let area = Rect::new(0, 0, self.cols, self.rows);
        match layout::layout(area, Pane::Value, self.split_adjust).value {
            Some(pane) => if pane.width > 3 {
                (pane.width - 2) as usize
            } else {
                1
            },
            None => 1,
        }
    }

    /// Wraps the Open value to its pane.
    pub fn rewrap_open(&mut self)
        ensures
            final(self)@ == old(self)@.rewrapped(),
    {
        let width: usize = self.value_wrap_width();
        if let Some(open) = &mut self.open {
            if let Some(value) = &mut open.value {
                value.rewrap(width);
            }
            if let Some(held) = &mut open.pending {
                held.value.rewrap(width);
            }
        }
    }

    /// The failure to show.
    pub fn error_text(&self) -> (shown: Option<&str>)
        ensures
            shown is Some <==> self@.error is Some,
            shown is Some ==> shown->0@ == (self@.error->0).0,
    {
        match &self.error {
            Some((text, _)) => Some(text.as_str()),
            None => None,
        }
    }

    /// The notice to show at a time: one fades by itself.
    pub fn notice_now(&self, now_ms: u64) -> (shown: Option<&str>)
        ensures
            shown is Some <==> self@.notice_at(now_ms) is Some,
            shown is Some ==> shown->0@ == self@.notice_at(now_ms)->0,
    {
        match &self.notice {
            Some((text, at_ms)) => if now_ms < *at_ms || now_ms - *at_ms < NOTICE_MS {
                Some(text.as_str())
            } else {
                None
            },
            None => None,
        }
    }

    /// Whether the reader can lift the guard against writes.
    pub fn read_only_liftable(&self) -> (liftable: bool)
        ensures
            liftable == (self@.read_only is Some && self@.read_only
                != Some(ReadOnlyReason::Replica)),
    {
        match self.read_only {
            Some(ReadOnlyReason::Replica) => false,
            Some(_) => true,
            None => false,
        }
    }
}

/// A key is found on the first row that shows it, and not found where no row
/// does.
pub proof fn a_key_is_found_on_its_row(s: StateView, index: usize)
    requires
        s.row_count() <= usize::MAX,
    ensures
        match s.row_of(index) {
            Some(row) => row < s.row_count() && s.key_at(row as int) == Some(index) && forall|r: int|
                0 <= r < row ==> #[trigger] s.key_at(r) != Some(index),
            None => forall|r: int|
                0 <= r < s.row_count() ==> #[trigger] s.key_at(r) != Some(index),
        },
{
    found_from(s, index, 0);
}

proof fn found_from(s: StateView, index: usize, from: int)
    requires
        s.row_count() <= usize::MAX,
        0 <= from,
    ensures
        match s.row_from(index, from) {
            Some(row) => from <= row < s.row_count() && s.key_at(row as int) == Some(index)
                && forall|r: int| from <= r < row ==> #[trigger] s.key_at(r) != Some(index),
            None => forall|r: int|
                from <= r < s.row_count() ==> #[trigger] s.key_at(r) != Some(index),
        },
    decreases s.row_count() - from,
{
    if from < s.row_count() && s.key_at(from) != Some(index) {
        found_from(s, index, from + 1);
    }
}

/// The cursor follows the key, not the row: however the list is made anew, the
/// key that was selected still is, if the list still shows it; and if not, the
/// cursor is at the top.
pub proof fn the_selected_key_stays_selected(s: StateView, index: usize)
    requires
        s.selected_key() == Some(index),
        s.relisted().row_count() <= usize::MAX,
    ensures
        match s.relisted().row_of(index) {
            Some(_) => s.rebuilt().selected_key() == Some(index),
            None => s.rebuilt().view.selected == 0,
        },
{
    a_key_is_found_on_its_row(s.relisted(), index);
}

/// Metadata is asked for what is on screen and unknown, and for nothing else.
pub proof fn only_unknown_keys_on_screen_are_asked_for(s: StateView, i: int)
    requires
        0 <= i < s.needing_metadata().len(),
    ensures
        s.keys.kind(s.needing_metadata()[i] as int) is None,
        exists|row: int|
            s.view.offset <= row < s.view.offset + s.visible_rows() && #[trigger] s.key_at(row)
                == Some(s.needing_metadata()[i]),
{
    bare_keys_are_on_their_rows(s, s.view.offset as int, s.bottom(), i);
}

proof fn bare_keys_are_on_their_rows(s: StateView, from: int, to: int, i: int)
    requires
        0 <= i < s.bare_keys(from, to).len(),
    ensures
        s.keys.kind(s.bare_keys(from, to)[i] as int) is None,
        exists|row: int|
            from <= row < to && #[trigger] s.key_at(row) == Some(s.bare_keys(from, to)[i]),
    decreases to - from,
{
    if from < to {
        let before = s.bare_keys(from, to - 1);
        if i < before.len() {
            bare_keys_are_on_their_rows(s, from, to - 1, i);
        } else {
            assert(s.key_at(to - 1) == Some(s.bare_keys(from, to)[i]));
        }
    }
}

/// A notice fades by itself.
pub proof fn a_notice_fades(s: StateView, now_ms: u64)
    requires
        s.notice is Some,
    ensures
        s.notice_at(now_ms) is Some <==> now_ms < (s.notice->0).1 + NOTICE_MS,
{
}

} // verus!
