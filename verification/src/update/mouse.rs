//! The mouse: it focuses a pane, scrolls it, and drags the divider.

use vstd::prelude::*;

use crate::command::{nothing, Command};
use crate::input::MouseAction;
use crate::layout::{self, Layout, Pane, Rect};
use crate::state::open::OpenView;
use crate::state::session::{State, StateView};
use crate::update::keys::move_selection;
use crate::update::viewer::move_cursor;
use crate::update::Outcome;

verus! {

/// How many rows one notch of the wheel moves.
pub const MOUSE_SCROLL_ROWS: isize = 3;

impl Layout {
    /// The pane that a cell belongs to, if it belongs to one.
    pub open spec fn pane(self, col: u16, row: u16) -> Option<Pane> {
        if self.keys.holds(col, row) {
            Some(Pane::Keys)
        } else if self.value is Some && self.value->0.holds(col, row) {
            Some(Pane::Value)
        } else {
            None
        }
    }

    /// Whether a cell is on the divider between the panes.
    pub open spec fn on_divider(self, col: u16, row: u16) -> bool {
        match self.value {
            Some(value) => (col == value.x - 1 || (value.x == 0 && col == 0)) && self.keys.y <= row
                < self.keys.y + self.keys.height,
            None => false,
        }
    }
}

/// An offset as sixteen bits hold it.
pub open spec fn wrapped(v: int) -> int {
    if v > i16::MAX {
        v - 65536
    } else if v < i16::MIN {
        v + 65536
    } else {
        v
    }
}

impl StateView {
    /// The layout on screen.
    pub open spec fn plan(self) -> Layout {
        layout::plan(self.area(), self.focus, self.split_adjust as int)
    }

    /// The divider dragged to a column.
    pub open spec fn split_at(self, col: u16) -> StateView {
        let base = layout::plan(self.area(), self.focus, 0).keys.width;
        StateView { split_adjust: wrapped(col - base) as i16, ..self }.rewrapped()
    }

    /// The pane under the wheel focused and scrolled.
    pub open spec fn scrolled(self, col: u16, row: u16, rows: int) -> Outcome {
        match self.plan().pane(col, row) {
            Some(Pane::Keys) => StateView { focus: Pane::Keys, ..self }.selection_moved(rows),
            Some(Pane::Value) => StateView {
                focus: Pane::Value,
                open: match self.open {
                    Some(open) => Some(OpenView { cursor_active: true, ..open }),
                    None => None,
                },
                ..self
            }.cursor_moved(rows).unchanged(),
            None => self.unchanged(),
        }
    }

    /// What the mouse did.
    pub open spec fn moused(self, action: MouseAction) -> Outcome {
        match action {
            MouseAction::Down { col, row } => if self.split_is_adjustable()
                && self.plan().on_divider(col, row) {
                StateView { resizing_split: true, ..self }.unchanged()
            } else {
                match self.plan().pane(col, row) {
                    Some(pane) => StateView { focus: pane, ..self }.unchanged(),
                    None => self.unchanged(),
                }
            },
            MouseAction::Drag { col, .. } => if self.resizing_split {
                self.split_at(col).unchanged()
            } else {
                self.unchanged()
            },
            MouseAction::Up => StateView { resizing_split: false, ..self }.unchanged(),
            MouseAction::ScrollUp { col, row } => self.scrolled(col, row, -MOUSE_SCROLL_ROWS),
            MouseAction::ScrollDown { col, row } => self.scrolled(
                col,
                row,
                MOUSE_SCROLL_ROWS as int,
            ),
        }
    }
}

fn screen(state: &State) -> (area: Rect)
    ensures
        area == state@.area(),
        area.fits(),
{
    Rect::new(0, 0, state.cols, state.rows)
}

/// The pane that a cell belongs to, if it belongs to one.
pub fn pane_at(plan: &Layout, col: u16, row: u16) -> (pane: Option<Pane>)
    ensures
        pane == plan.pane(col, row),
{
    if plan.keys.contains(col, row) {
        return Some(Pane::Keys);
    }
    match plan.value {
        Some(value) => if value.contains(col, row) {
            Some(Pane::Value)
        } else {
            None
        },
        None => None,
    }
}

fn on_divider(plan: &Layout, col: u16, row: u16) -> (r: bool)
    ensures
        r == plan.on_divider(col, row),
{
    match plan.value {
        Some(value) => {
            let edge: u16 = if value.x > 0 {
                value.x - 1
            } else {
                0
            };
            col == edge && row >= plan.keys.y && ((row - plan.keys.y) as u16) < plan.keys.height
        },
        None => false,
    }
}

fn offset_from(col: u16, base: u16) -> (offset: i16)
    ensures
        offset == wrapped(col - base),
{
    let wide: i32 = col as i32 - base as i32;
    if wide > 32767 {
        (wide - 65536) as i16
    } else if wide < -32768 {
        (wide + 65536) as i16
    } else {
        wide as i16
    }
}

/// Scrolls the pane under the wheel, focused or not, and focuses it, so that the
/// next key acts on what was scrolled.
fn scroll_at(state: State, plan: &Layout, col: u16, row: u16, rows: isize) -> (r: (
    State,
    Vec<Command>,
))
    requires
        *plan == state@.plan(),
    ensures
        r.0@ == state@.scrolled(col, row, rows as int).0,
        Command::list(r.1@) == state@.scrolled(col, row, rows as int).1,
{
    let mut next = state;
    match pane_at(plan, col, row) {
        Some(Pane::Keys) => {
            next.focus = Pane::Keys;
            move_selection(next, rows)
        },
        Some(Pane::Value) => {
            next.focus = Pane::Value;
            if let Some(open) = &mut next.open {
                open.cursor_active = true;
            }
            move_cursor(next, rows)
        },
        None => (next, nothing()),
    }
}

/// Takes in what the mouse did.
pub fn mouse_action(state: State, action: MouseAction) -> (r: (State, Vec<Command>))
    ensures
        r.0@ == state@.moused(action).0,
        Command::list(r.1@) == state@.moused(action).1,
{
    let area = screen(&state);
    let plan = layout::layout(area, state.focus, state.split_adjust);
    match action {
        MouseAction::Down { col, row } => {
            let mut next = state;
            if next.split_is_adjustable() && on_divider(&plan, col, row) {
                next.resizing_split = true;
            } else if let Some(pane) = pane_at(&plan, col, row) {
                next.focus = pane;
            }
            (next, nothing())
        },
        MouseAction::Drag { col, .. } => {
            let mut next = state;
            if next.resizing_split {
                let base: u16 = layout::layout(area, next.focus, 0).keys.width;
                next.split_adjust = offset_from(col, base);
                next.rewrap_open();
            }
            (next, nothing())
        },
        MouseAction::Up => {
            let mut next = state;
            next.resizing_split = false;
            (next, nothing())
        },
        MouseAction::ScrollUp { col, row } => scroll_at(state, &plan, col, row, -MOUSE_SCROLL_ROWS),
        MouseAction::ScrollDown { col, row } => scroll_at(state, &plan, col, row, MOUSE_SCROLL_ROWS),
    }
}

/// Dragging puts the divider where the pointer is: with both panes on screen
/// and the pointer where neither pane gets too narrow, the keys pane becomes as
/// wide as the column it is dragged to.
pub proof fn the_divider_follows_the_pointer(s: StateView, col: u16)
    requires
        s.split_is_adjustable(),
        layout::MIN_PANE_COLS <= col,
        col + 1 + layout::MIN_PANE_COLS <= s.cols,
        col - s.cols * 2 / 5 <= i16::MAX,
    ensures
        s.split_at(col).plan().keys.width == col,
{
}

} // verus!
