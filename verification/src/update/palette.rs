//! The command palette: open it, narrow it by typing, perform what is
//! highlighted, or dismiss it.

use vstd::prelude::*;

use crate::command::{nothing, Command};
use crate::input::{KeyCode, KeyPress};
use crate::state::palette::{PaletteState, PaletteView};
use crate::state::session::{State, StateView};
use crate::text;
use crate::update::{dispatch_action, Outcome};

verus! {

impl PaletteView {
    /// The palette after a key that does not close it.
    pub open spec fn keyed(self, key: KeyPress) -> PaletteView {
        match key.code {
            KeyCode::Up => self.moved(-1),
            KeyCode::Down => self.moved(1),
            KeyCode::Backspace => self.asking(text::without_last(self.query)),
            _ => match key.typed() {
                Some(c) => self.asking(self.query.push(c)),
                None => self,
            },
        }
    }
}

impl StateView {
    pub open spec fn with_palette(self, palette: Option<PaletteView>) -> StateView {
        StateView { palette, ..self }
    }

    /// A keypress while the palette is open. `Enter` closes it and does what
    /// pressing the highlighted action's own key would have done.
    pub open spec fn palette_key(self, key: KeyPress) -> Outcome {
        match self.palette {
            Some(palette) => {
                let closed = self.with_palette(None);
                match key.code {
                    KeyCode::Esc => closed.unchanged(),
                    KeyCode::Enter => match palette.highlighted() {
                        Some(action) => closed.performed(action),
                        None => closed.unchanged(),
                    },
                    _ => self.with_palette(Some(palette.keyed(key))).unchanged(),
                }
            },
            None => self.unchanged(),
        }
    }
}

/// Opens the palette, with every action listed.
pub fn open_palette(state: State) -> (r: (State, Vec<Command>))
    ensures
        r.0@ == state@.with_palette(Some(PaletteView::fresh())),
        Command::list(r.1@) == state@.unchanged().1,
{
    let mut next = state;
    next.palette = Some(PaletteState::new());
    (next, nothing())
}

fn type_key(palette: &mut PaletteState, key: KeyPress)
    ensures
        final(palette)@ == old(palette)@.keyed(key),
{
    match key.code {
        KeyCode::Up => palette.move_selection(-1),
        KeyCode::Down => palette.move_selection(1),
        KeyCode::Backspace => {
            palette.query.pop();
            palette.refresh();
        },
        KeyCode::Char(c) => {
            if !key.ctrl && !key.alt {
                palette.query.push(c);
                palette.refresh();
            }
        },
        _ => {},
    }
}

/// Takes a keypress while the palette is open.
pub fn palette_key(state: State, key: KeyPress) -> (r: (State, Vec<Command>))
    ensures
        r.0@ == state@.palette_key(key).0,
        Command::list(r.1@) == state@.palette_key(key).1,
{
    let mut next = state;
    if next.palette.is_none() {
        return (next, nothing());
    }
    match key.code {
        KeyCode::Esc => {
            next.palette = None;
            (next, nothing())
        },
        KeyCode::Enter => {
            let action = match &next.palette {
                Some(palette) => palette.highlighted(),
                None => None,
            };
            next.palette = None;
            match action {
                Some(action) => if action.pane_is_on_screen(&next) {
                    dispatch_action(next, action)
                } else {
                    (next, nothing())
                },
                None => (next, nothing()),
            }
        },
        _ => {
            if let Some(palette) = &mut next.palette {
                type_key(palette, key);
            }
            (next, nothing())
        },
    }
}

} // verus!
