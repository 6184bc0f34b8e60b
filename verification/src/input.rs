//! What the terminal reports: keys and the mouse, in the library's own words.

use vstd::prelude::*;

verus! {

#[derive(Clone, Copy, Debug, PartialEq, Eq, Structural)]
pub enum KeyCode {
    Char(char),
    Esc,
    Enter,
    Tab,
    Backspace,
    Delete,
    Up,
    Down,
    Left,
    Right,
    Home,
    End,
    PageUp,
    PageDown,
}

/// One keypress, with the modifiers that matter.
#[derive(Clone, Copy, Debug, PartialEq, Eq, Structural)]
pub struct KeyPress {
    pub code: KeyCode,
    pub ctrl: bool,
    pub alt: bool,
}

impl KeyPress {
    /// A key on its own.
    pub fn plain(code: KeyCode) -> (key: KeyPress)
        ensures
            key == (KeyPress { code, ctrl: false, alt: false }),
    {
        KeyPress { code, ctrl: false, alt: false }
    }

    /// A key held together with Control.
    pub fn ctrl(code: KeyCode) -> (key: KeyPress)
        ensures
            key == (KeyPress { code, ctrl: true, alt: false }),
    {
        KeyPress { code, ctrl: true, alt: false }
    }

    /// The character that this keypress types: one pressed without Control and
    /// without Alt.
    pub open spec fn typed(self) -> Option<char> {
        match self.code {
            KeyCode::Char(c) if !self.ctrl && !self.alt => Some(c),
            _ => None,
        }
    }
}

/// What the mouse did, in terminal cells.
#[derive(Clone, Copy, Debug, PartialEq, Eq, Structural)]
pub enum MouseAction {
    Down { col: u16, row: u16 },
    Drag { col: u16, row: u16 },
    Up,
    ScrollUp { col: u16, row: u16 },
    ScrollDown { col: u16, row: u16 },
}

} // verus!
