//! Where the two panes stand on a terminal of a given size.

use vstd::prelude::*;

verus! {

/// A rectangle of terminal cells.
#[derive(Clone, Copy, Debug, PartialEq, Eq, Structural)]
pub struct Rect {
    pub x: u16,
    pub y: u16,
    pub width: u16,
    pub height: u16,
}

impl Rect {
    /// Whether the right and the bottom edge can be counted in a `u16`.
    pub open spec fn fits(self) -> bool {
        self.x + self.width <= u16::MAX && self.y + self.height <= u16::MAX
    }

    pub open spec fn holds(self, col: u16, row: u16) -> bool {
        self.x <= col < self.x + self.width && self.y <= row < self.y + self.height
    }

    /// A rectangle, cut off where its far edges could not be counted.
    pub fn new(x: u16, y: u16, width: u16, height: u16) -> (area: Rect)
        ensures
            area.x == x,
            area.y == y,
            area.width == if x + width <= u16::MAX {
                width as int
            } else {
                u16::MAX - x
            },
            area.height == if y + height <= u16::MAX {
                height as int
            } else {
                u16::MAX - y
            },
            area.fits(),
    {
        let right: u16 = u16::MAX - x;
        let below: u16 = u16::MAX - y;
        Rect {
            x,
            y,
            width: if width > right {
                right
            } else {
                width
            },
            height: if height > below {
                below
            } else {
                height
            },
        }
    }

    /// Whether a cell lies in the rectangle.
    pub fn contains(self, col: u16, row: u16) -> (inside: bool)
        ensures
            inside == self.holds(col, row),
    {
        col >= self.x && ((col - self.x) as u16) < self.width && row >= self.y && ((row
            - self.y) as u16) < self.height
    }
}

#[derive(Clone, Copy, Debug, PartialEq, Eq, Structural)]
pub enum Pane {
    Keys,
    Value,
}

/// Below this width one pane is drawn at a time.
pub const TWO_PANE_COLS: u16 = 70;

/// How far one keypress moves the divider.
pub const SPLIT_STEP: u16 = 4;

/// How narrow the divider may make either pane.
pub const MIN_PANE_COLS: u16 = 20;

/// Where each pane is drawn. One that is not drawn has no rectangle, or, for
/// the keys, an empty one.
#[derive(Clone, Copy, Debug, PartialEq, Eq, Structural)]
pub struct Layout {
    pub keys: Rect,
    pub value: Option<Rect>,
}

/// `v`, or the nearer of the two bounds where it lies outside them.
pub open spec fn clamped(v: int, low: int, high: int) -> int {
    if v < low {
        low
    } else if v > high {
        high
    } else {
        v
    }
}

/// The width of the keys pane beside the value pane: two fifths of the
/// terminal, moved by `adjust`, and never so far that a pane disappears.
pub open spec fn keys_width(cols: int, adjust: int) -> int {
    clamped(cols * 2 / 5 + adjust, MIN_PANE_COLS as int, cols - 1 - MIN_PANE_COLS)
}

/// The layout of a terminal: the first row is the title, the last the hints,
/// and the panes share what is between. The divider takes one column.
pub open spec fn plan(area: Rect, focus: Pane, adjust: int) -> Layout {
    let y = (area.y + if area.height > 0 {
        1int
    } else {
        0
    }) as u16;
    let height = (if area.height > 2 {
        area.height - 2
    } else {
        0
    }) as u16;
    let full = Rect { x: area.x, y, width: area.width, height };
    if area.width >= TWO_PANE_COLS {
        let width = keys_width(area.width as int, adjust);
        Layout {
            keys: Rect { width: width as u16, ..full },
            value: Some(
                Rect {
                    x: (area.x + width + 1) as u16,
                    width: (area.width - width - 1) as u16,
                    ..full
                },
            ),
        }
    } else {
        match focus {
            Pane::Keys => Layout { keys: full, value: None },
            Pane::Value => Layout { keys: Rect { width: 0, ..full }, value: Some(full) },
        }
    }
}

/// Lays the panes out in `area`.
pub fn layout(area: Rect, focus: Pane, split_adjust: i16) -> (r: Layout)
    requires
        area.fits(),
    ensures
        r == plan(area, focus, split_adjust as int),
{
    let y: u16 = if area.height > 0 {
        area.y + 1
    } else {
        area.y
    };
    let height: u16 = if area.height > 2 {
        area.height - 2
    } else {
        0
    };
    let full = Rect { x: area.x, y, width: area.width, height };
    if area.width >= TWO_PANE_COLS {
        let wanted: i32 = area.width as i32 * 2 / 5 + split_adjust as i32;
        let low: i32 = MIN_PANE_COLS as i32;
        let high: i32 = area.width as i32 - 1 - MIN_PANE_COLS as i32;
        let width: i32 = if wanted < low {
            low
        } else if wanted > high {
            high
        } else {
            wanted
        };
        let width: u16 = width as u16;
        Layout {
            keys: Rect { x: full.x, y: full.y, width, height: full.height },
            value: Some(
                Rect {
                    x: area.x + width + 1,
                    y: full.y,
                    width: area.width - width - 1,
                    height: full.height,
                },
            ),
        }
    } else {
        match focus {
            Pane::Keys => Layout { keys: full, value: None },
            Pane::Value => Layout {
                keys: Rect { x: full.x, y: full.y, width: 0, height: full.height },
                value: Some(full),
            },
        }
    }
}

/// The panes never overlap and never leave the terminal: side by side, they and
/// the divider between them are exactly as wide as it is.
pub proof fn panes_share_the_width(area: Rect, focus: Pane, adjust: int)
    requires
        area.fits(),
        area.width >= TWO_PANE_COLS,
    ensures
        plan(area, focus, adjust).value is Some,
        plan(area, focus, adjust).keys.x == area.x,
        plan(area, focus, adjust).value->0.x == area.x + plan(area, focus, adjust).keys.width + 1,
        plan(area, focus, adjust).keys.width + 1 + plan(area, focus, adjust).value->0.width
            == area.width,
        plan(area, focus, adjust).keys.width >= MIN_PANE_COLS,
        plan(area, focus, adjust).value->0.width >= MIN_PANE_COLS,
{
}

} // verus!
