//! The multi-line text box of `ratatui_textarea`, and what this library relies
//! on about it.
//!
//! An [`Area`] wraps one `TextArea` and is opaque. Four names say what one holds: its lines, its
//! cursor, and the edits that `undo` and `redo` walk. Every box is made by
//! [`new_area`] and changed by the functions below alone, so no text is ever
//! selected in it, no line is wrapped, no character is masked, its tab length
//! stays four and its history fifty edits long.

use ratatui_textarea::{CursorMove, TextArea};
use vstd::prelude::*;

use crate::text;

verus! {

/// A text box.
#[verifier::external_body]
#[derive(Debug)]
pub struct Area {
    inner: TextArea<'static>,
}

/// One remembered edit: the text and the cursor on either side of it.
pub struct AreaEdit {
    pub before: Seq<Seq<char>>,
    pub from: (int, int),
    pub after: Seq<Seq<char>>,
    pub to: (int, int),
}

/// The lines of text that a box holds.
pub uninterp spec fn area_lines(area: Area) -> Seq<Seq<char>>;

/// The cursor of a box: a row, and a position among that row's characters.
pub uninterp spec fn area_cursor(area: Area) -> (int, int);

/// The edits that `undo` takes back, the latest last.
pub uninterp spec fn area_past(area: Area) -> Seq<AreaEdit>;

/// The edits that `redo` makes again, the next one last.
pub uninterp spec fn area_future(area: Area) -> Seq<AreaEdit>;

/// What a text box is: its text, its cursor, and its two stacks of edits.
#[verifier::ext_equal]
pub struct AreaView {
    pub lines: Seq<Seq<char>>,
    pub cursor: (int, int),
    pub past: Seq<AreaEdit>,
    pub future: Seq<AreaEdit>,
}

pub open spec fn area_view(area: Area) -> AreaView {
    AreaView {
        lines: area_lines(area),
        cursor: area_cursor(area),
        past: area_past(area),
        future: area_future(area),
    }
}

/// A way to move the cursor.
#[derive(Clone, Copy, Debug, PartialEq, Eq, Structural)]
pub enum Step {
    Up,
    Down,
    Back,
    Forward,
    Head,
    End,
    Jump(u16, u16),
}

/// Where `TextArea::move_cursor` takes the cursor of a text.
pub uninterp spec fn moved(lines: Seq<Seq<char>>, cursor: (int, int), step: Step) -> (int, int);

/// Whether every character of a text is printable ASCII, and so one cell wide.
pub open spec fn is_plain(lines: Seq<Seq<char>>) -> bool {
    forall|i: int, j: int|
        0 <= i < lines.len() && 0 <= j < lines[i].len() ==> ' ' <= #[trigger] lines[i][j] <= '~'
}

pub open spec fn lesser(a: int, b: int) -> int {
    if a < b {
        a
    } else {
        b
    }
}

/// One character on or back, or one row up or down, in a text of printable
/// ASCII. Between two lines there is one step, and there is none past either end
/// of the text.
pub open spec fn stepped_plainly(lines: Seq<Seq<char>>, cursor: (int, int), step: Step) -> (
    int,
    int,
) {
    let (row, col) = cursor;
    match step {
        Step::Forward => if col < lines[row].len() {
            (row, col + 1)
        } else if row + 1 < lines.len() {
            (row + 1, 0)
        } else {
            cursor
        },
        Step::Back => if col > 0 {
            (row, col - 1)
        } else if row > 0 {
            (row - 1, lines[row - 1].len() as int)
        } else {
            cursor
        },
        Step::Up => if row > 0 {
            (row - 1, lesser(col, lines[row - 1].len() as int))
        } else {
            cursor
        },
        _ => if row + 1 < lines.len() {
            (row + 1, lesser(col, lines[row + 1].len() as int))
        } else {
            cursor
        },
    }
}

/// Where a step takes the cursor. The head and the end of a line and a jump are
/// exact; there is no row above the first and none below the last. A step of one
/// character or one row is exact in a text of printable ASCII; in any other it
/// goes by the width of characters on the screen.
pub open spec fn landing(lines: Seq<Seq<char>>, cursor: (int, int), step: Step) -> (int, int) {
    match step {
        Step::Head => (cursor.0, 0),
        Step::End => (cursor.0, lines[cursor.0].len() as int),
        Step::Jump(row, col) => {
            let to = lesser(row as int, lines.len() - 1);
            (to, lesser(col as int, lines[to].len() as int))
        },
        _ => if is_plain(lines) || (step is Up && cursor.0 == 0) || (step is Down && cursor.0
            == lines.len() - 1) {
            stepped_plainly(lines, cursor, step)
        } else {
            moved(lines, cursor, step)
        },
    }
}

/// How many spaces `TextArea::insert_tab` inserts behind `before`, the part of
/// the line in front of the cursor.
pub uninterp spec fn tab_fill(before: Seq<char>) -> nat;

/// Whether the cursor stands in the text: on one of its rows, in front of,
/// between or behind that row's characters.
pub open spec fn cursor_in(lines: Seq<Seq<char>>, cursor: (int, int)) -> bool {
    0 <= cursor.0 < lines.len() && 0 <= cursor.1 <= lines[cursor.0].len()
}

impl AreaView {
    /// A box freshly filled with `lines`, an empty one where there are none.
    pub open spec fn fresh(lines: Seq<Seq<char>>) -> AreaView {
        AreaView {
            lines: if lines.len() == 0 {
                seq![Seq::empty()]
            } else {
                lines
            },
            cursor: (0, 0),
            past: Seq::empty(),
            future: Seq::empty(),
        }
    }

    pub open spec fn row(self) -> int {
        self.cursor.0
    }

    /// The part of the cursor's line in front of the cursor.
    pub open spec fn head(self) -> Seq<char> {
        self.lines[self.cursor.0].take(self.cursor.1)
    }

    /// The part of the cursor's line behind the cursor.
    pub open spec fn tail(self) -> Seq<char> {
        self.lines[self.cursor.0].skip(self.cursor.1)
    }

    /// The edits remembered once one more is made. There are never more than
    /// fifty, done and undone together: a full history drops its oldest.
    pub open spec fn remembering(self, edit: AreaEdit) -> Seq<AreaEdit> {
        let full = self.past.len() + self.future.len() == 50;
        let kept = if full && self.past.len() > 0 {
            self.past.skip(1)
        } else {
            self.past
        };
        kept.push(edit)
    }

    /// The box after an edit that started at `from`, made the text `lines` and
    /// left the cursor at `to`.
    pub open spec fn edited(
        self,
        from: (int, int),
        lines: Seq<Seq<char>>,
        to: (int, int),
    ) -> AreaView {
        AreaView {
            lines,
            cursor: to,
            past: self.remembering(AreaEdit { before: self.lines, from, after: lines, to }),
            future: Seq::empty(),
        }
    }

    /// `piece`, which has no line break, put in at the cursor.
    pub open spec fn with_piece(self, piece: Seq<char>) -> AreaView {
        if piece.len() == 0 {
            self
        } else {
            self.edited(
                self.cursor,
                self.lines.update(self.row(), self.head() + piece + self.tail()),
                (self.row(), self.cursor.1 + piece.len()),
            )
        }
    }

    /// The line cut in two at the cursor.
    pub open spec fn with_newline(self) -> AreaView {
        self.edited(
            self.cursor,
            self.lines.update(self.row(), self.head()).insert(self.row() + 1, self.tail()),
            (self.row() + 1, 0),
        )
    }

    pub open spec fn with_char(self, c: char) -> AreaView {
        if text::is_line_break(c) {
            self.with_newline()
        } else {
            self.with_piece(seq![c])
        }
    }

    /// Two or more lines put in at the cursor.
    pub open spec fn with_lines(self, pieces: Seq<Seq<char>>) -> AreaView {
        self.edited(
            self.cursor,
            self.lines.take(self.row()).push(self.head() + pieces.first()) + pieces.subrange(
                1,
                pieces.len() - 1,
            ).push(pieces.last() + self.tail()) + self.lines.skip(self.row() + 1),
            (self.row() + pieces.len() - 1, pieces.last().len() as int),
        )
    }

    /// `inserted` put in at the cursor; `\n` and `\r\n` break its lines.
    pub open spec fn with_text(self, inserted: Seq<char>) -> AreaView {
        let pieces = text::split(inserted, '\n').map_values(|line: Seq<char>| without_return(line));
        if pieces.len() == 1 {
            self.with_piece(pieces[0])
        } else {
            self.with_lines(pieces)
        }
    }

    /// A tab put in at the cursor, as spaces up to the next tab stop.
    pub open spec fn with_tab(self) -> AreaView {
        self.with_piece(Seq::new(tab_fill(self.head()), |i: int| ' '))
    }

    /// The character in front of the cursor taken out, or, at the head of a
    /// line, the line break there.
    pub open spec fn without_previous(self) -> AreaView {
        if self.cursor.1 > 0 {
            self.edited(
                self.cursor,
                self.lines.update(self.row(), self.head().drop_last() + self.tail()),
                (self.row(), self.cursor.1 - 1),
            )
        } else if self.row() > 0 {
            let above = self.lines[self.row() - 1];
            self.edited(
                (self.row(), 0),
                self.lines.remove(self.row()).update(
                    self.row() - 1,
                    above + self.lines[self.row()],
                ),
                (self.row() - 1, above.len() as int),
            )
        } else {
            self
        }
    }

    /// The character behind the cursor taken out: a step forward, if there is
    /// one to take, and what is then in front of the cursor goes.
    pub open spec fn without_next(self) -> AreaView {
        let ahead = landing(self.lines, self.cursor, Step::Forward);
        if ahead == self.cursor {
            self
        } else {
            (AreaView { cursor: ahead, ..self }).without_previous()
        }
    }

    pub open spec fn stepped(self, step: Step) -> AreaView {
        AreaView { cursor: landing(self.lines, self.cursor, step), ..self }
    }

    /// `n` steps of one kind.
    pub open spec fn stepped_times(self, step: Step, n: nat) -> AreaView
        decreases n,
    {
        if n == 0 {
            self
        } else {
            self.stepped_times(step, (n - 1) as nat).stepped(step)
        }
    }

    pub open spec fn undone(self) -> AreaView {
        if self.past.len() == 0 {
            self
        } else {
            let edit = self.past.last();
            AreaView {
                lines: edit.before,
                cursor: edit.from,
                past: self.past.drop_last(),
                future: self.future.push(edit),
            }
        }
    }

    pub open spec fn redone(self) -> AreaView {
        if self.future.len() == 0 {
            self
        } else {
            let edit = self.future.last();
            AreaView {
                lines: edit.after,
                cursor: edit.to,
                past: self.past.push(edit),
                future: self.future.drop_last(),
            }
        }
    }
}

impl AreaView {
    /// Whether the remembered edits lead to the text and on from it: each edit
    /// starts from what the one before it made, the last of the past made the
    /// text, the next of the future starts from it, and there are fifty at most.
    #[verifier::opaque]
    pub open spec fn remembers(self) -> bool {
        &&& self.past.len() > 0 ==> self.past.last().after == self.lines
        &&& self.future.len() > 0 ==> self.future.last().before == self.lines
        &&& forall|i: int|
            0 < i < self.past.len() ==> self.past[i - 1].after == (#[trigger] self.past[i]).before
        &&& forall|i: int|
            0 < i < self.future.len() ==> (#[trigger] self.future[i]).after == self.future[i
                - 1].before
        &&& self.past.len() + self.future.len() <= 50
    }

    /// An edit is remembered as what it did.
    pub proof fn an_edit_is_remembered(
        self,
        from: (int, int),
        lines: Seq<Seq<char>>,
        to: (int, int),
    )
        requires
            self.remembers(),
        ensures
            self.edited(from, lines, to).remembers(),
    {
        reveal(AreaView::remembers);
        let after = self.edited(from, lines, to);
        let n = after.past.len() as int;
        assert forall|i: int| 0 < i < n implies after.past[i - 1].after == (
        #[trigger] after.past[i]).before by {
            if self.past.len() + self.future.len() == 50 && self.past.len() > 0 {
                if i < n - 1 {
                    assert(after.past[i] == self.past[i + 1]);
                    assert(after.past[i - 1] == self.past[i]);
                } else {
                    assert(after.past[i - 1] == self.past[i]);
                }
            } else if i < n - 1 {
                assert(after.past[i] == self.past[i]);
                assert(after.past[i - 1] == self.past[i - 1]);
            } else {
                assert(after.past[i - 1] == self.past[i - 1]);
            }
        }
    }

    /// Undoing and redoing walk along what is remembered.
    pub proof fn walking_the_edits_keeps_them(self)
        requires
            self.remembers(),
        ensures
            self.undone().remembers(),
            self.redone().remembers(),
    {
        reveal(AreaView::remembers);
    }

    /// Moving the cursor changes nothing that is remembered, and a fresh box has
    /// nothing to remember.
    pub proof fn the_cursor_is_not_remembered(self, cursor: (int, int), lines: Seq<Seq<char>>)
        ensures
            self.remembers() ==> (AreaView { cursor, ..self }).remembers(),
            AreaView::fresh(lines).remembers(),
            (AreaView { cursor, ..AreaView::fresh(lines) }).remembers(),
    {
        reveal(AreaView::remembers);
    }
}

/// `line` without one `\r` at its end.
pub open spec fn without_return(line: Seq<char>) -> Seq<char> {
    if line.len() > 0 && line.last() == '\r' {
        line.drop_last()
    } else {
        line
    }
}

impl Clone for Area {
    /// `TextArea::clone` copies the text, the cursor and the history.
    #[verifier::external_body]
    fn clone(&self) -> (copy: Area)
        ensures
            area_view(copy) == area_view(*self),
    {
        Area { inner: self.inner.clone() }
    }
}

/// `TextArea::new` holds the given lines, or one empty line where none are
/// given, with the cursor at the start and nothing to undo.
#[verifier::external_body]
pub(crate) fn new_area(lines: Vec<String>) -> (area: Area)
    ensures
        area_view(area) == AreaView::fresh(text::texts(lines@)),
        area_past(area).len() == 0 && area_future(area).len() == 0,
{
    Area { inner: TextArea::new(lines) }
}

/// `TextArea::lines` are the lines of the box; there is always one.
#[verifier::external_body]
pub(crate) fn lines_of(area: &Area) -> (lines: Vec<String>)
    ensures
        text::texts(lines@) == area_lines(*area),
        lines@.len() >= 1,
{
    area.inner.lines().to_vec()
}

/// `TextArea::cursor` is the cursor of the box, which stands in its text.
#[verifier::external_body]
pub(crate) fn cursor_of(area: &Area) -> (cursor: (usize, usize))
    ensures
        (cursor.0 as int, cursor.1 as int) == area_cursor(*area),
        cursor_in(area_lines(*area), (cursor.0 as int, cursor.1 as int)),
{
    let cursor = area.inner.cursor();
    (cursor.0, cursor.1)
}

/// `TextArea::insert_char` puts one character in at the cursor; either line
/// break cuts the line.
#[verifier::external_body]
pub(crate) fn insert_char(area: &mut Area, c: char)
    ensures
        area_view(*final(area)) == area_view(*old(area)).with_char(c),
{
    area.inner.insert_char(c);
}

/// `TextArea::insert_str` puts a text in at the cursor, as one edit.
#[verifier::external_body]
pub(crate) fn insert_text(area: &mut Area, inserted: &str)
    ensures
        area_view(*final(area)) == area_view(*old(area)).with_text(inserted@),
{
    area.inner.insert_str(inserted);
}

/// `TextArea::insert_newline` cuts the line at the cursor.
#[verifier::external_body]
pub(crate) fn insert_newline(area: &mut Area)
    ensures
        area_view(*final(area)) == area_view(*old(area)).with_newline(),
{
    area.inner.insert_newline();
}

/// `TextArea::insert_tab` puts in one to four spaces. How many depends on the
/// width of what stands in front of the cursor on its line: for `n` printable
/// ASCII characters, each one cell wide, up to the next multiple of four.
#[verifier::external_body]
pub(crate) fn insert_tab(area: &mut Area)
    ensures
        area_view(*final(area)) == area_view(*old(area)).with_tab(),
        1 <= tab_fill(area_view(*old(area)).head()) <= 4,
        (forall|i: int|
            0 <= i < area_view(*old(area)).head().len() ==> ' '
                <= #[trigger] area_view(*old(area)).head()[i] <= '~') ==> tab_fill(
            area_view(*old(area)).head(),
        ) == 4 - area_view(*old(area)).head().len() % 4,
{
    area.inner.insert_tab();
}

/// `TextArea::delete_char` takes out what stands in front of the cursor.
#[verifier::external_body]
pub(crate) fn delete_previous(area: &mut Area)
    ensures
        area_view(*final(area)) == area_view(*old(area)).without_previous(),
{
    area.inner.delete_char();
}

/// `TextArea::delete_next_char` takes out what stands behind the cursor: it moves
/// forward as `TextArea::move_cursor` does, and then takes out what it passed.
#[verifier::external_body]
pub(crate) fn delete_next(area: &mut Area)
    ensures
        area_view(*final(area)) == area_view(*old(area)).without_next(),
{
    area.inner.delete_next_char();
}

/// `TextArea::move_cursor` moves the cursor within the text and changes nothing
/// else. Where it goes is a function of the text, the cursor and the step, and
/// is what [`landing`] says; a step of one character or one row in a text that
/// is not printable ASCII only has a name.
#[verifier::external_body]
pub(crate) fn move_cursor(area: &mut Area, step: Step)
    ensures
        area_cursor(*final(area)) == moved(area_lines(*old(area)), area_cursor(*old(area)), step),
        area_view(*final(area)) == area_view(*old(area)).stepped(step),
        cursor_in(area_lines(*final(area)), area_cursor(*final(area))),
{
    area.inner.move_cursor(
        match step {
            Step::Up => CursorMove::Up,
            Step::Down => CursorMove::Down,
            Step::Back => CursorMove::Back,
            Step::Forward => CursorMove::Forward,
            Step::Head => CursorMove::Head,
            Step::End => CursorMove::End,
            Step::Jump(row, col) => CursorMove::Jump(row, col),
        },
    );
}

/// `TextArea::undo` takes the latest edit back, text and cursor; without one
/// it does nothing.
#[verifier::external_body]
pub(crate) fn undo(area: &mut Area)
    ensures
        area_view(*final(area)) == area_view(*old(area)).undone(),
{
    area.inner.undo();
}

/// `TextArea::redo` makes the edit last taken back again; without one it does
/// nothing.
#[verifier::external_body]
pub(crate) fn redo(area: &mut Area)
    ensures
        area_view(*final(area)) == area_view(*old(area)).redone(),
{
    area.inner.redo();
}

} // verus!
