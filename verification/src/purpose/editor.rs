//! The editor: what the keys do to the text, what opening it shows and what
//! leaving it stages.

use vstd::prelude::*;
use vstd::utf8::*;

use crate::area::{self, AreaView, Step};
use crate::input::{KeyCode, KeyPress};
use crate::keymap::{self, Action};
use crate::msg::Msg;
use crate::purpose;
use crate::state::editor::{EditView, FieldPart, TargetView};
use crate::state::open::{OpenView, PhaseView};
use crate::state::session::StateView;
use crate::state::value::{ListEnd, ValueView};
use crate::text;

verus! {

// ── The text around the cursor ──────────────────────────────────────────────

/// The text in front of the cursor.
pub open spec fn before(area: AreaView) -> Seq<char> {
    let (row, col) = area.cursor;
    text::join(area.lines.take(row).push(area.lines[row].take(col)), '\n')
}

/// The text behind the cursor.
pub open spec fn behind(area: AreaView) -> Seq<char> {
    let (row, col) = area.cursor;
    text::join(seq![area.lines[row].skip(col)] + area.lines.skip(row + 1), '\n')
}

/// Lines on both sides of a line break are put together around it.
proof fn joined_around(a: Seq<Seq<char>>, b: Seq<Seq<char>>)
    requires
        a.len() > 0,
        b.len() > 0,
    ensures
        text::join(a + b, '\n') == text::join(a, '\n').push('\n') + text::join(b, '\n'),
    decreases b.len(),
{
    assert((a + b).drop_last() =~= a + b.drop_last());
    assert((a + b).last() == b.last());
    if b.len() == 1 {
        assert(a + b.drop_last() =~= a);
    } else {
        joined_around(a, b.drop_last());
        assert(text::join(a + b, '\n') =~= text::join(a, '\n').push('\n') + text::join(b, '\n'));
    }
}

/// What is put behind the last line stands behind the whole text.
proof fn last_line_grows(lines: Seq<Seq<char>>, x: Seq<char>, y: Seq<char>)
    ensures
        text::join(lines.push(x + y), '\n') == text::join(lines.push(x), '\n') + y,
{
    assert(lines.push(x + y).drop_last() =~= lines);
    assert(lines.push(x).drop_last() =~= lines);
    assert(text::join(lines.push(x + y), '\n') =~= text::join(lines.push(x), '\n') + y);
}

/// A line put behind the last one stands behind a line break.
proof fn a_line_is_added(lines: Seq<Seq<char>>, x: Seq<char>)
    requires
        lines.len() > 0,
    ensures
        text::join(lines.push(x), '\n') == text::join(lines, '\n').push('\n') + x,
{
    assert(lines.push(x).drop_last() =~= lines);
}

/// What is put in front of the first line stands in front of the whole text.
proof fn first_line_grows(x: Seq<char>, y: Seq<char>, rest: Seq<Seq<char>>)
    ensures
        text::join(seq![x + y] + rest, '\n') == x + text::join(seq![y] + rest, '\n'),
{
    if rest.len() == 0 {
        assert(seq![x + y] + rest =~= seq![x + y]);
        assert(seq![y] + rest =~= seq![y]);
    } else {
        joined_around(seq![x + y], rest);
        joined_around(seq![y], rest);
        assert(text::join(seq![x + y] + rest, '\n') =~= x + text::join(seq![y] + rest, '\n'));
    }
}

/// The cursor parts the text in two.
pub proof fn the_cursor_parts_the_text(buffer: EditView)
    requires
        area::cursor_in(buffer.area.lines, buffer.area.cursor),
    ensures
        buffer.content() == before(buffer.area) + behind(buffer.area),
{
    let lines = buffer.area.lines;
    let (row, col) = buffer.area.cursor;
    let line = lines[row];
    let rest = lines.skip(row + 1);
    let above = lines.take(row);
    assert(line =~= line.take(col) + line.skip(col));
    last_line_grows(above, line.take(col), line.skip(col));
    if rest.len() == 0 {
        assert(lines =~= above.push(line));
        assert(seq![line.skip(col)] + rest =~= seq![line.skip(col)]);
    } else {
        assert(lines =~= above.push(line) + rest);
        joined_around(above.push(line), rest);
        joined_around(seq![line.skip(col)], rest);
        assert(buffer.content() =~= before(buffer.area) + behind(buffer.area));
    }
}

/// There is nothing in front of the cursor at the start of the text alone, and
/// nothing behind it at the end alone.
proof fn the_ends_of_the_text(a: AreaView)
    requires
        area::cursor_in(a.lines, a.cursor),
    ensures
        before(a).len() == 0 <==> a.cursor == (0int, 0int),
        behind(a).len() == 0 <==> a.cursor == (
            a.lines.len() - 1,
            a.lines[a.lines.len() - 1].len() as int,
        ),
{
    let (row, col) = a.cursor;
    let head = a.lines[row].take(col);
    let tail = a.lines[row].skip(col);
    let rest = a.lines.skip(row + 1);
    if row > 0 {
        a_line_is_added(a.lines.take(row), head);
    } else {
        assert(a.lines.take(row).push(head) =~= seq![head]);
    }
    if rest.len() > 0 {
        joined_around(seq![tail], rest);
    } else {
        assert(seq![tail] + rest =~= seq![tail]);
    }
}

/// Putting a piece of a line in puts it in front of the cursor.
proof fn a_piece_goes_in_front(a: AreaView, piece: Seq<char>)
    requires
        area::cursor_in(a.lines, a.cursor),
    ensures
        before(a.with_piece(piece)) == before(a) + piece,
        behind(a.with_piece(piece)) == behind(a),
        area::cursor_in(a.with_piece(piece).lines, a.with_piece(piece).cursor),
{
    let (row, col) = a.cursor;
    let after = a.with_piece(piece);
    if piece.len() == 0 {
        assert(before(a) + piece =~= before(a));
    } else {
        assert(after.lines.take(row) =~= a.lines.take(row));
        assert(after.lines[row].take(col + piece.len()) =~= a.head() + piece);
        assert(after.lines[row].skip(col + piece.len()) =~= a.tail());
        assert(after.lines.skip(row + 1) =~= a.lines.skip(row + 1));
        last_line_grows(a.lines.take(row), a.head(), piece);
    }
}

proof fn a_break_goes_in_front(a: AreaView)
    requires
        area::cursor_in(a.lines, a.cursor),
    ensures
        before(a.with_newline()) == before(a).push('\n'),
        behind(a.with_newline()) == behind(a),
        area::cursor_in(a.with_newline().lines, a.with_newline().cursor),
{
    let (row, col) = a.cursor;
    let after = a.with_newline();
    let empty: Seq<char> = Seq::empty();
    assert(after.lines.take(row + 1) =~= a.lines.take(row).push(a.head()));
    assert(after.lines[row + 1] == a.tail());
    assert(after.lines[row + 1].take(0) =~= empty);
    assert(after.lines[row + 1].skip(0) =~= a.tail());
    assert(after.lines.skip(row + 2) =~= a.lines.skip(row + 1));
    a_line_is_added(a.lines.take(row).push(a.head()), empty);
    assert(before(after) =~= before(a).push('\n'));
}

proof fn the_previous_goes(a: AreaView)
    requires
        area::cursor_in(a.lines, a.cursor),
        a.cursor != (0int, 0int),
    ensures
        before(a) == before(a.without_previous()).push(before(a).last()),
        behind(a.without_previous()) == behind(a),
        area::cursor_in(a.without_previous().lines, a.without_previous().cursor),
{
    let (row, col) = a.cursor;
    let after = a.without_previous();
    if col > 0 {
        assert(after.lines.take(row) =~= a.lines.take(row));
        assert(after.lines[row].take(col - 1) =~= a.head().drop_last());
        assert(after.lines[row].skip(col - 1) =~= a.tail());
        assert(after.lines.skip(row + 1) =~= a.lines.skip(row + 1));
        assert(a.head() =~= a.head().drop_last() + seq![a.head().last()]);
        last_line_grows(a.lines.take(row), a.head().drop_last(), seq![a.head().last()]);
        assert(before(a) =~= before(after).push(a.head().last()));
    } else {
        let empty: Seq<char> = Seq::empty();
        let above = a.lines[row - 1];
        assert(a.lines.take(row) =~= a.lines.take(row - 1).push(above));
        assert(a.head() =~= empty);
        a_line_is_added(a.lines.take(row), empty);
        assert(after.lines.take(row - 1) =~= a.lines.take(row - 1));
        assert(after.lines[row - 1].take(above.len() as int) =~= above);
        assert(after.lines[row - 1].skip(above.len() as int) =~= a.lines[row]);
        assert(a.tail() =~= a.lines[row]);
        assert(after.lines.skip(row) =~= a.lines.skip(row + 1));
        assert(before(a) =~= before(after).push('\n'));
    }
}

/// A step of one character, in a text of printable ASCII, takes one character
/// from one side of the cursor to the other.
proof fn a_step_crosses_one(a: AreaView)
    requires
        area::cursor_in(a.lines, a.cursor),
        area::is_plain(a.lines),
        behind(a).len() > 0,
    ensures
        before(a.stepped(Step::Forward)) == before(a).push(behind(a)[0]),
        behind(a) == seq![behind(a)[0]] + behind(a.stepped(Step::Forward)),
        area::cursor_in(a.lines, a.stepped(Step::Forward).cursor),
        a.stepped(Step::Forward).cursor != a.cursor,
        a.stepped(Step::Forward).cursor != (0int, 0int),
{
    the_ends_of_the_text(a);
    let (row, col) = a.cursor;
    let on = a.stepped(Step::Forward);
    if col < a.lines[row].len() {
        let c = a.lines[row][col];
        assert(on.head() =~= a.head() + seq![c]);
        last_line_grows(a.lines.take(row), a.head(), seq![c]);
        assert(a.tail() =~= seq![c] + on.tail());
        first_line_grows(seq![c], on.tail(), a.lines.skip(row + 1));
        assert(before(on) =~= before(a).push(c));
        assert(behind(a)[0] == c);
    } else {
        let empty: Seq<char> = Seq::empty();
        assert(a.tail() =~= empty);
        assert(a.head() =~= a.lines[row]);
        assert(on.cursor == (row + 1, 0int));
        assert(on.tail() =~= a.lines[row + 1]);
        assert(on.head() =~= empty);
        assert(a.lines.take(row + 1) =~= a.lines.take(row).push(a.lines[row]));
        a_line_is_added(a.lines.take(row + 1), empty);
        assert(before(on) =~= before(a).push('\n'));
        assert(a.lines.skip(row + 1) =~= seq![on.tail()] + a.lines.skip(row + 2));
        joined_around(seq![empty], a.lines.skip(row + 1));
        assert(behind(a) =~= seq!['\n'] + behind(on));
    }
}

// ── The keys of the text box ────────────────────────────────────────────────

proof fn many_steps_keep_the_lines(a: AreaView, step: Step, n: nat)
    ensures
        a.stepped_times(step, n).lines == a.lines,
    decreases n,
{
    if n > 0 {
        many_steps_keep_the_lines(a, step, (n - 1) as nat);
    }
}

/// Whether a text box takes the key as it is: it is bound to no action of the
/// editor, and the cursor is in the text.
pub open spec fn takes(s: StateView, key: KeyPress) -> bool {
    &&& s.confirm is None
    &&& purpose::is_typing(s)
    &&& !is_on_one_line(box_of(s).target)
    &&& area::cursor_in(box_of(s).area.lines, box_of(s).area.cursor)
    &&& {
        let bound = keymap::lookup(s.keymap, key);
        &&& bound != Some(Action::EditorStage)
        &&& bound != Some(Action::EditorUndo)
        &&& bound != Some(Action::EditorRedo)
        &&& bound != Some(Action::Cancel)
    }
}

/// Whether one line is typed: the name of a new field or member, or a time to
/// live.
pub open spec fn is_on_one_line(target: TargetView) -> bool {
    match target {
        TargetView::NewHashField { part, .. } => part == FieldPart::Name,
        TargetView::NewZSetMember { part, .. } => part == FieldPart::Name,
        TargetView::Ttl { .. } => true,
        _ => false,
    }
}

/// The buffer that is typed into.
pub open spec fn box_of(s: StateView) -> EditView {
    box_in(s.open->0.edit)
}

/// The buffer of an edit, however far it has come.
pub open spec fn box_in(edit: PhaseView) -> EditView {
    match edit {
        PhaseView::Typing(buffer) => buffer,
        PhaseView::Staged(buffer) => buffer,
        PhaseView::Landed(buffer) => buffer,
        PhaseView::Idle => arbitrary(),
    }
}

/// Whether nothing changed but the buffer that is typed into.
pub open spec fn only_the_box_changed(s: StateView, after: StateView) -> bool {
    &&& purpose::is_typing(after)
    &&& after == (StateView { open: after.open, ..s })
    &&& after.open->0 == (OpenView { edit: after.open->0.edit, ..s.open->0 })
    &&& box_of(after).original == box_of(s).original
    &&& box_of(after).was_json == box_of(s).was_json
}

/// Whether nothing changed but the text of the buffer and where the cursor is.
pub open spec fn only_the_text_changed(s: StateView, after: StateView) -> bool {
    only_the_box_changed(s, after) && box_of(after).target == box_of(s).target
}

/// A key that the text box takes goes to its buffer.
proof fn a_key_goes_to_the_box(s: StateView, key: KeyPress)
    requires
        takes(s, key),
        key.code == KeyCode::Enter ==> box_of(s).target is Value,
    ensures
        purpose::after_key(s, key) == s.with_typing(box_of(s).keyed(key)),
        box_of(purpose::after_key(s, key)) == box_of(s).keyed(key),
{
    reveal(purpose::after_key);
}

/// Backspace goes to the buffer wherever the cursor is.
proof fn one_key_goes_to_the_box(s: StateView, back: KeyPress)
    requires
        s.confirm is None,
        purpose::is_typing(s),
        !is_on_one_line(box_of(s).target),
        back.code == KeyCode::Backspace,
        keymap::lookup(s.keymap, back) != Some(Action::EditorStage),
        keymap::lookup(s.keymap, back) != Some(Action::EditorUndo),
        keymap::lookup(s.keymap, back) != Some(Action::EditorRedo),
        keymap::lookup(s.keymap, back) != Some(Action::Cancel),
    ensures
        purpose::after_key(s, back) == s.with_typing(
            box_of(s).with_area(box_of(s).area.without_previous()),
        ),
{
    reveal(purpose::after_key);
}

/// Undo and redo go to the buffer too.
proof fn undo_goes_to_the_box(s: StateView, key: KeyPress)
    requires
        s.confirm is None,
        purpose::is_typing(s),
        !is_on_one_line(box_of(s).target),
    ensures
        keymap::lookup(s.keymap, key) == Some(Action::EditorUndo) ==> purpose::after_key(s, key)
            == s.with_typing(box_of(s).with_area(box_of(s).area.undone())),
        keymap::lookup(s.keymap, key) == Some(Action::EditorRedo) ==> purpose::after_key(s, key)
            == s.with_typing(box_of(s).with_area(box_of(s).area.redone())),
{
    reveal(purpose::after_key);
}

/// A key that changes the text is remembered as one edit.
proof fn a_key_is_one_edit(b: EditView, key: KeyPress)
    requires
        b.keyed(key).area.lines != b.area.lines,
        area::cursor_in(b.area.lines, b.area.cursor),
    ensures
        ({
            let is = b.keyed(key).area;
            &&& b.keyed(key).target == b.target
            &&& is.past.len() > 0
            &&& is.past.last().before == b.area.lines
            &&& is.past.last().after == is.lines
            &&& is.past.last().to == is.cursor
            &&& key.code != KeyCode::Delete ==> is.past.last().from == b.area.cursor
        }),
{
    many_steps_keep_the_lines(b.area, Step::Up, 20);
    many_steps_keep_the_lines(b.area, Step::Down, 20);
}

/// Delete takes out the character behind the cursor, of a text of printable
/// ASCII, and the cursor stays where it is; behind the last line break of a line
/// that is the line break. At the end of the text there is nothing to take.
pub proof fn delete_takes_the_character_behind_the_cursor(s: StateView, key: KeyPress)
    requires
        takes(s, key),
        key.code == KeyCode::Delete,
        area::is_plain(box_of(s).area.lines),
    ensures
        ({
            let (after, commands) = s.updated(Msg::Key(key));
            let was = box_of(s).area;
            let is = box_of(after).area;
            &&& commands.len() == 0
            &&& only_the_text_changed(s, after)
            &&& is.cursor == was.cursor
            &&& behind(was).len() == 0 ==> after == s
            &&& behind(was).len() > 0 ==> {
                &&& before(is) == before(was)
                &&& behind(is) == behind(was).skip(1)
                &&& box_of(s).content() == before(was) + behind(was)
                &&& box_of(after).content() == before(was) + behind(was).skip(1)
            }
        }),
{
    let was = box_of(s).area;
    the_ends_of_the_text(was);
    if behind(was).len() > 0 {
        let on = was.stepped(Step::Forward);
        a_step_crosses_one(was);
        the_previous_goes(on);
        the_cursor_parts_the_text(box_of(s));
        let is = box_of(s.updated(Msg::Key(key)).0).area;
        assert(is == on.without_previous());
        assert(before(on).drop_last() =~= before(was));
        assert(before(is) =~= before(on).drop_last());
        assert(behind(was).skip(1) =~= behind(on));
        the_cursor_parts_the_text(box_of(s.updated(Msg::Key(key)).0));
    }
}

/// Whatever the text is, Delete does what a step to the right and then Backspace
/// do, and nothing where there is no step to the right.
pub proof fn delete_is_a_step_and_backspace(
    s: StateView,
    key: KeyPress,
    right: KeyPress,
    back: KeyPress,
)
    requires
        takes(s, key),
        takes(s, right),
        takes(s, back),
        key.code == KeyCode::Delete,
        right.code == KeyCode::Right,
        back.code == KeyCode::Backspace,
    ensures
        ({
            let on = purpose::after_key(s, right);
            purpose::after_key(s, key) == (if box_of(on).area.cursor == box_of(s).area.cursor {
                s
            } else {
                purpose::after_key(on, back)
            })
        }),
{
    a_key_goes_to_the_box(s, key);
    a_key_goes_to_the_box(s, right);
    let on = purpose::after_key(s, right);
    if box_of(on).area.cursor == box_of(s).area.cursor {
        assert(box_of(s).area.without_next() == box_of(s).area);
        assert(s.with_typing(box_of(s)) == s);
    } else {
        assert(box_of(on).area.without_previous() == box_of(s).area.without_next());
        one_key_goes_to_the_box(on, back);
    }
}

/// Backspace takes out the character in front of the cursor, and the cursor is
/// where that was; at the head of a line that is the line break in front of it.
/// At the start of the text there is nothing to take.
pub proof fn backspace_takes_the_character_in_front(s: StateView, key: KeyPress)
    requires
        takes(s, key),
        key.code == KeyCode::Backspace,
    ensures
        ({
            let (after, commands) = s.updated(Msg::Key(key));
            let was = box_of(s).area;
            let is = box_of(after).area;
            &&& commands.len() == 0
            &&& only_the_text_changed(s, after)
            &&& before(was).len() == 0 ==> after == s
            &&& before(was).len() > 0 ==> {
                &&& before(is) == before(was).drop_last()
                &&& behind(is) == behind(was)
                &&& box_of(s).content() == before(was) + behind(was)
                &&& box_of(after).content() == before(was).drop_last() + behind(was)
            }
            &&& was.cursor.1 > 0 ==> is.cursor == (was.cursor.0, was.cursor.1 - 1)
        }),
{
    let was = box_of(s).area;
    the_ends_of_the_text(was);
    if before(was).len() > 0 {
        the_previous_goes(was);
        the_cursor_parts_the_text(box_of(s));
        let after = s.updated(Msg::Key(key)).0;
        assert(before(was).drop_last() =~= before(box_of(after).area));
        the_cursor_parts_the_text(box_of(after));
    }
}

/// A character that is typed stands in front of the cursor, and nothing else
/// changes; a line break breaks the line. One pressed with Control or Alt types
/// nothing.
pub proof fn a_typed_character_goes_in_front(s: StateView, key: KeyPress, c: char)
    requires
        takes(s, key),
        key.code == KeyCode::Char(c),
    ensures
        ({
            let (after, commands) = s.updated(Msg::Key(key));
            let was = box_of(s).area;
            let is = box_of(after).area;
            &&& commands.len() == 0
            &&& only_the_text_changed(s, after)
            &&& key.ctrl || key.alt ==> after == s
            &&& !key.ctrl && !key.alt ==> {
                &&& before(is) == before(was).push(
                    if c == '\r' {
                        '\n'
                    } else {
                        c
                    },
                )
                &&& behind(is) == behind(was)
                &&& c != '\n' && c != '\r' ==> is.cursor == (was.cursor.0, was.cursor.1 + 1)
            }
        }),
{
    let was = box_of(s).area;
    a_break_goes_in_front(was);
    a_piece_goes_in_front(was, seq![c]);
    assert(before(was).push(c) =~= before(was) + seq![c]);
}

/// Enter breaks the line in a string that is edited as a whole: the cursor is at
/// the head of the new line.
pub proof fn enter_breaks_the_line(s: StateView, key: KeyPress)
    requires
        takes(s, key),
        key.code == KeyCode::Enter,
        box_of(s).target is Value,
    ensures
        ({
            let (after, commands) = s.updated(Msg::Key(key));
            let was = box_of(s).area;
            let is = box_of(after).area;
            &&& commands.len() == 0
            &&& only_the_text_changed(s, after)
            &&& before(is) == before(was).push('\n')
            &&& behind(is) == behind(was)
            &&& is.cursor == (was.cursor.0 + 1, 0int)
        }),
{
    a_break_goes_in_front(box_of(s).area);
}

/// Tab fills the line with blanks; in a new element of a list it changes the end
/// that the element is put at instead, and the text stays as it is.
pub proof fn tab_fills_the_line(s: StateView, key: KeyPress)
    requires
        takes(s, key),
        key.code == KeyCode::Tab,
    ensures
        ({
            let (after, commands) = s.updated(Msg::Key(key));
            let was = box_of(s).area;
            let is = box_of(after).area;
            let blanks = Seq::new(area::tab_fill(was.head()), |i: int| ' ');
            &&& commands.len() == 0
            &&& only_the_box_changed(s, after)
            &&& box_of(s).target == (TargetView::NewListElement { end: ListEnd::Head }) ==> {
                &&& box_of(after).target == (TargetView::NewListElement { end: ListEnd::Tail })
                &&& is == was
            }
            &&& box_of(s).target == (TargetView::NewListElement { end: ListEnd::Tail }) ==> {
                &&& box_of(after).target == (TargetView::NewListElement { end: ListEnd::Head })
                &&& is == was
            }
            &&& !(box_of(s).target is NewListElement) ==> {
                &&& box_of(after).target == box_of(s).target
                &&& before(is) == before(was) + blanks
                &&& behind(is) == behind(was)
            }
        }),
{
    let was = box_of(s).area;
    a_piece_goes_in_front(was, Seq::new(area::tab_fill(was.head()), |i: int| ' '));
}

/// The keys that move, in a text of printable ASCII: one character on or back,
/// over the line breaks too; one row up or down, and as far into it as it goes;
/// to the head or the end of the line. The text stays as it is.
pub proof fn the_arrows_move_the_cursor(s: StateView, key: KeyPress)
    requires
        takes(s, key),
        area::is_plain(box_of(s).area.lines),
    ensures
        ({
            let (after, commands) = s.updated(Msg::Key(key));
            let was = box_of(s).area;
            let is = box_of(after).area;
            let (row, col) = was.cursor;
            let last = was.lines.len() - 1;
            let moves = key.code == KeyCode::Left || key.code == KeyCode::Right || key.code
                == KeyCode::Up || key.code == KeyCode::Down || key.code == KeyCode::Home || key.code
                == KeyCode::End;
            &&& moves ==> {
                &&& commands.len() == 0
                &&& only_the_box_changed(s, after)
                &&& is == (AreaView { cursor: is.cursor, ..was })
                &&& key.code != KeyCode::Up ==> box_of(after).target == box_of(s).target
            }
            &&& key.code == KeyCode::Home ==> is.cursor == (row, 0int)
            &&& key.code == KeyCode::End ==> is.cursor == (row, was.lines[row].len() as int)
            &&& key.code == KeyCode::Up ==> {
                &&& row == 0 ==> is.cursor == was.cursor
                &&& row > 0 ==> is.cursor.0 == row - 1 && is.cursor.1 <= col && (is.cursor.1 == col
                    || is.cursor.1 == was.lines[row - 1].len()) && is.cursor.1
                    <= was.lines[row - 1].len()
            }
            &&& key.code == KeyCode::Down ==> {
                &&& row == last ==> is.cursor == was.cursor
                &&& row < last ==> is.cursor.0 == row + 1 && is.cursor.1 <= col && (is.cursor.1
                    == col || is.cursor.1 == was.lines[row + 1].len()) && is.cursor.1
                    <= was.lines[row + 1].len()
            }
            &&& key.code == KeyCode::Right ==> {
                &&& behind(was).len() == 0 ==> is.cursor == was.cursor
                &&& behind(was).len() > 0 ==> before(is) == before(was).push(behind(was)[0])
                    && behind(is) == behind(was).skip(1)
            }
            &&& key.code == KeyCode::Left ==> {
                &&& col > 0 ==> is.cursor == (row, col - 1)
                &&& col == 0 && row > 0 ==> is.cursor == (
                    row - 1,
                    was.lines[row - 1].len() as int,
                )
                &&& col == 0 && row == 0 ==> is.cursor == was.cursor
            }
        }),
{
    let was = box_of(s).area;
    the_ends_of_the_text(was);
    if key.code == KeyCode::Right && behind(was).len() > 0 {
        a_step_crosses_one(was);
        assert(behind(was).skip(1) =~= behind(was.stepped(Step::Forward)));
    }
}

/// Left takes back a step to the right.
pub proof fn left_undoes_right(s: StateView, right: KeyPress, left: KeyPress)
    requires
        takes(s, right),
        takes(s, left),
        right.code == KeyCode::Right,
        left.code == KeyCode::Left,
        area::is_plain(box_of(s).area.lines),
        behind(box_of(s).area).len() > 0,
    ensures
        purpose::after_key(purpose::after_key(s, right), left) == s,
{
    let was = box_of(s).area;
    the_ends_of_the_text(was);
    a_step_crosses_one(was);
    a_key_goes_to_the_box(s, right);
    let on = purpose::after_key(s, right);
    a_key_goes_to_the_box(on, left);
    assert(box_of(on).keyed(left).area.cursor == was.cursor);
    assert(s.with_typing(box_of(s)) == s);
}

/// Up out of the first row of a two-part form leaves the value for the name; from
/// any other row, and in any other buffer, the target stays.
pub proof fn up_leaves_the_value_for_the_name(s: StateView, key: KeyPress)
    requires
        takes(s, key),
        key.code == KeyCode::Up,
    ensures
        ({
            let after = s.updated(Msg::Key(key)).0;
            let stuck = box_of(after).area.cursor == box_of(s).area.cursor;
            &&& box_of(s).area.cursor.0 == 0 ==> stuck
            &&& match box_of(s).target {
                TargetView::NewHashField { field, .. } if stuck => box_of(after).target == (
                TargetView::NewHashField { field, part: FieldPart::Name }),
                TargetView::NewZSetMember { member, .. } if stuck => box_of(after).target == (
                TargetView::NewZSetMember { member, part: FieldPart::Name }),
                _ => box_of(after).target == box_of(s).target,
            }
        }),
{
}

/// The steps that a page is made of go one row each, as long as there are rows.
proof fn pages_go_by_rows(a: AreaView, step: Step, n: nat)
    requires
        area::is_plain(a.lines),
        area::cursor_in(a.lines, a.cursor),
        step is Up || step is Down,
    ensures
        ({
            let on = a.stepped_times(step, n);
            let row = a.cursor.0;
            &&& on == (AreaView { cursor: on.cursor, ..a })
            &&& area::cursor_in(a.lines, on.cursor)
            &&& step is Up ==> on.cursor.0 == (if row >= n {
                row - n
            } else {
                0
            })
            &&& step is Down ==> on.cursor.0 == (if row + n < a.lines.len() {
                row + n
            } else {
                a.lines.len() - 1
            })
        }),
    decreases n,
{
    if n > 0 {
        pages_go_by_rows(a, step, (n - 1) as nat);
    }
}

/// A page is twenty rows, or as many as there are; the text stays as it is.
pub proof fn a_page_is_twenty_rows(s: StateView, key: KeyPress)
    requires
        takes(s, key),
        area::is_plain(box_of(s).area.lines),
        key.code == KeyCode::PageUp || key.code == KeyCode::PageDown,
    ensures
        ({
            let (after, commands) = s.updated(Msg::Key(key));
            let was = box_of(s).area;
            let is = box_of(after).area;
            let row = was.cursor.0;
            &&& commands.len() == 0
            &&& only_the_text_changed(s, after)
            &&& is == (AreaView { cursor: is.cursor, ..was })
            &&& key.code == KeyCode::PageUp ==> is.cursor.0 == (if row >= 20 {
                row - 20
            } else {
                0
            })
            &&& key.code == KeyCode::PageDown ==> is.cursor.0 == (if row + 20 < was.lines.len() {
                row + 20
            } else {
                was.lines.len() - 1
            })
        }),
{
    pages_go_by_rows(
        box_of(s).area,
        if key.code == KeyCode::PageUp {
            Step::Up
        } else {
            Step::Down
        },
        20,
    );
}

/// Undo takes back whatever a key did to the text, and redo does it again.
pub proof fn undo_takes_a_key_back(s: StateView, key: KeyPress, undo: KeyPress, redo: KeyPress)
    requires
        takes(s, key),
        keymap::lookup(s.keymap, undo) == Some(Action::EditorUndo),
        keymap::lookup(s.keymap, redo) == Some(Action::EditorRedo),
        box_of(purpose::after_key(s, key)).area.lines != box_of(s).area.lines,
        key.code == KeyCode::Enter ==> box_of(s).target is Value,
    ensures
        ({
            let typed = purpose::after_key(s, key);
            let undone = purpose::after_key(typed, undo);
            let redone = purpose::after_key(undone, redo);
            &&& only_the_text_changed(s, undone)
            &&& box_of(undone).area.lines == box_of(s).area.lines
            &&& key.code != KeyCode::Delete ==> box_of(undone).area.cursor == box_of(s).area.cursor
            &&& box_of(redone).area.lines == box_of(typed).area.lines
            &&& box_of(redone).area.cursor == box_of(typed).area.cursor
        }),
{
    a_key_goes_to_the_box(s, key);
    a_key_is_one_edit(box_of(s), key);
    let typed = purpose::after_key(s, key);
    undo_goes_to_the_box(typed, undo);
    let undone = purpose::after_key(typed, undo);
    undo_goes_to_the_box(undone, redo);
}

/// Where nothing was done there is nothing to undo, and where nothing was undone
/// nothing to do again.
pub proof fn there_is_nothing_to_undo(s: StateView, key: KeyPress)
    requires
        s.confirm is None,
        purpose::is_typing(s),
        !is_on_one_line(box_of(s).target),
    ensures
        keymap::lookup(s.keymap, key) == Some(Action::EditorUndo) && box_of(s).area.past.len() == 0
            ==> purpose::after_key(s, key) == s,
        keymap::lookup(s.keymap, key) == Some(Action::EditorRedo) && box_of(s).area.future.len()
            == 0 ==> purpose::after_key(s, key) == s,
{
    undo_goes_to_the_box(s, key);
    assert(s.with_typing(box_of(s)) == s);
}

/// Esc and its like put the buffer away, and nothing is staged.
pub proof fn cancelling_puts_the_buffer_away(s: StateView, key: KeyPress)
    requires
        s.confirm is None,
        purpose::is_typing(s),
        keymap::lookup(s.keymap, key) == Some(Action::Cancel),
    ensures
        s.updated(Msg::Key(key)).0 == (StateView {
            open: Some(OpenView { edit: PhaseView::Idle, ..s.open->0 }),
            ..s
        }),
        s.updated(Msg::Key(key)).1.len() == 0,
{
}

/// What is pasted into a text box goes in front of the cursor as it is, where it
/// holds no carriage return.
pub proof fn a_paste_goes_in_front(s: StateView, pasted: String)
    requires
        purpose::is_typing(s),
        !is_on_one_line(box_of(s).target),
        area::cursor_in(box_of(s).area.lines, box_of(s).area.cursor),
        !pasted@.contains('\r'),
    ensures
        ({
            let (after, commands) = s.updated(Msg::Paste(pasted));
            let was = box_of(s).area;
            let is = box_of(after).area;
            &&& commands.len() == 0
            &&& only_the_text_changed(s, after)
            &&& before(is) == before(was) + pasted@
            &&& behind(is) == behind(was)
        }),
{
    let was = box_of(s).area;
    let pieces = text::split(pasted@, '\n');
    let kept = pieces.map_values(|line: Seq<char>| area::without_return(line));
    text::join_undoes_split(pasted@, '\n');
    text::split_is_not_empty(pasted@, '\n');
    no_piece_has(pasted@, '\n', '\r');
    assert(kept =~= pieces) by {
        assert forall|i: int| 0 <= i < pieces.len() implies area::without_return(
            #[trigger] pieces[i],
        ) == pieces[i] by {
            if pieces[i].len() > 0 && pieces[i].last() == '\r' {
                assert(pieces[i].contains('\r'));
            }
        }
    }
    if pieces.len() == 1 {
        a_piece_goes_in_front(was, pieces[0]);
    } else {
        lines_go_in_front(was, pieces);
    }
}

/// What a text does not hold, no piece of it does.
proof fn no_piece_has(s: Seq<char>, sep: char, c: char)
    requires
        !s.contains(c),
    ensures
        forall|i: int|
            0 <= i < text::split(s, sep).len() ==> !(#[trigger] text::split(s, sep)[i]).contains(c),
    decreases s.len(),
{
    if s.len() > 0 {
        assert(!s.drop_last().contains(c)) by {
            if s.drop_last().contains(c) {
                let k = s.drop_last().index_of(c);
                assert(s[k] == c);
            }
        }
        no_piece_has(s.drop_last(), sep, c);
        text::split_is_not_empty(s.drop_last(), sep);
        let pieces = text::split(s.drop_last(), sep);
        assert(s[s.len() - 1] == s.last());
        assert forall|i: int| 0 <= i < text::split(s, sep).len() implies !(
        #[trigger] text::split(s, sep)[i]).contains(c) by {
            if s.last() != sep && i == pieces.len() - 1 {
                let piece = pieces.last().push(s.last());
                if piece.contains(c) {
                    let k = piece.index_of(c);
                    assert(pieces.last()[k] == c);
                    assert(pieces[i].contains(c));
                }
            } else if i < pieces.len() {
                assert(text::split(s, sep)[i] == pieces[i]);
            }
        }
    }
}

/// A text cut at a line break is cut on both sides of it.
proof fn a_text_is_cut_at_a_break(a: Seq<char>, b: Seq<char>)
    ensures
        text::split(a + seq!['\n'] + b, '\n') == text::split(a, '\n') + text::split(b, '\n'),
    decreases b.len(),
{
    let s = a + seq!['\n'] + b;
    let front = text::split(a, '\n');
    if b.len() == 0 {
        assert(s.drop_last() =~= a);
        assert(s.last() == '\n');
        assert(text::split(s, '\n') =~= front + text::split(b, '\n'));
    } else {
        let rest = b.drop_last();
        a_text_is_cut_at_a_break(a, rest);
        text::split_is_not_empty(rest, '\n');
        assert(s.drop_last() =~= a + seq!['\n'] + rest);
        assert(s.last() == b.last());
        let back = text::split(rest, '\n');
        assert((front + back).last() == back.last());
        assert(text::split(s, '\n') =~= front + text::split(b, '\n'));
    }
}

/// A line break of two characters is pasted like one of one: a carriage return in
/// front of a line feed is left out.
pub proof fn a_pasted_return_is_left_out(
    s: StateView,
    one: String,
    two: String,
    a: Seq<char>,
    b: Seq<char>,
)
    requires
        purpose::is_typing(s),
        !is_on_one_line(box_of(s).target),
        !a.contains('\r'),
        one@ == a + seq!['\n'] + b,
        two@ == a + seq!['\r', '\n'] + b,
    ensures
        s.updated(Msg::Paste(two)).0 == s.updated(Msg::Paste(one)).0,
        s.updated(Msg::Paste(two)).1 == s.updated(Msg::Paste(one)).1,
{
    let x = a.push('\r');
    assert(two@ =~= x + seq!['\n'] + b);
    a_text_is_cut_at_a_break(a, b);
    a_text_is_cut_at_a_break(x, b);
    text::split_is_not_empty(a, '\n');
    no_piece_has(a, '\n', '\r');
    let front = text::split(a, '\n');
    let marked = text::split(x, '\n');
    assert(x.drop_last() =~= a);
    let f = |line: Seq<char>| area::without_return(line);
    let n = front.len() as int;
    assert(front.last().push('\r').drop_last() =~= front.last());
    assert forall|i: int| 0 <= i < n implies f(#[trigger] marked[i]) == f(front[i]) by {
        if front[i].len() > 0 && front[i].last() == '\r' {
            assert(front[i].contains('\r'));
        }
    }
    let pieces_one = text::split(one@, '\n').map_values(f);
    let pieces_two = text::split(two@, '\n').map_values(f);
    assert(pieces_two =~= pieces_one);
}

proof fn lines_go_in_front(a: AreaView, pieces: Seq<Seq<char>>)
    requires
        area::cursor_in(a.lines, a.cursor),
        pieces.len() >= 2,
    ensures
        before(a.with_lines(pieces)) == before(a) + text::join(pieces, '\n'),
        behind(a.with_lines(pieces)) == behind(a),
{
    let (row, col) = a.cursor;
    let after = a.with_lines(pieces);
    let n = pieces.len() as int;
    let at = row + n - 1;
    let last = pieces.last();
    let above = a.lines.take(row);
    let first = above.push(a.head() + pieces.first());
    let middle = pieces.subrange(1, n - 1);
    assert(after.lines[at] =~= last + a.tail());
    assert(after.lines[at].take(last.len() as int) =~= last);
    assert(after.lines[at].skip(last.len() as int) =~= a.tail());
    assert(after.lines.skip(at + 1) =~= a.lines.skip(row + 1));
    assert(after.lines.take(at) =~= first + middle);
    let rest = middle.push(last);
    assert((first + middle).push(last) =~= first + rest);
    joined_around(first, rest);
    last_line_grows(above, a.head(), pieces.first());
    assert(pieces =~= seq![pieces.first()] + rest);
    joined_around(seq![pieces.first()], rest);
    assert(before(after) =~= before(a) + text::join(pieces, '\n'));
}

// ── One line ────────────────────────────────────────────────────────────────

/// The line that is typed.
pub open spec fn line_of(target: TargetView) -> Seq<char> {
    match target {
        TargetView::NewHashField { field, .. } => field,
        TargetView::NewZSetMember { member, .. } => member,
        TargetView::Ttl { text } => text,
        _ => Seq::empty(),
    }
}

/// Whether the target is the same one with another line.
pub open spec fn is_same_but_line(a: TargetView, b: TargetView) -> bool {
    match (a, b) {
        (
            TargetView::NewHashField { part: x, .. },
            TargetView::NewHashField { part: y, .. },
        ) => x == y,
        (
            TargetView::NewZSetMember { part: x, .. },
            TargetView::NewZSetMember { part: y, .. },
        ) => x == y,
        (TargetView::Ttl { .. }, TargetView::Ttl { .. }) => true,
        _ => false,
    }
}

/// A name or a time to live is typed at its end: a character goes there,
/// Backspace takes the last one, a paste goes there without its line breaks. The
/// text box is not touched.
pub proof fn a_line_is_typed_at_its_end(s: StateView, key: KeyPress)
    requires
        s.confirm is None,
        purpose::is_typing(s),
        is_on_one_line(box_of(s).target),
        keymap::lookup(s.keymap, key) != Some(Action::EditorStage),
        keymap::lookup(s.keymap, key) != Some(Action::Cancel),
        key.code != KeyCode::Enter,
        key.code != KeyCode::Down,
    ensures
        ({
            let (after, commands) = s.updated(Msg::Key(key));
            let was = box_of(s);
            let is = box_of(after);
            &&& commands.len() == 0
            &&& only_the_box_changed(s, after)
            &&& is.area == was.area
            &&& is_same_but_line(was.target, is.target)
            &&& line_of(is.target) == (if key.code == KeyCode::Backspace {
                if line_of(was.target).len() == 0 {
                    Seq::empty()
                } else {
                    line_of(was.target).drop_last()
                }
            } else if key.code is Char && !key.ctrl && !key.alt {
                line_of(was.target).push(key.code->0)
            } else {
                line_of(was.target)
            })
        }),
{
    if key.code is Char {
        let line = line_of(box_of(s).target);
        assert(line + seq![key.code->0] =~= line.push(key.code->0));
    }
}

/// A paste into a line goes to its end, without its line breaks.
pub proof fn a_line_is_pasted_at_its_end(s: StateView, pasted: String)
    requires
        purpose::is_typing(s),
        is_on_one_line(box_of(s).target),
    ensures
        ({
            let (after, commands) = s.updated(Msg::Paste(pasted));
            let was = box_of(s);
            let is = box_of(after);
            &&& commands.len() == 0
            &&& only_the_box_changed(s, after)
            &&& is.area == was.area
            &&& is_same_but_line(was.target, is.target)
            &&& line_of(is.target) == line_of(was.target) + pasted@.filter(
                |c: char| !(c == '\n' || c == '\r'),
            )
        }),
{
    assert((|c: char| !text::is_line_break(c)) =~= (|c: char| !(c == '\n' || c == '\r')));
}

/// Whether a field of this name is on screen.
pub open spec fn shows_field(value: Option<ValueView>, name: Seq<u8>) -> bool {
    value is Some && value->0 is Hash && exists|i: int|
        0 <= i < value->0->pairs.len() && (#[trigger] value->0->pairs[i]).0 == name
}

/// Whether a member of a sorted set of this name is on screen.
pub open spec fn shows_entry(value: Option<ValueView>, name: Seq<u8>) -> bool {
    value is Some && value->0 is ZSet && exists|i: int|
        0 <= i < value->0->ZSet_entries.len() && (#[trigger] value->0->ZSet_entries[i]).0 == name
}

/// Whether a member of a set of this name is on screen.
pub open spec fn shows_member(value: Option<ValueView>, name: Seq<u8>) -> bool {
    value is Some && value->0 is PlainSet && exists|i: int|
        0 <= i < value->0->members.len() && #[trigger] value->0->members[i] == name
}

/// Whether the name being typed may be left: a new field has a name, and neither
/// a field nor a member has one that is on screen.
pub open spec fn is_name_good(s: StateView) -> bool {
    match box_of(s).target {
        TargetView::NewHashField { field, .. } => field.len() > 0 && !shows_field(
            s.open->0.value,
            encode_utf8(field),
        ),
        TargetView::NewZSetMember { member, .. } => !shows_entry(
            s.open->0.value,
            encode_utf8(member),
        ),
        _ => false,
    }
}

/// Enter and Down leave a good name for the value part, and a bad one not.
pub proof fn a_good_name_is_left_for_the_value(s: StateView, key: KeyPress)
    requires
        s.confirm is None,
        purpose::is_typing(s),
        is_on_one_line(box_of(s).target),
        keymap::lookup(s.keymap, key) != Some(Action::EditorStage),
        keymap::lookup(s.keymap, key) != Some(Action::Cancel),
        key.code == KeyCode::Enter || key.code == KeyCode::Down,
    ensures
        ({
            let (after, commands) = s.updated(Msg::Key(key));
            let was = box_of(s);
            let is = box_of(after);
            &&& commands.len() == 0
            &&& only_the_box_changed(s, after)
            &&& is.area == was.area
            &&& !is_name_good(s) ==> is == was
            &&& is_name_good(s) ==> match was.target {
                TargetView::NewHashField { field, .. } => is.target == (TargetView::NewHashField {
                    field,
                    part: FieldPart::Value,
                }),
                TargetView::NewZSetMember { member, .. } => is.target == (
                TargetView::NewZSetMember { member, part: FieldPart::Value }),
                _ => false,
            }
        }),
{
    names_are_told_apart(s);
}

/// What blocks a name is what is on screen.
pub proof fn names_are_told_apart(s: StateView)
    requires
        purpose::is_typing(s),
    ensures
        s.name_blocked() <==> !is_name_good(s),
        s.open->0.set_member_duplicate() <==> box_of(s).target is NewSetMember && shows_member(
            s.open->0.value,
            encode_utf8(box_of(s).content()),
        ),
{
}

} // verus!
