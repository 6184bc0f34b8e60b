//! Writes: what opening the editor shows, what leaving it stages, what a
//! confirmation sends and what becomes of the answer.

use vstd::prelude::*;
use vstd::utf8::*;

use crate::command::CommandView;
use crate::input::{KeyCode, KeyPress};
use crate::json;
use crate::key::KeyName;
use crate::keymap::{self, Action};
use crate::layout::Pane;
use crate::msg::Msg;
use crate::mutation::{Mutation, MutationOutcome, MutationView, NotWritten};
use crate::purpose::{self, editor, list};
use crate::score;
use crate::state::editor::{EditView, FieldPart, TargetView};
use crate::state::loaded::KeyRow;
use crate::state::open::{OpenView, PhaseView};
use crate::state::pending::PendingView;
use crate::state::session::StateView;
use crate::state::status::{PendingReadView, ReadOnlyReason};
use crate::state::value::{ListEnd, ValueView};
use crate::text;

verus! {

// ── Opening the editor ──────────────────────────────────────────────────────

/// Whether an edit may begin: in the value pane, on a key that is there, with no
/// other edit under way.
pub open spec fn may_edit(s: StateView) -> bool {
    &&& s.focus == Pane::Value
    &&& s.open is Some
    &&& s.open->0.deleted_at_ms is None
    &&& !(s.open->0.edit is Typing)
    &&& !(s.open->0.edit is Staged)
}

/// Whether nothing but a notice came of it. Where no edit may begin, it says why.
pub open spec fn is_refused(s: StateView, after: StateView, commands: Seq<CommandView>) -> bool {
    &&& after == s
    &&& commands.len() == 1
    &&& commands[0] is Notify
    &&& !may_edit(s) ==> commands[0]->Notify_text == (if s.focus == Pane::Keys {
        if s.open is Some {
            "Tab to the value pane to edit"@
        } else {
            "open a key first"@
        }
    } else if s.open is None {
        "nothing open to edit"@
    } else if s.open->0.deleted_at_ms is Some {
        "gone — nothing to edit"@
    } else {
        "still saving the last edit"@
    })
}

/// Whether a buffer was opened on a text: it holds that text and nothing else,
/// knows what it was, and has nothing to undo. Nothing else changed.
pub open spec fn opens_on(
    s: StateView,
    after: StateView,
    commands: Seq<CommandView>,
    content: Seq<char>,
    target: TargetView,
    was_json: bool,
) -> bool {
    let buffer = editor::box_of(after);
    &&& commands.len() == 0
    &&& purpose::is_typing(after)
    &&& after == (StateView { open: after.open, ..s })
    &&& after.open->0 == (OpenView { edit: after.open->0.edit, ..s.open->0 })
    &&& text::join(buffer.area.lines, '\n') == content
    &&& buffer.original == encode_utf8(content)
    &&& buffer.target == target
    &&& buffer.was_json == was_json
    &&& buffer.area.past.len() == 0
    &&& buffer.area.future.len() == 0
    &&& buffer.area.cursor.1 == 0
}

/// Editing opens what is on screen: a string as a whole; of a hash the field, of
/// a list the element and of a sorted set the score that the cursor is on. What
/// is not text, is too large, or is not under the cursor is refused, and so is a
/// member of a set.
pub proof fn editing_opens_what_the_cursor_is_on(s: StateView, key: KeyPress)
    requires
        purpose::means(s, key, Action::Edit),
    ensures
        ({
            let (after, commands) = s.updated(Msg::Key(key));
            let open = s.open->0;
            let row = open.cursor as int;
            &&& !may_edit(s) ==> is_refused(s, after, commands)
            &&& may_edit(s) ==> match open.value {
                Some(ValueView::Str { text, .. }) => if encode_utf8(text).len() > 1_048_576 {
                    is_refused(s, after, commands)
                } else {
                    opens_on(s, after, commands, text, TargetView::Value, false)
                },
                Some(ValueView::Json { text, .. }) => if encode_utf8(text).len() > 1_048_576 {
                    is_refused(s, after, commands)
                } else {
                    opens_on(s, after, commands, text, TargetView::Value, true)
                },
                Some(ValueView::Hash { pairs, .. }) => if !open.cursor_active || row >= pairs.len()
                    || !valid_utf8(pairs[row].0) || !valid_utf8(pairs[row].1)
                    || pairs[row].1.len() > 1_048_576 {
                    is_refused(s, after, commands)
                } else {
                    opens_on(
                        s,
                        after,
                        commands,
                        decode_utf8(pairs[row].1),
                        TargetView::HashField { field: decode_utf8(pairs[row].0) },
                        json::looks_like_json(decode_utf8(pairs[row].1)),
                    )
                },
                Some(ValueView::List { items, .. }) => if !open.cursor_active || row >= items.len()
                    || !valid_utf8(items[row]) || items[row].len() > 1_048_576 {
                    is_refused(s, after, commands)
                } else {
                    opens_on(
                        s,
                        after,
                        commands,
                        decode_utf8(items[row]),
                        TargetView::ListElement { index: open.cursor },
                        json::looks_like_json(decode_utf8(items[row])),
                    )
                },
                Some(ValueView::ZSet { entries, .. }) => if !open.cursor_active || row
                    >= entries.len() {
                    is_refused(s, after, commands)
                } else {
                    opens_on(
                        s,
                        after,
                        commands,
                        entries[row].1,
                        TargetView::ZSetScore { member: entries[row].0 },
                        false,
                    )
                },
                _ => is_refused(s, after, commands),
            }
        }),
{
    if may_edit(s) {
        let open = s.open->0;
        let row = open.cursor as int;
        match open.value {
            Some(ValueView::Str { text, .. }) => {
                a_text_is_opened_as_it_is(text);
            },
            Some(ValueView::Json { text, .. }) => {
                a_text_is_opened_as_it_is(text);
            },
            Some(ValueView::Hash { pairs, .. }) => {
                a_text_is_opened_as_it_is(decode_utf8(pairs[row].1));
            },
            Some(ValueView::List { items, .. }) => {
                a_text_is_opened_as_it_is(decode_utf8(items[row]));
            },
            Some(ValueView::ZSet { entries, .. }) => {
                a_text_is_opened_as_it_is(entries[row].1);
            },
            _ => {},
        }
    }
}

/// A text cut into lines and put together again is the text.
proof fn a_text_is_opened_as_it_is(s: Seq<char>)
    ensures
        text::split(s, '\n').len() > 0,
        text::join(text::split(s, '\n'), '\n') == s,
{
    text::join_undoes_split(s, '\n');
    text::split_is_not_empty(s, '\n');
}

/// Adding opens an empty form for one more of what the value holds: a field by
/// its name first, a member, an element at the tail, a member of a sorted set by
/// its name first. A string has nothing to add to.
pub proof fn adding_opens_an_empty_form(s: StateView, key: KeyPress)
    requires
        purpose::means(s, key, Action::Add),
    ensures
        ({
            let (after, commands) = s.updated(Msg::Key(key));
            let none: Seq<char> = Seq::empty();
            &&& !may_edit(s) ==> is_refused(s, after, commands)
            &&& may_edit(s) ==> match s.open->0.value {
                Some(ValueView::Hash { .. }) => opens_on(
                    s,
                    after,
                    commands,
                    none,
                    TargetView::NewHashField { field: none, part: FieldPart::Name },
                    false,
                ),
                Some(ValueView::PlainSet { .. }) => opens_on(
                    s,
                    after,
                    commands,
                    none,
                    TargetView::NewSetMember,
                    false,
                ),
                Some(ValueView::List { .. }) => opens_on(
                    s,
                    after,
                    commands,
                    none,
                    TargetView::NewListElement { end: ListEnd::Tail },
                    false,
                ),
                Some(ValueView::ZSet { .. }) => opens_on(
                    s,
                    after,
                    commands,
                    none,
                    TargetView::NewZSetMember { member: none, part: FieldPart::Name },
                    false,
                ),
                _ => is_refused(s, after, commands),
            }
        }),
{
    a_text_is_opened_as_it_is(Seq::empty());
}

/// In the value pane the key of the tree opens an empty line for a time to live.
pub proof fn the_tree_key_asks_for_a_time_to_live(s: StateView, key: KeyPress)
    requires
        purpose::means(s, key, Action::ToggleTree),
        s.focus == Pane::Value,
    ensures
        ({
            let (after, commands) = s.updated(Msg::Key(key));
            let none: Seq<char> = Seq::empty();
            &&& !may_edit(s) ==> is_refused(s, after, commands)
            &&& may_edit(s) ==> opens_on(
                s,
                after,
                commands,
                none,
                TargetView::Ttl { text: none },
                false,
            )
        }),
{
    a_text_is_opened_as_it_is(Seq::empty());
}

// ── Staging ─────────────────────────────────────────────────────────────────

/// The write that a buffer asks for, for the key called `name`: what the text
/// was and what it is now, for what the buffer was opened on.
pub open spec fn asked_write(name: Seq<u8>, buffer: EditView) -> PendingView {
    let now = text::join(buffer.area.lines, '\n');
    let new = encode_utf8(now);
    let old = buffer.original;
    let was_json = buffer.was_json;
    match buffer.target {
        TargetView::HashField { field } => PendingView::SetHashField {
            name,
            field: encode_utf8(field),
            old,
            new,
            was_json,
        },
        TargetView::NewHashField { field, .. } => PendingView::AddHashField {
            name,
            field: encode_utf8(field),
            value: new,
        },
        TargetView::NewSetMember => PendingView::AddSetMember { name, member: new },
        TargetView::ListElement { index } => PendingView::SetListElement {
            name,
            index,
            old,
            new,
            was_json,
        },
        TargetView::NewListElement { end } => PendingView::AddListElement { name, end, value: new },
        TargetView::ZSetScore { member } => PendingView::SetZSetScore {
            name,
            member,
            old_score: text::shown(old),
            new_score: now,
        },
        TargetView::NewZSetMember { member, .. } => PendingView::AddZSetMember {
            name,
            member: encode_utf8(member),
            score: now,
        },
        _ => PendingView::SetString { name, old, new, was_json },
    }
}

/// Whether what is typed can be written: a new member is not on screen, a score
/// is a number.
pub open spec fn is_writable(s: StateView) -> bool {
    let buffer = editor::box_of(s);
    let now = text::join(buffer.area.lines, '\n');
    match buffer.target {
        TargetView::NewSetMember => !editor::shows_member(s.open->0.value, encode_utf8(now)),
        TargetView::ZSetScore { .. } => score::is_score(now),
        TargetView::NewZSetMember { .. } => score::is_score(now),
        TargetView::Ttl { .. } => false,
        _ => true,
    }
}

/// Whether the buffer changes something that is there, and holds what that was.
pub open spec fn is_as_it_was(buffer: EditView) -> bool {
    &&& !(buffer.target is NewHashField)
    &&& !(buffer.target is NewSetMember)
    &&& !(buffer.target is NewListElement)
    &&& !(buffer.target is NewZSetMember)
    &&& encode_utf8(text::join(buffer.area.lines, '\n')) == buffer.original
}

/// Staging a buffer puts the write that it asks for up to be confirmed, and the
/// buffer takes no more keys. A text that is as it was puts the buffer away, and
/// one that cannot be written stays to be typed into. Nothing is sent.
pub proof fn staging_asks_for_what_was_typed(s: StateView, key: KeyPress)
    requires
        s.confirm is None,
        purpose::is_typing(s),
        editor::box_of(s).target is ZSetScore ==> score::is_score(
            text::shown(editor::box_of(s).original),
        ),
        keymap::lookup(s.keymap, key) == Some(Action::EditorStage) || (key.code == KeyCode::Enter
            && !editor::is_on_one_line(editor::box_of(s).target) && !(editor::box_of(
            s,
        ).target is Value) && keymap::lookup(s.keymap, key) is None),
    ensures
        ({
            let (after, commands) = s.updated(Msg::Key(key));
            let buffer = editor::box_of(s);
            let stays = !is_writable(s) || (editor::is_on_one_line(buffer.target)
                && !editor::is_name_good(s));
            &&& commands.len() == 0
            &&& stays ==> after == s
            &&& !stays && is_as_it_was(buffer) ==> after == (StateView {
                open: Some(OpenView { edit: PhaseView::Idle, ..s.open->0 }),
                ..s
            })
            &&& !stays && !is_as_it_was(buffer) ==> after == (StateView {
                open: Some(OpenView { edit: PhaseView::Staged(buffer), ..s.open->0 }),
                confirm: Some(asked_write(s.open->0.name, buffer)),
                ..s
            })
        }),
{
    editor::names_are_told_apart(s);
}

// ── Confirming ──────────────────────────────────────────────────────────────

/// What a staged write sends to the server.
pub open spec fn sent(pending: PendingView) -> MutationView {
    match pending {
        PendingView::DeleteKey { name, .. } => MutationView::DeleteKey { key: name },
        PendingView::SetString { name, new, .. } => MutationView::SetString {
            key: name,
            value: new,
        },
        PendingView::SetHashField { name, field, new, .. } => MutationView::SetHashField {
            key: name,
            field,
            value: new,
        },
        PendingView::AddHashField { name, field, value } => MutationView::AddHashField {
            key: name,
            field,
            value,
        },
        PendingView::DeleteHashField { name, field, .. } => MutationView::DeleteHashField {
            key: name,
            field,
        },
        PendingView::AddSetMember { name, member } => MutationView::AddSetMember {
            key: name,
            member,
        },
        PendingView::DeleteSetMember { name, member, .. } => MutationView::DeleteSetMember {
            key: name,
            member,
        },
        PendingView::SetListElement { name, index, old, new, .. } => MutationView::SetListElement {
            key: name,
            index,
            expected: old,
            value: new,
        },
        PendingView::AddListElement { name, end, value } => MutationView::AddListElement {
            key: name,
            end,
            value,
        },
        PendingView::DeleteListElement { name, index, element, .. } => {
            MutationView::DeleteListElement { key: name, index, expected: element }
        },
        PendingView::SetZSetScore { name, member, new_score, .. } => MutationView::SetZSetScore {
            key: name,
            member,
            score: new_score,
        },
        PendingView::AddZSetMember { name, member, score } => MutationView::AddZSetMember {
            key: name,
            member,
            score,
        },
        PendingView::DeleteZSetMember { name, member, .. } => MutationView::DeleteZSetMember {
            key: name,
            member,
        },
    }
}

/// The session with no edit of the Open key.
pub open spec fn without_edit(s: StateView) -> StateView {
    StateView {
        open: match s.open {
            Some(open) => Some(OpenView { edit: PhaseView::Idle, ..open }),
            None => None,
        },
        ..s
    }
}

/// A plain `y` sends the staged write, once, with the row of a key that goes; in
/// a session that does not write it sends nothing, and says so. `Esc` gives the
/// write up, and the edit it came from. Any other key leaves everything as it is.
pub proof fn only_y_sends_what_was_staged(s: StateView, key: KeyPress)
    requires
        s.confirm is Some,
    ensures
        ({
            let (after, commands) = s.updated(Msg::Key(key));
            let yes = key.code == KeyCode::Char('y') && !key.ctrl && !key.alt;
            &&& yes && s.read_only is None ==> {
                &&& after == (StateView { confirm: None, ..s })
                &&& commands == seq![
                    CommandView::Execute {
                        mutation: sent(s.confirm->0),
                        index: if s.confirm->0 is DeleteKey {
                            Some(s.confirm->0->DeleteKey_index)
                        } else {
                            None
                        },
                    },
                ]
            }
            &&& yes && s.read_only is Some ==> {
                &&& after == without_edit(StateView { confirm: None, ..s })
                &&& commands == seq![
                    CommandView::Notify {
                        text: "read-only ("@ + (match s.read_only->0 {
                            ReadOnlyReason::Environment => "environment"@,
                            ReadOnlyReason::Replica => "replica"@,
                            ReadOnlyReason::User => "user"@,
                        }) + "): not executed"@,
                    },
                ]
            }
            &&& key.code == KeyCode::Esc ==> {
                &&& after == without_edit(StateView { confirm: None, ..s })
                &&& commands.len() == 0
            }
            &&& !yes && key.code != KeyCode::Esc ==> after == s && commands.len() == 0
        }),
{
}

// ── The answers ─────────────────────────────────────────────────────────────

/// Whether the Open key is called `name`.
pub open spec fn is_open(s: StateView, name: Seq<u8>) -> bool {
    s.open is Some && s.open->0.name == name
}

/// Whether this row alone is told gone, if it is the row of that key.
pub open spec fn is_told_gone(
    s: StateView,
    after: StateView,
    index: Option<usize>,
    name: Seq<u8>,
) -> bool {
    &&& after.keys.rows.len() == s.keys.rows.len()
    &&& after.keys.arena == s.keys.arena
    &&& after.keys.cap == s.keys.cap
    &&& forall|row: int|
        0 <= row < s.keys.rows.len() ==> #[trigger] after.keys.rows[row] == (if index is Some
            && index->0 == row && s.keys.name(row) == Some(name) {
            KeyRow { kind: None, gone: true, ..s.keys.rows[row] }
        } else {
            s.keys.rows[row]
        })
}

/// A write that failed is shown with the command that failed. No read is waited
/// for any more; a staged edit is over, and one being typed is not touched.
pub proof fn a_failed_write_is_shown(
    s: StateView,
    mutation: Mutation,
    index: Option<usize>,
    detail: String,
    at_ms: u64,
)
    ensures
        ({
            let (after, commands) = s.updated(
                Msg::MutationSettled { mutation, index, result: Err(detail), at_ms },
            );
            let kept = if purpose::is_typing(s) {
                s
            } else {
                without_edit(s)
            };
            &&& commands.len() == 0
            &&& after.error is Some
            &&& (after.error->0).1 == at_ms
            &&& (after.error->0).0 == mutation@.label() + ": "@ + detail@
            &&& after == (StateView { open_pending: None, error: after.error, ..kept })
        }),
{
}

/// A key that was deleted is told gone in its own row; if it is open, its value
/// stays on screen and is told gone too.
pub proof fn a_deleted_key_is_told_gone(
    s: StateView,
    key: KeyName,
    index: Option<usize>,
    at_ms: u64,
)
    ensures
        ({
            let (after, commands) = s.updated(
                Msg::MutationSettled {
                    mutation: Mutation::DeleteKey { key },
                    index,
                    result: Ok(MutationOutcome::Done),
                    at_ms,
                },
            );
            &&& commands.len() == 0
            &&& is_told_gone(s, after, index, key@)
            &&& after.notice == Some(("deleted "@ + text::shown(key@), at_ms))
            &&& !is_open(s, key@) ==> after == (StateView {
                keys: after.keys,
                notice: after.notice,
                ..s
            })
            &&& is_open(s, key@) ==> {
                &&& after.open is Some
                &&& after.open->0 == (OpenView {
                    deleted_at_ms: Some(at_ms),
                    pending: None,
                    edit: after.open->0.edit,
                    ..s.open->0
                })
                &&& after == (StateView {
                    keys: after.keys,
                    notice: after.notice,
                    open: after.open,
                    confirm: after.confirm,
                    ..s
                })
            }
        }),
{
}

/// Any other write that was made is read back, if its key is open: the answer to
/// that read lands whatever the reader does. A key that is not open is left
/// alone.
pub proof fn a_write_is_read_back(
    s: StateView,
    mutation: Mutation,
    index: Option<usize>,
    at_ms: u64,
)
    requires
        !(mutation is DeleteKey),
    ensures
        ({
            let (after, commands) = s.updated(
                Msg::MutationSettled {
                    mutation,
                    index,
                    result: Ok(MutationOutcome::Done),
                    at_ms,
                },
            );
            let name = key_of(mutation@);
            &&& !is_open(s, name) ==> after == s && commands.len() == 0
            &&& is_open(s, name) ==> {
                &&& after.read_token == list::next_token(s.read_token)
                &&& commands == seq![
                    CommandView::ReadKey {
                        key: name,
                        index: s.open->0.index,
                        token: after.read_token,
                        arm: list::can_track(s.link),
                    },
                ]
                &&& after.open_pending == Some(
                    PendingReadView {
                        name,
                        token: after.read_token,
                        index: s.open->0.index,
                        issued_at_ms: None,
                        activate_cursor: false,
                        own_write: true,
                    },
                )
                &&& after.open is Some
                &&& after.open->0 == (OpenView {
                    edit: match s.open->0.edit {
                        PhaseView::Staged(buffer) => PhaseView::Landed(buffer),
                        other => other,
                    },
                    ..s.open->0
                })
                &&& after == (StateView {
                    read_token: after.read_token,
                    open_pending: after.open_pending,
                    open: after.open,
                    ..s
                })
            }
        }),
{
}

/// The key that a write is for.
pub open spec fn key_of(mutation: MutationView) -> Seq<u8> {
    match mutation {
        MutationView::DeleteKey { key } => key,
        MutationView::SetString { key, .. } => key,
        MutationView::SetHashField { key, .. } => key,
        MutationView::AddHashField { key, .. } => key,
        MutationView::DeleteHashField { key, .. } => key,
        MutationView::AddSetMember { key, .. } => key,
        MutationView::DeleteSetMember { key, .. } => key,
        MutationView::SetListElement { key, .. } => key,
        MutationView::AddListElement { key, .. } => key,
        MutationView::DeleteListElement { key, .. } => key,
        MutationView::SetZSetScore { key, .. } => key,
        MutationView::AddZSetMember { key, .. } => key,
        MutationView::DeleteZSetMember { key, .. } => key,
    }
}

/// Why a write was not made, in words.
pub open spec fn reason(why: NotWritten) -> Seq<char> {
    match why {
        NotWritten::KeyGone => "key no longer exists"@,
        NotWritten::FieldGone => "field no longer exists"@,
        NotWritten::FieldExists => "field already exists"@,
        NotWritten::MemberExists => "member already exists"@,
        NotWritten::ElementMoved =>
            "that element moved — the list changed underneath it, look again"@,
        NotWritten::MemberGone => "member no longer exists"@,
    }
}

/// The buffer handed back to be typed into, whatever came of the write.
pub open spec fn handed_back(edit: PhaseView) -> PhaseView {
    match edit {
        PhaseView::Staged(buffer) => PhaseView::Typing(buffer),
        PhaseView::Landed(buffer) => PhaseView::Typing(buffer),
        other => other,
    }
}

/// A guarded write that was not made loses nothing of what was typed: the buffer
/// comes back, and the reason is shown. A key that is gone is told so, and any
/// other is read again.
pub proof fn what_was_not_written_is_kept(
    s: StateView,
    mutation: Mutation,
    index: Option<usize>,
    why: NotWritten,
    at_ms: u64,
)
    ensures
        ({
            let (after, commands) = s.updated(
                Msg::MutationSettled {
                    mutation,
                    index,
                    result: Ok(MutationOutcome::NotWritten(why)),
                    at_ms,
                },
            );
            let name = key_of(mutation@);
            &&& !is_open(s, name) ==> after == s && commands.len() == 0
            &&& is_open(s, name) ==> {
                &&& after.error is Some && (after.error->0).1 == at_ms
                &&& (after.error->0).0 == (if why != NotWritten::KeyGone || !(
                s.open->0.edit is Idle) {
                    mutation@.label() + ": "@ + reason(why) + " — nothing written"@
                        + ", edit kept"@
                } else {
                    mutation@.label() + ": "@ + reason(why) + " — nothing written"@
                })
                &&& after.open is Some
                &&& after.open->0.edit == handed_back(s.open->0.edit)
                &&& after.open->0.value == s.open->0.value
                &&& why == NotWritten::KeyGone ==> {
                    &&& commands.len() == 0
                    &&& is_told_gone(s, after, s.open->0.index, name)
                    &&& after.open->0 == (OpenView {
                        edit: after.open->0.edit,
                        deleted_at_ms: Some(at_ms),
                        pending: None,
                        ..s.open->0
                    })
                    &&& after == (StateView {
                        open: after.open,
                        keys: after.keys,
                        error: after.error,
                        ..s
                    })
                }
                &&& why != NotWritten::KeyGone ==> {
                    &&& list::asks_for(s, after, commands, name, s.open->0.index, false)
                    &&& after.open->0 == (OpenView { edit: after.open->0.edit, ..s.open->0 })
                    &&& after == (StateView {
                        open: after.open,
                        error: after.error,
                        read_token: after.read_token,
                        open_pending: after.open_pending,
                        ..s
                    })
                }
            }
        }),
{
}

/// A removal that found nothing says so and reads the Open key again; of any
/// other key nothing is said.
pub proof fn what_was_gone_already_is_said(
    s: StateView,
    mutation: Mutation,
    index: Option<usize>,
    at_ms: u64,
)
    ensures
        ({
            let (after, commands) = s.updated(
                Msg::MutationSettled {
                    mutation,
                    index,
                    result: Ok(MutationOutcome::NothingToRemove),
                    at_ms,
                },
            );
            let name = key_of(mutation@);
            &&& !is_open(s, name) ==> after == s && commands.len() == 0
            &&& is_open(s, name) ==> {
                &&& after.notice is Some && (after.notice->0).1 == at_ms
                &&& (after.notice->0).0 == mutation@.label() + ": "@ + (match mutation@ {
                    MutationView::DeleteHashField { .. } => "field"@,
                    MutationView::DeleteListElement { .. } => "element"@,
                    MutationView::DeleteSetMember { .. } => "member"@,
                    MutationView::DeleteZSetMember { .. } => "member"@,
                    _ => "entry"@,
                }) + " already gone"@
                &&& list::asks_for(s, after, commands, name, s.open->0.index, false)
                &&& after == (StateView {
                    notice: after.notice,
                    read_token: after.read_token,
                    open_pending: after.open_pending,
                    ..s
                })
            }
        }),
{
}

/// Whether a write to parts of this key, or to its value, waits to be confirmed.
pub open spec fn is_asked_about(s: StateView, name: Seq<u8>) -> bool {
    s.confirm is Some && !(s.confirm->0 is DeleteKey) && key_of(sent(s.confirm->0)) == name
}

/// What is left of an edit, and of the question about it, when its key turns out
/// to be gone: the question goes, and what was typed comes back. An edit without
/// a question goes on, and one whose write was made is over.
pub open spec fn is_edit_given_back(s: StateView, after: StateView, name: Seq<u8>) -> bool {
    let was = s.open->0.edit;
    &&& is_asked_about(s, name) ==> {
        &&& after.confirm is None
        &&& after.open->0.edit == handed_back(was)
    }
    &&& !is_asked_about(s, name) ==> {
        &&& after.confirm == s.confirm
        &&& after.open->0.edit == (if was is Landed {
            PhaseView::Idle
        } else {
            was
        })
    }
}

/// A read that finds the Open key gone gives the edit of it back, and says so
/// where a write was asked about.
pub proof fn a_gone_key_gives_the_edit_back(s: StateView, msg: Msg)
    requires
        s.open is Some,
        msg is ValueGone,
        msg->ValueGone_token == s.read_token,
        msg->ValueGone_name@ == s.open->0.name,
    ensures
        ({
            let after = s.updated(msg).0;
            let name = s.open->0.name;
            &&& after.open is Some
            &&& is_edit_given_back(s, after, name)
            &&& after.notice == (if is_asked_about(s, name) {
                Some(
                    (
                        text::shown(name) + " is gone — nothing written, edit kept"@,
                        msg->ValueGone_at_ms,
                    ),
                )
            } else {
                s.notice
            })
            &&& after == (StateView {
                open: after.open,
                open_pending: None,
                keys: after.keys,
                confirm: after.confirm,
                notice: after.notice,
                ..s
            })
        }),
{
    if s.confirm is Some {
        assert(s.confirm->0.name() == key_of(sent(s.confirm->0)));
    }
}

/// And so does a delete of the Open key.
pub proof fn a_deleted_key_gives_the_edit_back(
    s: StateView,
    key: KeyName,
    index: Option<usize>,
    at_ms: u64,
)
    requires
        s.open is Some,
        s.open->0.name == key@,
    ensures
        ({
            let after = s.updated(
                Msg::MutationSettled {
                    mutation: Mutation::DeleteKey { key },
                    index,
                    result: Ok(MutationOutcome::Done),
                    at_ms,
                },
            ).0;
            &&& after.open is Some
            &&& is_edit_given_back(s, after, key@)
        }),
{
    if s.confirm is Some {
        assert(s.confirm->0.name() == key_of(sent(s.confirm->0)));
    }
}

// ── What writes are called ──────────────────────────────────────────────────

/// A write is called by the command that makes it, its key, and what in the key
/// it is about.
pub proof fn a_write_is_called_by_its_command(m: MutationView)
    ensures
        m.key() == key_of(m),
        m.label() == (match m {
            MutationView::DeleteKey { key } => "DEL"@ + " "@ + text::shown(key),
            MutationView::SetString { key, .. } => "SET"@ + " "@ + text::shown(key),
            MutationView::SetHashField { key, field, .. } => "HSET"@ + " "@ + text::shown(key)
                + " "@ + text::shown(field),
            MutationView::AddHashField { key, field, .. } => "HSETNX"@ + " "@ + text::shown(key)
                + " "@ + text::shown(field),
            MutationView::DeleteHashField { key, field } => "HDEL"@ + " "@ + text::shown(key)
                + " "@ + text::shown(field),
            MutationView::AddSetMember { key, .. } => "SADD"@ + " "@ + text::shown(key),
            MutationView::DeleteSetMember { key, .. } => "SREM"@ + " "@ + text::shown(key),
            MutationView::SetListElement { key, index, .. } => "LSET"@ + " "@ + text::shown(key)
                + " "@ + text::decimal(index as nat),
            MutationView::AddListElement { key, end, .. } => if end == ListEnd::Head {
                "LPUSH"@ + " "@ + text::shown(key)
            } else {
                "RPUSH"@ + " "@ + text::shown(key)
            },
            MutationView::DeleteListElement { key, index, .. } => "LREM"@ + " "@ + text::shown(key)
                + " "@ + text::decimal(index as nat),
            MutationView::SetZSetScore { key, member, .. } => "ZADD"@ + " "@ + text::shown(key)
                + " "@ + text::shown(member),
            MutationView::AddZSetMember { key, .. } => "ZADD"@ + " "@ + text::shown(key) + " NX"@,
            MutationView::DeleteZSetMember { key, .. } => "ZREM"@ + " "@ + text::shown(key),
        }),
{
}

/// The preview of a string shows the value that will be set, and that its time
/// to live stays. An edit of JSON is warned of exactly where what was typed is
/// none, and an edit of anything else never.
pub proof fn the_preview_shows_what_will_be(pending: PendingView)
    ensures
        pending is SetString ==> pending.text() == "SET"@ + " "@ + text::shown(
            pending->SetString_name,
        ) + " "@ + text::shown(pending->SetString_new) + " KEEPTTL XX"@,
        pending.name() == key_of(sent(pending)),
        match pending {
            PendingView::SetString { new, was_json, .. } => pending.breaks_json() == is_warned_of(
                new,
                was_json,
            ),
            PendingView::SetHashField { new, was_json, .. } => pending.breaks_json()
                == is_warned_of(new, was_json),
            PendingView::SetListElement { new, was_json, .. } => pending.breaks_json()
                == is_warned_of(new, was_json),
            _ => pending.breaks_json() is None,
        },
{
}

/// Whether what was JSON no longer is.
pub open spec fn is_warned_of(new: Seq<u8>, was_json: bool) -> Option<bool> {
    if !was_json {
        None
    } else if valid_utf8(new) {
        Some(!json::is_json(decode_utf8(new)))
    } else {
        Some(true)
    }
}

} // verus!
