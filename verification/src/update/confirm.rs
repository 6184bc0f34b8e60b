//! The mutation preview: confirming a staged write or dismissing it, and what
//! the server's answer to it means.

use vstd::prelude::*;

use crate::command::{notify, nothing, only, Command, CommandView};
use crate::input::{KeyCode, KeyPress};
use crate::key::KeyName;
use crate::mutation::{Mutation, MutationOutcome, MutationView, NotWritten};
use crate::state::pending::{PendingMutation, PendingView};
use crate::state::session::{State, StateView};
use crate::state::status::PendingReadView;
use crate::text;
use crate::update::editor::clear_editing;
use crate::update::reads::refetch;
use crate::update::viewer::{has_open, mark_gone, tombstone_open};
use crate::update::Outcome;

verus! {

// ── What the keys and the answers do ────────────────────────────────────────

impl StateView {
    /// A keypress while `pending`, taken out of the session, waits to be
    /// confirmed. A plain `y` carries it out, unless this session does not
    /// write; `Esc` gives it up together with the edit it came from; after any
    /// other key it waits on.
    pub open spec fn confirm_key(self, pending: PendingView, key: KeyPress) -> Outcome {
        if key.typed() == Some('y') {
            match self.read_only {
                Some(reason) => self.edit_ended().noticing(
                    "read-only ("@ + reason.name() + "): not executed"@,
                ),
                None => (self, seq![pending.command()]),
            }
        } else if key.code == KeyCode::Esc {
            self.edit_ended().unchanged()
        } else {
            StateView { confirm: Some(pending), ..self }.unchanged()
        }
    }

    /// An operation failed. No read is waited for any more, and an edit that is
    /// not being typed is over; one that is, is not touched.
    pub open spec fn failed(self, command: Seq<char>, detail: Seq<char>, at_ms: u64) -> StateView {
        let settled = if self.typing() is None {
            self.edit_ended()
        } else {
            self
        };
        StateView {
            open_pending: None,
            error: Some((command + ": "@ + detail, at_ms)),
            ..settled
        }
    }

    /// A key was deleted. If it is open, its last value stays on screen.
    pub open spec fn key_deleted(
        self,
        index: Option<usize>,
        name: Seq<u8>,
        at_ms: u64,
    ) -> StateView {
        let told = StateView { keys: self.keys.lost(index, name), ..self };
        StateView {
            notice: Some(("deleted "@ + text::shown(name), at_ms)),
            ..told.open_key_gone(name, at_ms)
        }
    }

    /// The pending read marked as one that reads back what was written.
    pub open spec fn reading_back(self) -> StateView {
        match self.open_pending {
            Some(read) => StateView {
                open_pending: Some(PendingReadView { own_write: true, ..read }),
                ..self
            },
            None => self,
        }
    }

    /// A write landed. If its key is open, the guard of the edit goes and the
    /// key is read back.
    pub open spec fn write_landed(self, key: Seq<u8>) -> Outcome {
        if self.has_open(key) {
            let open = self.open->0;
            let (next, commands) = self.with_open(
                Some(open.with_edit(open.edit.landed())),
            ).refetched();
            (next.reading_back(), commands)
        } else {
            self.unchanged()
        }
    }

    /// A removal found nothing to remove. If its key is open, that is said, and
    /// the key is read again.
    pub open spec fn nothing_removed(self, mutation: MutationView, at_ms: u64) -> Outcome {
        if self.has_open(mutation.key()) {
            StateView {
                notice: Some(
                    (mutation.label() + ": "@ + mutation.noun() + " already gone"@, at_ms),
                ),
                ..self
            }.refetched()
        } else {
            self.unchanged()
        }
    }

    /// A guarded write was not made. If its key is open, that is said and the
    /// text comes back to be typed into: there is no other copy of it. A key
    /// that is gone is told so, and any other is read again.
    pub open spec fn not_written(
        self,
        mutation: MutationView,
        why: NotWritten,
        at_ms: u64,
    ) -> Outcome {
        if !self.has_open(mutation.key()) {
            self.unchanged()
        } else {
            let open = self.open->0;
            let kept = open.edit.editor() is Some;
            let words = mutation.label() + ": "@ + why.why() + " — nothing written"@;
            let unstaged = open.with_edit(open.edit.unstaged());
            if why == NotWritten::KeyGone {
                (
                    StateView {
                        open: Some(unstaged.tombstoned(at_ms)),
                        keys: self.keys.lost(open.index, mutation.key()),
                        error: Some(
                            (
                                if kept {
                                    words + ", edit kept"@
                                } else {
                                    words
                                },
                                at_ms,
                            ),
                        ),
                        ..self
                    },
                    Seq::empty(),
                )
            } else {
                StateView {
                    open: Some(unstaged),
                    error: Some((words + ", edit kept"@, at_ms)),
                    ..self
                }.refetched()
            }
        }
    }

    /// What a write's outcome means.
    pub open spec fn mutation_settled(
        self,
        mutation: MutationView,
        index: Option<usize>,
        result: Result<MutationOutcome, String>,
        at_ms: u64,
    ) -> Outcome {
        match result {
            Err(detail) => self.failed(mutation.label(), detail@, at_ms).unchanged(),
            Ok(MutationOutcome::Done) => match mutation {
                MutationView::DeleteKey { key } => self.key_deleted(
                    index,
                    key,
                    at_ms,
                ).unchanged(),
                _ => self.write_landed(mutation.key()),
            },
            Ok(MutationOutcome::NotWritten(why)) => self.not_written(mutation, why, at_ms),
            Ok(MutationOutcome::NothingToRemove) => self.nothing_removed(mutation, at_ms),
        }
    }
}

// ── The keys and the answers ────────────────────────────────────────────────

/// Takes a keypress while `pending`, taken out of the session, waits to be
/// confirmed. Whether writes are allowed is asked here, when the reader has seen the command.
pub fn confirm_key(state: State, pending: PendingMutation, key: KeyPress) -> (r: (
    State,
    Vec<Command>,
))
    ensures
        r.0@ == state@.confirm_key(pending@, key).0,
        Command::list(r.1@) == state@.confirm_key(pending@, key).1,
{
    let mut next = state;
    match key.code {
        KeyCode::Char('y') if !key.ctrl && !key.alt => {
            if let Some(reason) = next.read_only {
                clear_editing(&mut next);
                let mut words = text::owned("read-only (");
                words.append(reason.label());
                words.append("): not executed");
                return (next, notify(words.as_str()));
            }
            (next, only(pending.into_command()))
        },
        KeyCode::Esc => {
            clear_editing(&mut next);
            (next, nothing())
        },
        _ => {
            next.confirm = Some(pending);
            (next, nothing())
        },
    }
}

/// Takes in that an operation failed, and shows the command that did.
pub fn failed(state: State, command: String, detail: String, at_ms: u64) -> (r: (
    State,
    Vec<Command>,
))
    ensures
        r.0@ == state@.failed(command@, detail@, at_ms),
        Command::list(r.1@) == Seq::<CommandView>::empty(),
{
    let mut next = state;
    next.open_pending = None;
    let typing: bool = match &next.open {
        Some(open) => open.typing().is_some(),
        None => false,
    };
    if !typing {
        clear_editing(&mut next);
    }
    let mut words = command;
    words.append(": ");
    words.append(detail.as_str());
    next.error = Some((words, at_ms));
    (next, nothing())
}

/// Takes in that a key was deleted.
pub fn key_deleted(state: State, index: Option<usize>, name: KeyName, at_ms: u64) -> (r: (
    State,
    Vec<Command>,
))
    ensures
        r.0@ == state@.key_deleted(index, name@, at_ms),
        Command::list(r.1@) == Seq::<CommandView>::empty(),
{
    let mut next = state;
    mark_gone(&mut next, index, &name);
    tombstone_open(&mut next, &name, at_ms);
    let mut words = text::owned("deleted ");
    words.append(name.display().as_str());
    next.notice = Some((words, at_ms));
    (next, nothing())
}

/// Takes in that a write landed. What reaches the screen is what is read back,
/// never what was sent.
pub fn write_landed(state: State, key: &KeyName) -> (r: (State, Vec<Command>))
    ensures
        r.0@ == state@.write_landed(key@).0,
        Command::list(r.1@) == state@.write_landed(key@).1,
{
    let mut next = state;
    if !has_open(&next, key) {
        return (next, nothing());
    }
    if let Some(open) = &mut next.open {
        open.write_landed();
    }
    let commands = refetch(&mut next);
    if let Some(read) = &mut next.open_pending {
        read.own_write = true;
    }
    (next, commands)
}

/// Takes in that there was nothing to remove.
pub fn nothing_to_remove(state: State, mutation: &Mutation, at_ms: u64) -> (r: (
    State,
    Vec<Command>,
))
    ensures
        r.0@ == state@.nothing_removed(mutation@, at_ms).0,
        Command::list(r.1@) == state@.nothing_removed(mutation@, at_ms).1,
{
    let mut next = state;
    if !has_open(&next, mutation.key()) {
        return (next, nothing());
    }
    let mut words = mutation.command_label();
    words.append(": ");
    words.append(mutation.noun());
    words.append(" already gone");
    next.notice = Some((words, at_ms));
    let commands = refetch(&mut next);
    (next, commands)
}

/// Takes in that a guarded write was not made.
pub fn not_written(state: State, mutation: &Mutation, why: NotWritten, at_ms: u64) -> (r: (
    State,
    Vec<Command>,
))
    ensures
        r.0@ == state@.not_written(mutation@, why, at_ms).0,
        Command::list(r.1@) == state@.not_written(mutation@, why, at_ms).1,
{
    let mut next = state;
    let name = mutation.key();
    if !has_open(&next, name) {
        return (next, nothing());
    }
    let mut words = mutation.command_label();
    words.append(": ");
    words.append(why.reason());
    words.append(" — nothing written");
    match why {
        NotWritten::KeyGone => {
            let mut index: Option<usize> = None;
            let mut kept: bool = false;
            if let Some(open) = &mut next.open {
                index = open.index;
                kept = open.editor().is_some();
                open.deleted_at_ms = Some(at_ms);
                open.pending = None;
                open.unstage_buffer();
            }
            mark_gone(&mut next, index, name);
            if kept {
                words.append(", edit kept");
            }
            next.error = Some((words, at_ms));
            (next, nothing())
        },
        NotWritten::FieldGone
        | NotWritten::FieldExists
        | NotWritten::MemberExists
        | NotWritten::ElementMoved
        | NotWritten::MemberGone => {
            if let Some(open) = &mut next.open {
                open.unstage_buffer();
            }
            words.append(", edit kept");
            next.error = Some((words, at_ms));
            let commands = refetch(&mut next);
            (next, commands)
        },
    }
}

/// Gives a write's outcome its meaning.
pub fn mutation_settled(
    state: State,
    mutation: Mutation,
    index: Option<usize>,
    result: Result<MutationOutcome, String>,
    at_ms: u64,
) -> (r: (State, Vec<Command>))
    ensures
        r.0@ == state@.mutation_settled(mutation@, index, result, at_ms).0,
        Command::list(r.1@) == state@.mutation_settled(mutation@, index, result, at_ms).1,
{
    match result {
        Err(detail) => failed(state, mutation.command_label(), detail, at_ms),
        Ok(MutationOutcome::Done) => match mutation {
            Mutation::DeleteKey { key } => key_deleted(state, index, key, at_ms),
            written => write_landed(state, written.key()),
        },
        Ok(MutationOutcome::NotWritten(why)) => not_written(state, &mutation, why, at_ms),
        Ok(MutationOutcome::NothingToRemove) => nothing_to_remove(state, &mutation, at_ms),
    }
}

// ── Laws ────────────────────────────────────────────────────────────────────

/// A session that does not write never writes: whatever is pressed while a
/// write waits, nothing is executed.
pub proof fn a_read_only_session_executes_nothing(
    s: StateView,
    pending: PendingView,
    key: KeyPress,
)
    requires
        s.read_only is Some,
    ensures
        forall|i: int|
            0 <= i < s.confirm_key(pending, key).1.len() ==> !((#[trigger] s.confirm_key(
                pending,
                key,
            ).1[i]) is Execute),
{
}

/// A write is executed for a plain `y` and for no other key, and then it is the
/// one that was shown.
pub proof fn only_y_executes(s: StateView, pending: PendingView, key: KeyPress)
    ensures
        ({
            let (after, commands) = s.confirm_key(pending, key);
            &&& (key.typed() == Some('y') && s.read_only is None) ==> commands == seq![
                pending.command(),
            ]
            &&& !(key.typed() == Some('y') && s.read_only is None) ==> forall|i: int|
                0 <= i < commands.len() ==> !((#[trigger] commands[i]) is Execute)
        }),
{
}

/// A stray key never loses a staged write: anything but `y` and `Esc` leaves the
/// session exactly as it was.
pub proof fn a_stray_key_loses_nothing(s: StateView, pending: PendingView, key: KeyPress)
    requires
        s.confirm == Some(pending),
        key.typed() != Some('y'),
        key.code != KeyCode::Esc,
    ensures
        (StateView { confirm: None, ..s }).confirm_key(pending, key) == s.unchanged(),
        s.pressed(key) == s.unchanged(),
{
}

/// A staged write is answered once: a plain `y` and `Esc` both close its
/// preview.
pub proof fn an_answer_closes_the_preview(s: StateView, key: KeyPress)
    requires
        s.confirm is Some,
        key.typed() == Some('y') || key.code == KeyCode::Esc,
    ensures
        s.pressed(key).0.confirm is None,
{
}

/// A failure never takes away what is being typed.
pub proof fn a_failure_keeps_what_is_typed(
    s: StateView,
    command: Seq<char>,
    detail: Seq<char>,
    at_ms: u64,
)
    ensures
        s.failed(command, detail, at_ms).typing() == s.typing(),
        s.failed(command, detail, at_ms).error == Some((command + ": "@ + detail, at_ms)),
{
}

/// A write that the server refuses to make never loses the text: a buffer that
/// was on screen takes the keys again, unchanged.
pub proof fn a_refused_write_hands_the_text_back(
    s: StateView,
    mutation: MutationView,
    why: NotWritten,
    at_ms: u64,
)
    requires
        s.has_open(mutation.key()),
        s.open->0.edit.editor() is Some,
    ensures
        s.not_written(mutation, why, at_ms).0.typing() == s.open->0.edit.editor(),
{
}

} // verus!
