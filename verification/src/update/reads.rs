//! Reads of a key: one way to issue them, and one way to tell a reply that is
//! still wanted from one that is not.

use vstd::prelude::*;

use crate::command::{nothing, only, Command, CommandView, ReadToken};
use crate::key::KeyName;
use crate::state::session::{State, StateView};
use crate::state::status::{PendingRead, PendingReadView};
use crate::update::Outcome;

verus! {

impl StateView {
    /// No change and no command.
    pub open spec fn unchanged(self) -> Outcome {
        (self, Seq::empty())
    }

    /// A read of a key issued: it supersedes any read in flight, and it is the
    /// one whose reply counts.
    pub open spec fn reading(
        self,
        name: Seq<u8>,
        index: Option<usize>,
        activate_cursor: bool,
    ) -> Outcome {
        let token = self.read_token.after();
        (
            StateView {
                read_token: token,
                open_pending: Some(
                    PendingReadView {
                        name,
                        token,
                        index,
                        issued_at_ms: None,
                        activate_cursor,
                        own_write: false,
                    },
                ),
                ..self
            },
            seq![CommandView::ReadKey { key: name, index, token, arm: self.link.arms() }],
        )
    }

    /// The Open key read again, if there is one.
    pub open spec fn refetched(self) -> Outcome {
        match self.open {
            Some(open) => self.reading(open.name, open.index, false),
            None => self.unchanged(),
        }
    }

    /// The pending read dated, if it is the one that `token` names.
    pub open spec fn read_dated(self, token: ReadToken, at_ms: u64) -> StateView {
        match self.open_pending {
            Some(read) => if read.token == token {
                StateView {
                    open_pending: Some(
                        PendingReadView { issued_at_ms: Some(at_ms), ..read },
                    ),
                    ..self
                }
            } else {
                self
            },
            None => self,
        }
    }
}

/// Mints the token of a read about to be issued.
pub fn issue_read(state: &mut State) -> (token: ReadToken)
    ensures
        token == old(state)@.read_token.after(),
        final(state)@ == (StateView { read_token: token, ..old(state)@ }),
{
    state.read_token = state.read_token.next();
    state.read_token
}

/// The one read command. Whether it arms tracking follows from the link.
pub fn read_key(
    state: &State,
    key: KeyName,
    index: Option<usize>,
    token: ReadToken,
) -> (command: Command)
    ensures
        command@ == (CommandView::ReadKey { key: key@, index, token, arm: state@.link.arms() }),
{
    Command::ReadKey { key, index, token, arm: state.read_arms_tracking() }
}

/// Issues a read of a key.
pub fn start_read(
    state: &mut State,
    name: KeyName,
    index: Option<usize>,
    activate_cursor: bool,
) -> (commands: Vec<Command>)
    ensures
        final(state)@ == old(state)@.reading(name@, index, activate_cursor).0,
        Command::list(commands@) == old(state)@.reading(name@, index, activate_cursor).1,
{
    let token = issue_read(state);
    state.open_pending = Some(
        PendingRead {
            name: name.clone(),
            token,
            index,
            issued_at_ms: None,
            activate_cursor,
            own_write: false,
        },
    );
    only(read_key(state, name, index, token))
}

/// Reads the Open key again. With nothing open there is nothing to read.
pub fn refetch(state: &mut State) -> (commands: Vec<Command>)
    ensures
        final(state)@ == old(state)@.refetched().0,
        Command::list(commands@) == old(state)@.refetched().1,
{
    let wanted = match &state.open {
        Some(open) => Some((open.name.clone(), open.index)),
        None => None,
    };
    match wanted {
        Some((name, index)) => start_read(state, name, index, false),
        None => nothing(),
    }
}

/// The seconds in a reading of the clock.
pub open spec fn seconds_of(at_ms: u64) -> u32 {
    (at_ms / 1000) as u32
}

pub fn epoch_secs(at_ms: u64) -> (seconds: u32)
    ensures
        seconds == seconds_of(at_ms),
{
    #[verifier::truncate]
    let seconds: u32 = (at_ms / 1000) as u32;
    seconds
}

/// Dates the pending read.
pub fn read_issued(state: State, token: ReadToken, at_ms: u64) -> (r: (State, Vec<Command>))
    ensures
        r.0@ == state@.read_dated(token, at_ms),
        Command::list(r.1@) == Seq::<CommandView>::empty(),
{
    let mut after = state;
    if let Some(read) = &mut after.open_pending {
        if read.token == token {
            read.issued_at_ms = Some(at_ms);
        }
    }
    (after, nothing())
}

/// Every read is one command for one key, it arms tracking exactly if the link
/// can, and its token is the only one whose reply counts from then on.
pub proof fn a_read_is_one_command(
    s: StateView,
    name: Seq<u8>,
    index: Option<usize>,
    activate_cursor: bool,
)
    ensures
        ({
            let (after, commands) = s.reading(name, index, activate_cursor);
            &&& commands.len() == 1
            &&& commands[0] == (CommandView::ReadKey {
                key: name,
                index,
                token: after.read_token,
                arm: s.link.arms(),
            })
            &&& after.read_token != s.read_token
            &&& after.open == s.open
        }),
{
}

} // verus!
