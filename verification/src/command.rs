//! What the core asks of the shell around it.

use vstd::prelude::*;

use crate::key::KeyName;
use crate::mutation::{Mutation, MutationView};

verus! {

/// The identity of a read. Only the reply to the latest one counts.
#[derive(Clone, Copy, Debug, PartialEq, Eq, Structural)]
pub struct ReadToken {
    pub number: u64,
}

impl ReadToken {
    pub open spec fn after(self) -> ReadToken {
        ReadToken {
            number: if self.number == u64::MAX {
                0
            } else {
                (self.number + 1) as u64
            },
        }
    }

    /// The token of the read issued after this one.
    pub fn next(self) -> (next: ReadToken)
        ensures
            next == self.after(),
    {
        if self.number == u64::MAX {
            ReadToken { number: 0 }
        } else {
            ReadToken { number: self.number + 1 }
        }
    }
}

impl Default for ReadToken {
    fn default() -> (token: ReadToken)
        ensures
            token.number == 0,
    {
        ReadToken { number: 0 }
    }
}

#[derive(Clone, Debug, PartialEq, Eq)]
pub enum Command {
    /// Read a key, and track it if `arm` says so.
    ReadKey { key: KeyName, index: Option<usize>, token: ReadToken, arm: bool },
    Reconnect { after_ms: u64 },
    StartScan { pattern: Option<String> },
    CancelScan,
    FetchMetadata { indices: Vec<usize> },
    CopyToClipboard { text: String, label: String },
    Notify { text: String },
    Execute { mutation: Mutation, index: Option<usize> },
    Quit,
}

/// What a command is.
#[verifier::ext_equal]
pub enum CommandView {
    ReadKey { key: Seq<u8>, index: Option<usize>, token: ReadToken, arm: bool },
    Reconnect { after_ms: u64 },
    StartScan { pattern: Option<Seq<char>> },
    CancelScan,
    FetchMetadata { indices: Seq<usize> },
    CopyToClipboard { text: Seq<char>, label: Seq<char> },
    Notify { text: Seq<char> },
    Execute { mutation: MutationView, index: Option<usize> },
    Quit,
}

impl View for Command {
    type V = CommandView;

    open spec fn view(&self) -> CommandView {
        match self {
            Command::ReadKey { key, index, token, arm } => CommandView::ReadKey {
                key: key@,
                index: *index,
                token: *token,
                arm: *arm,
            },
            Command::Reconnect { after_ms } => CommandView::Reconnect { after_ms: *after_ms },
            Command::StartScan { pattern } => CommandView::StartScan {
                pattern: match pattern {
                    Some(pattern) => Some(pattern@),
                    None => None,
                },
            },
            Command::CancelScan => CommandView::CancelScan,
            Command::FetchMetadata { indices } => CommandView::FetchMetadata { indices: indices@ },
            Command::CopyToClipboard { text, label } => CommandView::CopyToClipboard {
                text: text@,
                label: label@,
            },
            Command::Notify { text } => CommandView::Notify { text: text@ },
            Command::Execute { mutation, index } => CommandView::Execute {
                mutation: mutation@,
                index: *index,
            },
            Command::Quit => CommandView::Quit,
        }
    }
}

impl Command {
    /// What a list of commands is.
    pub open spec fn list(commands: Seq<Command>) -> Seq<CommandView> {
        Seq::new(commands.len(), |i: int| commands[i]@)
    }
}

/// No command.
pub fn nothing() -> (commands: Vec<Command>)
    ensures
        Command::list(commands@) == Seq::<CommandView>::empty(),
{
    let commands: Vec<Command> = Vec::new();
    assert(Command::list(commands@) =~= Seq::<CommandView>::empty());
    commands
}

/// One command.
pub fn only(command: Command) -> (commands: Vec<Command>)
    ensures
        Command::list(commands@) == seq![command@],
{
    let mut commands: Vec<Command> = Vec::new();
    commands.push(command);
    assert(Command::list(commands@) =~= seq![command@]);
    commands
}

/// A notice to show.
pub fn notify(text: &str) -> (commands: Vec<Command>)
    ensures
        Command::list(commands@) == seq![CommandView::Notify { text: text@ }],
{
    only(Command::Notify { text: crate::text::owned(text) })
}

} // verus!
