//! What can happen to a session.

use vstd::prelude::*;

use crate::command::ReadToken;
use crate::input::{KeyPress, MouseAction};
use crate::key::KeyName;
use crate::mutation::{Mutation, MutationOutcome};
use crate::state::loaded::KeyKind;
use crate::state::status::{ReadOnlyReason, ServerCondition};
use crate::state::value::Value;

verus! {

/// What the server said about one key of the Loaded set.
#[derive(Clone, Copy, Debug, PartialEq, Eq, Structural)]
pub struct MetadataEntry {
    pub index: usize,
    pub kind: KeyKind,
    pub ttl_seconds: i32,
    pub size_bytes: u32,
}

/// One event. Time arrives inside it, in milliseconds since the epoch.
#[derive(Debug, PartialEq, Eq)]
pub enum Msg {
    Key(KeyPress),
    Mouse(MouseAction),
    Resized { cols: u16, rows: u16 },
    ReadCompleted { at_ms: u64 },
    ReadIssued { token: ReadToken, at_ms: u64 },
    Connected { version: String, tracking_supported: bool },
    ConnectionLost,
    ReconnectScheduled { attempt: u32, retry_in_ms: u64 },
    TrackingArmed,
    Invalidated,
    ScanStarted { estimated_total: u64 },
    ScanBatch { keys: Vec<Vec<u8>> },
    MetadataBatch { entries: Vec<MetadataEntry>, gone: Vec<usize>, at_ms: u64 },
    ScanComplete,
    ScanCancelled,
    ScanFailed { error: String },
    ValueLoaded {
        token: ReadToken,
        index: Option<usize>,
        name: KeyName,
        value: Value,
        ttl_seconds: i32,
        size_bytes: u32,
        at_ms: u64,
    },
    ValueGone { token: ReadToken, index: Option<usize>, name: KeyName, at_ms: u64 },
    Copied { label: String, at_ms: u64 },
    Noticed { text: String, at_ms: u64 },
    ServerState { read_only: Option<ReadOnlyReason>, condition: Option<ServerCondition> },
    Failed { command: String, detail: String, at_ms: u64 },
    Paste(String),
    MutationSettled {
        mutation: Mutation,
        index: Option<usize>,
        result: Result<MutationOutcome, String>,
        at_ms: u64,
    },
    Quit,
}

} // verus!
