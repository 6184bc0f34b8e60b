//! Writes: what is sent to the server, and what the server can answer.

use vstd::prelude::*;

use crate::key::KeyName;
use crate::score::Score;
use crate::state::value::ListEnd;
use crate::text;

verus! {

/// One write. Every write but `DEL` is guarded: it happens only while what the
/// reader saw still holds.
#[derive(Clone, Debug, PartialEq, Eq)]
pub enum Mutation {
    DeleteKey { key: KeyName },
    SetString { key: KeyName, value: Vec<u8> },
    SetHashField { key: KeyName, field: Vec<u8>, value: Vec<u8> },
    AddHashField { key: KeyName, field: Vec<u8>, value: Vec<u8> },
    DeleteHashField { key: KeyName, field: Vec<u8> },
    AddSetMember { key: KeyName, member: Vec<u8> },
    DeleteSetMember { key: KeyName, member: Vec<u8> },
    SetListElement { key: KeyName, index: usize, expected: Vec<u8>, value: Vec<u8> },
    AddListElement { key: KeyName, end: ListEnd, value: Vec<u8> },
    DeleteListElement { key: KeyName, index: usize, expected: Vec<u8> },
    SetZSetScore { key: KeyName, member: Vec<u8>, score: Score },
    AddZSetMember { key: KeyName, member: Vec<u8>, score: Score },
    DeleteZSetMember { key: KeyName, member: Vec<u8> },
}

/// What a write is.
#[verifier::ext_equal]
pub enum MutationView {
    DeleteKey { key: Seq<u8> },
    SetString { key: Seq<u8>, value: Seq<u8> },
    SetHashField { key: Seq<u8>, field: Seq<u8>, value: Seq<u8> },
    AddHashField { key: Seq<u8>, field: Seq<u8>, value: Seq<u8> },
    DeleteHashField { key: Seq<u8>, field: Seq<u8> },
    AddSetMember { key: Seq<u8>, member: Seq<u8> },
    DeleteSetMember { key: Seq<u8>, member: Seq<u8> },
    SetListElement { key: Seq<u8>, index: usize, expected: Seq<u8>, value: Seq<u8> },
    AddListElement { key: Seq<u8>, end: ListEnd, value: Seq<u8> },
    DeleteListElement { key: Seq<u8>, index: usize, expected: Seq<u8> },
    SetZSetScore { key: Seq<u8>, member: Seq<u8>, score: Seq<char> },
    AddZSetMember { key: Seq<u8>, member: Seq<u8>, score: Seq<char> },
    DeleteZSetMember { key: Seq<u8>, member: Seq<u8> },
}

impl View for Mutation {
    type V = MutationView;

    open spec fn view(&self) -> MutationView {
        match self {
            Mutation::DeleteKey { key } => MutationView::DeleteKey { key: key@ },
            Mutation::SetString { key, value } => MutationView::SetString {
                key: key@,
                value: value@,
            },
            Mutation::SetHashField { key, field, value } => MutationView::SetHashField {
                key: key@,
                field: field@,
                value: value@,
            },
            Mutation::AddHashField { key, field, value } => MutationView::AddHashField {
                key: key@,
                field: field@,
                value: value@,
            },
            Mutation::DeleteHashField { key, field } => MutationView::DeleteHashField {
                key: key@,
                field: field@,
            },
            Mutation::AddSetMember { key, member } => MutationView::AddSetMember {
                key: key@,
                member: member@,
            },
            Mutation::DeleteSetMember { key, member } => MutationView::DeleteSetMember {
                key: key@,
                member: member@,
            },
            Mutation::SetListElement { key, index, expected, value } => {
                MutationView::SetListElement {
                    key: key@,
                    index: *index,
                    expected: expected@,
                    value: value@,
                }
            },
            Mutation::AddListElement { key, end, value } => MutationView::AddListElement {
                key: key@,
                end: *end,
                value: value@,
            },
            Mutation::DeleteListElement { key, index, expected } => {
                MutationView::DeleteListElement {
                    key: key@,
                    index: *index,
                    expected: expected@,
                }
            },
            Mutation::SetZSetScore { key, member, score } => MutationView::SetZSetScore {
                key: key@,
                member: member@,
                score: score@,
            },
            Mutation::AddZSetMember { key, member, score } => MutationView::AddZSetMember {
                key: key@,
                member: member@,
                score: score@,
            },
            Mutation::DeleteZSetMember { key, member } => MutationView::DeleteZSetMember {
                key: key@,
                member: member@,
            },
        }
    }
}

/// A command and the key it is for, as text.
pub open spec fn on_key(verb: Seq<char>, key: Seq<u8>) -> Seq<char> {
    verb + " "@ + text::shown(key)
}

/// A command, its key and one argument, as text.
pub open spec fn on_entry(verb: Seq<char>, key: Seq<u8>, entry: Seq<u8>) -> Seq<char> {
    on_key(verb, key) + " "@ + text::shown(entry)
}

/// A command, its key and an index, as text.
pub open spec fn on_index(verb: Seq<char>, key: Seq<u8>, index: usize) -> Seq<char> {
    on_key(verb, key) + " "@ + text::decimal(index as nat)
}

impl MutationView {
    pub open spec fn key(self) -> Seq<u8> {
        match self {
            MutationView::DeleteKey { key } => key,
            MutationView::SetString { key, .. } => key,
            MutationView::SetHashField { key, .. } => key,
            MutationView::AddHashField { key, .. } => key,
            MutationView::DeleteHashField { key, .. } => key,
            MutationView::AddSetMember { key, .. } => key,
            MutationView::DeleteSetMember { key, .. } => key,
            MutationView::SetListElement { key, .. } => key,
            MutationView::AddListElement { key, .. } => key,
            MutationView::DeleteListElement { key, .. } => key,
            MutationView::SetZSetScore { key, .. } => key,
            MutationView::AddZSetMember { key, .. } => key,
            MutationView::DeleteZSetMember { key, .. } => key,
        }
    }

    /// The command that is sent, as far as it names the key and the entry.
    pub open spec fn label(self) -> Seq<char> {
        match self {
            MutationView::DeleteKey { key } => on_key("DEL"@, key),
            MutationView::SetString { key, .. } => on_key("SET"@, key),
            MutationView::SetHashField { key, field, .. } => on_entry("HSET"@, key, field),
            MutationView::AddHashField { key, field, .. } => on_entry("HSETNX"@, key, field),
            MutationView::DeleteHashField { key, field } => on_entry("HDEL"@, key, field),
            MutationView::AddSetMember { key, .. } => on_key("SADD"@, key),
            MutationView::DeleteSetMember { key, .. } => on_key("SREM"@, key),
            MutationView::SetListElement { key, index, .. } => on_index("LSET"@, key, index),
            MutationView::AddListElement { key, end, .. } => on_key(
                match end {
                    ListEnd::Head => "LPUSH"@,
                    ListEnd::Tail => "RPUSH"@,
                },
                key,
            ),
            MutationView::DeleteListElement { key, index, .. } => on_index("LREM"@, key, index),
            MutationView::SetZSetScore { key, member, .. } => on_entry("ZADD"@, key, member),
            MutationView::AddZSetMember { key, .. } => on_key("ZADD"@, key) + " NX"@,
            MutationView::DeleteZSetMember { key, .. } => on_key("ZREM"@, key),
        }
    }

    /// What a removal that found nothing to remove says was gone.
    pub open spec fn noun(self) -> Seq<char> {
        match self {
            MutationView::DeleteHashField { .. } => "field"@,
            MutationView::DeleteSetMember { .. } => "member"@,
            MutationView::DeleteListElement { .. } => "element"@,
            MutationView::DeleteZSetMember { .. } => "member"@,
            _ => "entry"@,
        }
    }
}

pub(crate) fn key_phrase(verb: &str, key: &KeyName) -> (r: String)
    ensures
        r@ == on_key(verb@, key@),
{
    let mut r = text::owned(verb);
    r.append(" ");
    r.append(key.display().as_str());
    r
}

pub(crate) fn entry_phrase(verb: &str, key: &KeyName, entry: &Vec<u8>) -> (r: String)
    ensures
        r@ == on_entry(verb@, key@, entry@),
{
    let mut r = key_phrase(verb, key);
    r.append(" ");
    r.append(text::lossy_text(entry.as_slice()).as_str());
    r
}

pub(crate) fn index_phrase(verb: &str, key: &KeyName, index: usize) -> (r: String)
    ensures
        r@ == on_index(verb@, key@, index),
{
    let mut r = key_phrase(verb, key);
    r.append(" ");
    text::push_decimal(&mut r, index as u64);
    r
}

impl Mutation {
    /// The key that the write is for.
    pub fn key(&self) -> (key: &KeyName)
        ensures
            key@ == self@.key(),
    {
        match self {
            Mutation::DeleteKey { key } => key,
            Mutation::SetString { key, .. } => key,
            Mutation::SetHashField { key, .. } => key,
            Mutation::AddHashField { key, .. } => key,
            Mutation::DeleteHashField { key, .. } => key,
            Mutation::AddSetMember { key, .. } => key,
            Mutation::DeleteSetMember { key, .. } => key,
            Mutation::SetListElement { key, .. } => key,
            Mutation::AddListElement { key, .. } => key,
            Mutation::DeleteListElement { key, .. } => key,
            Mutation::SetZSetScore { key, .. } => key,
            Mutation::AddZSetMember { key, .. } => key,
            Mutation::DeleteZSetMember { key, .. } => key,
        }
    }

    /// The command that is sent, for a message about it.
    pub fn command_label(&self) -> (label: String)
        ensures
            label@ == self@.label(),
    {
        match self {
            Mutation::DeleteKey { key } => key_phrase("DEL", key),
            Mutation::SetString { key, .. } => key_phrase("SET", key),
            Mutation::SetHashField { key, field, .. } => entry_phrase("HSET", key, field),
            Mutation::AddHashField { key, field, .. } => entry_phrase("HSETNX", key, field),
            Mutation::DeleteHashField { key, field } => entry_phrase("HDEL", key, field),
            Mutation::AddSetMember { key, .. } => key_phrase("SADD", key),
            Mutation::DeleteSetMember { key, .. } => key_phrase("SREM", key),
            Mutation::SetListElement { key, index, .. } => index_phrase("LSET", key, *index),
            Mutation::AddListElement { key, end, .. } => match end {
                ListEnd::Head => key_phrase("LPUSH", key),
                ListEnd::Tail => key_phrase("RPUSH", key),
            },
            Mutation::DeleteListElement { key, index, .. } => index_phrase("LREM", key, *index),
            Mutation::SetZSetScore { key, member, .. } => entry_phrase("ZADD", key, member),
            Mutation::AddZSetMember { key, .. } => {
                let mut r = key_phrase("ZADD", key);
                r.append(" NX");
                r
            },
            Mutation::DeleteZSetMember { key, .. } => key_phrase("ZREM", key),
        }
    }

    /// What a removal that found nothing to remove says was gone.
    pub fn noun(&self) -> (noun: &'static str)
        ensures
            noun@ == self@.noun(),
    {
        match self {
            Mutation::DeleteHashField { .. } => "field",
            Mutation::DeleteSetMember { .. } => "member",
            Mutation::DeleteListElement { .. } => "element",
            Mutation::DeleteZSetMember { .. } => "member",
            Mutation::DeleteKey { .. }
            | Mutation::SetString { .. }
            | Mutation::SetHashField { .. }
            | Mutation::AddHashField { .. }
            | Mutation::AddSetMember { .. }
            | Mutation::SetListElement { .. }
            | Mutation::AddListElement { .. }
            | Mutation::SetZSetScore { .. }
            | Mutation::AddZSetMember { .. } => "entry",
        }
    }
}

/// Why a guarded write was not made.
#[derive(Clone, Copy, Debug, PartialEq, Eq, Structural)]
pub enum NotWritten {
    KeyGone,
    FieldGone,
    FieldExists,
    MemberExists,
    ElementMoved,
    MemberGone,
}

impl NotWritten {
    pub open spec fn why(self) -> Seq<char> {
        match self {
            NotWritten::KeyGone => "key no longer exists"@,
            NotWritten::FieldGone => "field no longer exists"@,
            NotWritten::FieldExists => "field already exists"@,
            NotWritten::MemberExists => "member already exists"@,
            NotWritten::ElementMoved =>
                "that element moved — the list changed underneath it, look again"@,
            NotWritten::MemberGone => "member no longer exists"@,
        }
    }

    pub fn reason(self) -> (reason: &'static str)
        ensures
            reason@ == self.why(),
    {
        match self {
            NotWritten::KeyGone => "key no longer exists",
            NotWritten::FieldGone => "field no longer exists",
            NotWritten::FieldExists => "field already exists",
            NotWritten::MemberExists => "member already exists",
            NotWritten::ElementMoved =>
                "that element moved — the list changed underneath it, look again",
            NotWritten::MemberGone => "member no longer exists",
        }
    }
}

/// What the server said of a write.
#[derive(Clone, Copy, Debug, PartialEq, Eq, Structural)]
pub enum MutationOutcome {
    Done,
    NotWritten(NotWritten),
    NothingToRemove,
}

} // verus!
