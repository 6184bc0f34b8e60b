//! The mutation preview: a write that is staged and waits to be confirmed.

use vstd::prelude::*;
use vstd::utf8::*;

use crate::command::{Command, CommandView};
use crate::json;
use crate::key::KeyName;
use crate::mutation::{self, Mutation, MutationView};
use crate::score::Score;
use crate::state::value::ListEnd;
use crate::text;

verus! {

/// A staged write, with what the preview says about it.
#[derive(Clone, Debug, PartialEq, Eq)]
pub enum PendingMutation {
    DeleteKey { index: usize, name: KeyName },
    SetString { name: KeyName, old: Vec<u8>, new: Vec<u8>, was_json: bool },
    SetHashField {
        name: KeyName,
        field: Vec<u8>,
        old: Vec<u8>,
        new: Vec<u8>,
        was_json: bool,
    },
    AddHashField { name: KeyName, field: Vec<u8>, value: Vec<u8> },
    DeleteHashField { name: KeyName, field: Vec<u8>, last_field: bool },
    AddSetMember { name: KeyName, member: Vec<u8> },
    DeleteSetMember { name: KeyName, member: Vec<u8>, last_member: bool },
    SetListElement {
        name: KeyName,
        index: usize,
        old: Vec<u8>,
        new: Vec<u8>,
        was_json: bool,
    },
    AddListElement { name: KeyName, end: ListEnd, value: Vec<u8> },
    DeleteListElement { name: KeyName, index: usize, element: Vec<u8>, last_element: bool },
    SetZSetScore { name: KeyName, member: Vec<u8>, old_score: Score, new_score: Score },
    AddZSetMember { name: KeyName, member: Vec<u8>, score: Score },
    DeleteZSetMember { name: KeyName, member: Vec<u8>, last_member: bool },
}

/// What a staged write is.
#[verifier::ext_equal]
pub enum PendingView {
    DeleteKey { index: usize, name: Seq<u8> },
    SetString { name: Seq<u8>, old: Seq<u8>, new: Seq<u8>, was_json: bool },
    SetHashField {
        name: Seq<u8>,
        field: Seq<u8>,
        old: Seq<u8>,
        new: Seq<u8>,
        was_json: bool,
    },
    AddHashField { name: Seq<u8>, field: Seq<u8>, value: Seq<u8> },
    DeleteHashField { name: Seq<u8>, field: Seq<u8>, last_field: bool },
    AddSetMember { name: Seq<u8>, member: Seq<u8> },
    DeleteSetMember { name: Seq<u8>, member: Seq<u8>, last_member: bool },
    SetListElement {
        name: Seq<u8>,
        index: usize,
        old: Seq<u8>,
        new: Seq<u8>,
        was_json: bool,
    },
    AddListElement { name: Seq<u8>, end: ListEnd, value: Seq<u8> },
    DeleteListElement { name: Seq<u8>, index: usize, element: Seq<u8>, last_element: bool },
    SetZSetScore { name: Seq<u8>, member: Seq<u8>, old_score: Seq<char>, new_score: Seq<char> },
    AddZSetMember { name: Seq<u8>, member: Seq<u8>, score: Seq<char> },
    DeleteZSetMember { name: Seq<u8>, member: Seq<u8>, last_member: bool },
}

impl View for PendingMutation {
    type V = PendingView;

    open spec fn view(&self) -> PendingView {
        match self {
            PendingMutation::DeleteKey { index, name } => PendingView::DeleteKey {
                index: *index,
                name: name@,
            },
            PendingMutation::SetString { name, old, new, was_json } => PendingView::SetString {
                name: name@,
                old: old@,
                new: new@,
                was_json: *was_json,
            },
            PendingMutation::SetHashField { name, field, old, new, was_json } => {
                PendingView::SetHashField {
                    name: name@,
                    field: field@,
                    old: old@,
                    new: new@,
                    was_json: *was_json,
                }
            },
            PendingMutation::AddHashField { name, field, value } => PendingView::AddHashField {
                name: name@,
                field: field@,
                value: value@,
            },
            PendingMutation::DeleteHashField { name, field, last_field } => {
                PendingView::DeleteHashField {
                    name: name@,
                    field: field@,
                    last_field: *last_field,
                }
            },
            PendingMutation::AddSetMember { name, member } => PendingView::AddSetMember {
                name: name@,
                member: member@,
            },
            PendingMutation::DeleteSetMember { name, member, last_member } => {
                PendingView::DeleteSetMember {
                    name: name@,
                    member: member@,
                    last_member: *last_member,
                }
            },
            PendingMutation::SetListElement { name, index, old, new, was_json } => {
                PendingView::SetListElement {
                    name: name@,
                    index: *index,
                    old: old@,
                    new: new@,
                    was_json: *was_json,
                }
            },
            PendingMutation::AddListElement { name, end, value } => PendingView::AddListElement {
                name: name@,
                end: *end,
                value: value@,
            },
            PendingMutation::DeleteListElement { name, index, element, last_element } => {
                PendingView::DeleteListElement {
                    name: name@,
                    index: *index,
                    element: element@,
                    last_element: *last_element,
                }
            },
            PendingMutation::SetZSetScore { name, member, old_score, new_score } => {
                PendingView::SetZSetScore {
                    name: name@,
                    member: member@,
                    old_score: old_score@,
                    new_score: new_score@,
                }
            },
            PendingMutation::AddZSetMember { name, member, score } => PendingView::AddZSetMember {
                name: name@,
                member: member@,
                score: score@,
            },
            PendingMutation::DeleteZSetMember { name, member, last_member } => {
                PendingView::DeleteZSetMember {
                    name: name@,
                    member: member@,
                    last_member: *last_member,
                }
            },
        }
    }
}

impl PendingView {
    pub open spec fn name(self) -> Seq<u8> {
        self.mutation().key()
    }

    /// The write that confirming sends.
    pub open spec fn mutation(self) -> MutationView {
        match self {
            PendingView::DeleteKey { name, .. } => MutationView::DeleteKey { key: name },
            PendingView::SetString { name, new, .. } => MutationView::SetString {
                key: name,
                value: new,
            },
            PendingView::SetHashField { name, field, new, .. } => MutationView::SetHashField {
                key: name,
                field,
                value: new,
            },
            PendingView::AddHashField { name, field, value } => MutationView::AddHashField {
                key: name,
                field,
                value,
            },
            PendingView::DeleteHashField { name, field, .. } => MutationView::DeleteHashField {
                key: name,
                field,
            },
            PendingView::AddSetMember { name, member } => MutationView::AddSetMember {
                key: name,
                member,
            },
            PendingView::DeleteSetMember { name, member, .. } => MutationView::DeleteSetMember {
                key: name,
                member,
            },
            PendingView::SetListElement { name, index, old, new, .. } => {
                MutationView::SetListElement { key: name, index, expected: old, value: new }
            },
            PendingView::AddListElement { name, end, value } => MutationView::AddListElement {
                key: name,
                end,
                value,
            },
            PendingView::DeleteListElement { name, index, element, .. } => {
                MutationView::DeleteListElement { key: name, index, expected: element }
            },
            PendingView::SetZSetScore { name, member, new_score, .. } => {
                MutationView::SetZSetScore { key: name, member, score: new_score }
            },
            PendingView::AddZSetMember { name, member, score } => MutationView::AddZSetMember {
                key: name,
                member,
                score,
            },
            PendingView::DeleteZSetMember { name, member, .. } => MutationView::DeleteZSetMember {
                key: name,
                member,
            },
        }
    }

    /// The row of the key, which only deleting the key itself carries along.
    pub open spec fn index(self) -> Option<usize> {
        match self {
            PendingView::DeleteKey { index, .. } => Some(index),
            _ => None,
        }
    }

    pub open spec fn command(self) -> CommandView {
        CommandView::Execute { mutation: self.mutation(), index: self.index() }
    }

    /// The command as the preview shows it.
    pub open spec fn text(self) -> Seq<char> {
        match self {
            PendingView::SetString { name, new, .. } => mutation::on_entry("SET"@, name, new)
                + " KEEPTTL XX"@,
            _ => self.mutation().label(),
        }
    }

    /// Under what condition the write happens, in words.
    pub open spec fn guard(self) -> Option<Seq<char>> {
        match self {
            PendingView::SetHashField { .. } => Some(
                "only if the field still exists · keeps its TTL"@,
            ),
            PendingView::AddHashField { .. } => Some(
                "only if the key still exists · never overwrites a field"@,
            ),
            PendingView::AddSetMember { .. } => Some(
                "only if the key still exists · never duplicates a member"@,
            ),
            PendingView::SetListElement { index, .. } => Some(
                "only if that element is still there · index "@ + text::decimal(index as nat),
            ),
            PendingView::AddListElement { .. } => Some("only if the key still exists"@),
            PendingView::DeleteListElement { index, .. } => Some(
                "only if that element is still there · index "@ + text::decimal(index as nat),
            ),
            PendingView::SetZSetScore { .. } => Some("only if that member still exists"@),
            PendingView::AddZSetMember { .. } => Some(
                "only if the key still exists · never overwrites a member's score"@,
            ),
            _ => None,
        }
    }

    /// Whether an edit of something that was JSON leaves it broken; nothing
    /// where it was not JSON.
    pub open spec fn breaks_json(self) -> Option<bool> {
        match self {
            PendingView::SetString { new, was_json, .. } => if was_json {
                Some(!bytes_are_json(new))
            } else {
                None
            },
            PendingView::SetHashField { new, was_json, .. } => if was_json {
                Some(!bytes_are_json(new))
            } else {
                None
            },
            PendingView::SetListElement { new, was_json, .. } => if was_json {
                Some(!bytes_are_json(new))
            } else {
                None
            },
            _ => None,
        }
    }
}

/// Whether `bytes` are text, and the text JSON.
pub open spec fn bytes_are_json(bytes: Seq<u8>) -> bool {
    valid_utf8(bytes) && json::is_json(decode_utf8(bytes))
}

fn json_bytes(bytes: &Vec<u8>) -> (r: bool)
    ensures
        r == bytes_are_json(bytes@),
{
    match text::utf8_text(bytes.as_slice()) {
        Some(text) => json::valid_json(text.as_str()),
        None => false,
    }
}

fn index_guard(index: usize) -> (guard: Option<String>)
    ensures
        guard is Some,
        guard->0@ == "only if that element is still there · index "@ + text::decimal(index as nat),
{
    let mut guard = text::owned("only if that element is still there · index ");
    text::push_decimal(&mut guard, index as u64);
    Some(guard)
}

impl PendingMutation {
    /// The key that the write is for.
    pub fn name(&self) -> (name: &KeyName)
        ensures
            name@ == self@.name(),
    {
        match self {
            PendingMutation::DeleteKey { name, .. } => name,
            PendingMutation::SetString { name, .. } => name,
            PendingMutation::SetHashField { name, .. } => name,
            PendingMutation::AddHashField { name, .. } => name,
            PendingMutation::DeleteHashField { name, .. } => name,
            PendingMutation::AddSetMember { name, .. } => name,
            PendingMutation::DeleteSetMember { name, .. } => name,
            PendingMutation::SetListElement { name, .. } => name,
            PendingMutation::AddListElement { name, .. } => name,
            PendingMutation::DeleteListElement { name, .. } => name,
            PendingMutation::SetZSetScore { name, .. } => name,
            PendingMutation::AddZSetMember { name, .. } => name,
            PendingMutation::DeleteZSetMember { name, .. } => name,
        }
    }

    /// The command that carries the write out.
    pub fn into_command(self) -> (command: Command)
        ensures
            command@ == self@.command(),
    {
        let index: Option<usize> = match &self {
            PendingMutation::DeleteKey { index, .. } => Some(*index),
            _ => None,
        };
        Command::Execute { mutation: self.into_mutation(), index }
    }

    fn into_mutation(self) -> (mutation: Mutation)
        ensures
            mutation@ == self@.mutation(),
    {
        match self {
            PendingMutation::DeleteKey { name, .. } => Mutation::DeleteKey { key: name },
            PendingMutation::SetString { name, new, .. } => Mutation::SetString {
                key: name,
                value: new,
            },
            PendingMutation::SetHashField { name, field, new, .. } => Mutation::SetHashField {
                key: name,
                field,
                value: new,
            },
            PendingMutation::AddHashField { name, field, value } => Mutation::AddHashField {
                key: name,
                field,
                value,
            },
            PendingMutation::DeleteHashField { name, field, .. } => Mutation::DeleteHashField {
                key: name,
                field,
            },
            PendingMutation::AddSetMember { name, member } => Mutation::AddSetMember {
                key: name,
                member,
            },
            PendingMutation::DeleteSetMember { name, member, .. } => Mutation::DeleteSetMember {
                key: name,
                member,
            },
            PendingMutation::SetListElement { name, index, old, new, .. } => {
                Mutation::SetListElement { key: name, index, expected: old, value: new }
            },
            PendingMutation::AddListElement { name, end, value } => Mutation::AddListElement {
                key: name,
                end,
                value,
            },
            PendingMutation::DeleteListElement { name, index, element, .. } => {
                Mutation::DeleteListElement { key: name, index, expected: element }
            },
            PendingMutation::SetZSetScore { name, member, new_score, .. } => {
                Mutation::SetZSetScore { key: name, member, score: new_score }
            },
            PendingMutation::AddZSetMember { name, member, score } => Mutation::AddZSetMember {
                key: name,
                member,
                score,
            },
            PendingMutation::DeleteZSetMember { name, member, .. } => Mutation::DeleteZSetMember {
                key: name,
                member,
            },
        }
    }

    /// The command as the preview shows it.
    pub fn command_text(&self) -> (shown: String)
        ensures
            shown@ == self@.text(),
    {
        match self {
            PendingMutation::DeleteKey { name, .. } => mutation::key_phrase("DEL", name),
            PendingMutation::SetString { name, new, .. } => {
                let mut shown = mutation::entry_phrase("SET", name, new);
                shown.append(" KEEPTTL XX");
                shown
            },
            PendingMutation::SetHashField { name, field, .. } => mutation::entry_phrase(
                "HSET",
                name,
                field,
            ),
            PendingMutation::AddHashField { name, field, .. } => mutation::entry_phrase(
                "HSETNX",
                name,
                field,
            ),
            PendingMutation::DeleteHashField { name, field, .. } => mutation::entry_phrase(
                "HDEL",
                name,
                field,
            ),
            PendingMutation::AddSetMember { name, .. } => mutation::key_phrase("SADD", name),
            PendingMutation::DeleteSetMember { name, .. } => mutation::key_phrase("SREM", name),
            PendingMutation::SetListElement { name, index, .. } => mutation::index_phrase(
                "LSET",
                name,
                *index,
            ),
            PendingMutation::AddListElement { name, end, .. } => match end {
                ListEnd::Head => mutation::key_phrase("LPUSH", name),
                ListEnd::Tail => mutation::key_phrase("RPUSH", name),
            },
            PendingMutation::DeleteListElement { name, index, .. } => mutation::index_phrase(
                "LREM",
                name,
                *index,
            ),
            PendingMutation::SetZSetScore { name, member, .. } => mutation::entry_phrase(
                "ZADD",
                name,
                member,
            ),
            PendingMutation::AddZSetMember { name, .. } => {
                let mut shown = mutation::key_phrase("ZADD", name);
                shown.append(" NX");
                shown
            },
            PendingMutation::DeleteZSetMember { name, .. } => mutation::key_phrase("ZREM", name),
        }
    }

    /// Under what condition the write happens, in words.
    pub fn guard_text(&self) -> (guard: Option<String>)
        ensures
            guard is Some <==> self@.guard() is Some,
            guard is Some ==> guard->0@ == self@.guard()->0,
    {
        match self {
            PendingMutation::SetHashField { .. } => Some(
                text::owned("only if the field still exists · keeps its TTL"),
            ),
            PendingMutation::AddHashField { .. } => Some(
                text::owned("only if the key still exists · never overwrites a field"),
            ),
            PendingMutation::AddSetMember { .. } => Some(
                text::owned("only if the key still exists · never duplicates a member"),
            ),
            PendingMutation::SetListElement { index, .. } => index_guard(*index),
            PendingMutation::AddListElement { .. } => Some(
                text::owned("only if the key still exists"),
            ),
            PendingMutation::DeleteListElement { index, .. } => index_guard(*index),
            PendingMutation::SetZSetScore { .. } => Some(
                text::owned("only if that member still exists"),
            ),
            PendingMutation::AddZSetMember { .. } => Some(
                text::owned("only if the key still exists · never overwrites a member's score"),
            ),
            PendingMutation::DeleteKey { .. }
            | PendingMutation::SetString { .. }
            | PendingMutation::DeleteHashField { .. }
            | PendingMutation::DeleteSetMember { .. }
            | PendingMutation::DeleteZSetMember { .. } => None,
        }
    }

    /// Whether an edit of something that was JSON leaves it broken; nothing
    /// where it was not JSON.
    pub fn json_warning(&self) -> (broken: Option<bool>)
        ensures
            broken == self@.breaks_json(),
    {
        match self {
            PendingMutation::SetString { new, was_json, .. }
            | PendingMutation::SetHashField { new, was_json, .. }
            | PendingMutation::SetListElement { new, was_json, .. } => if *was_json {
                Some(!json_bytes(new))
            } else {
                None
            },
            _ => None,
        }
    }
}

/// The preview shows what confirming runs: but for a `SET`, whose value and
/// flags it spells out, it is the very label that the write is reported under.
pub proof fn the_preview_names_the_write(pending: PendingView)
    ensures
        !(pending is SetString) ==> pending.text() == pending.mutation().label(),
        pending.command() == (CommandView::Execute {
            mutation: pending.mutation(),
            index: pending.index(),
        }),
{
}

} // verus!
